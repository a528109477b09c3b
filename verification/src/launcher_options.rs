//! The options of the launcher itself: the `launcher` section of a configuration.
use crate::error::{Error, ErrorView};
use crate::text::{same_text, signed_decimal_text};
use crate::variables::Variables;
use crate::yaml::{find_member, Node, Value};
use vstd::prelude::*;

verus! {

/// The value of an option of the launcher.
pub open spec fn launcher_value(config: Value, key: Seq<char>) -> Value {
    crate::yaml::member(crate::yaml::member(config, "launcher"@), key)
}

/// Finds an option of the launcher.
pub fn find_launcher_option<'a>(config: &'a Node, key: &str) -> (r: Option<&'a Node>)
    ensures
        match r {
            Some(found) => launcher_value(config.value(), key@) == found.value(),
            None => launcher_value(config.value(), key@) == Value::BadValue,
        },
{
    match find_member(config, "launcher") {
        Some(launcher) => find_member(launcher, key),
        None => None,
    }
}

/// A truth value. It is false if the option is missing.
pub open spec fn bool_value(config: Value, key: Seq<char>) -> Result<bool, ErrorView> {
    match launcher_value(config, key) {
        Value::Boolean(flag) => Ok(flag),
        Value::BadValue => Ok(false),
        _ => Err(
            crate::error::data_error(
                "Invalid value for `launcher."@ + key + "` value: a boolean is expected."@,
            ),
        ),
    }
}

/// Reads a truth value.
pub fn parse_bool_value(config: &Node, key: &str) -> (r: Result<bool, Error>)
    ensures
        crate::error::outcome(r) == bool_value(config.value(), key@),
{
    match find_launcher_option(config, key) {
        None | Some(Node::BadValue) => Ok(false),
        Some(Node::Boolean(flag)) => Ok(*flag),
        _ => Err(
            Error::invalid_data(
                "Invalid value for `launcher.".to_owned().concat(key).concat(
                    "` value: a boolean is expected.",
                ),
            ),
        ),
    }
}

/// An unsigned integer of 16 bits. There is none if the option is missing.
pub open spec fn u16_value(config: Value, key: Seq<char>) -> Result<Option<u16>, ErrorView> {
    match launcher_value(config, key) {
        Value::Integer(number) => if 0 <= number <= u16::MAX {
            Ok(Some(number as u16))
        } else {
            Err(
                crate::error::data_error(
                    "Invalid value for `launcher."@ + key
                        + "` option: given value is out of bounds, expected an unsigned 16-bit integer."@,
                ),
            )
        },
        Value::BadValue => Ok(None),
        _ => Err(
            crate::error::data_error(
                "Invalid value for `launcher."@ + key
                    + "` option: unsigned 16-bit integer expected."@,
            ),
        ),
    }
}

/// Reads an unsigned integer of 16 bits.
pub fn parse_u16_value(config: &Node, key: &str) -> (r: Result<Option<u16>, Error>)
    ensures
        crate::error::outcome(r) == u16_value(config.value(), key@),
{
    match find_launcher_option(config, key) {
        None | Some(Node::BadValue) => Ok(None),
        Some(Node::Integer(number)) => {
            if 0 <= *number && *number <= u16::MAX as i64 {
                Ok(Some(*number as u16))
            } else {
                Err(
                    Error::invalid_data(
                        "Invalid value for `launcher.".to_owned().concat(key).concat(
                            "` option: given value is out of bounds, expected an unsigned 16-bit integer.",
                        ),
                    ),
                )
            }
        },
        _ => Err(
            Error::invalid_data(
                "Invalid value for `launcher.".to_owned().concat(key).concat(
                    "` option: unsigned 16-bit integer expected.",
                ),
            ),
        ),
    }
}

/// The priority of the vCPU threads. There is none if the option is missing.
pub open spec fn priority_value(config: Value) -> Result<Option<u8>, ErrorView> {
    match launcher_value(config, "priority"@) {
        Value::Integer(number) => if 0 <= number <= u8::MAX {
            Ok(Some(number as u8))
        } else {
            Err(
                crate::error::data_error(
                    "Wrong value for `launcher.priority`: value out of bounds."@,
                ),
            )
        },
        Value::BadValue => Ok(None),
        _ => Err(
            crate::error::data_error(
                "Failed to parse `launcher.priority`: an integer expected."@,
            ),
        ),
    }
}

/// Reads the priority of the vCPU threads.
pub fn parse_priority(config: &Node) -> (r: Result<Option<u8>, Error>)
    ensures
        crate::error::outcome(r) == priority_value(config.value()),
{
    match find_launcher_option(config, "priority") {
        None | Some(Node::BadValue) => Ok(None),
        Some(Node::Integer(number)) => {
            if 0 <= *number && *number <= u8::MAX as i64 {
                Ok(Some(*number as u8))
            } else {
                Err(
                    Error::invalid_data(
                        "Wrong value for `launcher.priority`: value out of bounds.".to_owned(),
                    ),
                )
            }
        },
        _ => Err(
            Error::invalid_data(
                "Failed to parse `launcher.priority`: an integer expected.".to_owned(),
            ),
        ),
    }
}

/// Whether a name is that of a scheduler.
pub open spec fn is_scheduler(name: Seq<char>) -> bool {
    ||| name == "batch"@
    ||| name == "deadline"@
    ||| name == "fifo"@
    ||| name == "idle"@
    ||| name == "other"@
    ||| name == "rr"@
}

/// The scheduler of the vCPU threads. There is none if the option is missing.
pub open spec fn scheduler_value(config: Value) -> Result<Option<Seq<char>>, ErrorView> {
    match launcher_value(config, "scheduler"@) {
        Value::Text(name) => if is_scheduler(name) {
            Ok(Some(name))
        } else {
            Err(
                crate::error::data_error(
                    "Failed to parse `launcher.scheduler`: Expected one of `batch`, `deadline`, `fifo`, `idle`, `other` or `rr`."@,
                ),
            )
        },
        Value::BadValue => Ok(None),
        _ => Err(
            crate::error::data_error("Failed to parse `launcher.scheduler`: string expected."@),
        ),
    }
}

/// What an optional text says.
pub open spec fn optional_text(text: Option<String>) -> Option<Seq<char>> {
    match text {
        Some(text) => Some(text@),
        None => None,
    }
}

/// Reads the scheduler of the vCPU threads.
pub fn parse_scheduler(config: &Node) -> (r: Result<Option<String>, Error>)
    ensures
        match r {
            Ok(scheduler) => scheduler_value(config.value()) == Ok::<Option<Seq<char>>, ErrorView>(
                optional_text(scheduler),
            ),
            Err(error) => scheduler_value(config.value()) == Err::<Option<Seq<char>>, ErrorView>(
                error@,
            ),
        },
{
    match find_launcher_option(config, "scheduler") {
        None | Some(Node::BadValue) => Ok(None),
        Some(Node::Text(name)) => {
            let text = name.as_str();
            if same_text(text, "batch") || same_text(text, "deadline") || same_text(text, "fifo")
                || same_text(text, "idle") || same_text(text, "other") || same_text(text, "rr") {
                Ok(Some(name.clone()))
            } else {
                Err(
                    Error::invalid_data(
                        "Failed to parse `launcher.scheduler`: Expected one of `batch`, `deadline`, `fifo`, `idle`, `other` or `rr`.".to_owned(),
                    ),
                )
            }
        },
        _ => Err(
            Error::invalid_data(
                "Failed to parse `launcher.scheduler`: string expected.".to_owned(),
            ),
        ),
    }
}

/// The path of the qemu binary. It has to be given.
pub open spec fn binary_value(config: Value) -> Result<Seq<char>, ErrorView> {
    match launcher_value(config, "binary"@) {
        Value::Text(path) => Ok(path),
        _ => Err(
            crate::error::data_error(
                "qemu binary path is not specified, missing or the `launcher.binary` key has an invalid type."@,
            ),
        ),
    }
}

/// Reads the path of the qemu binary.
pub fn parse_qemu_binary(config: &Node) -> (r: Result<String, Error>)
    ensures
        match r {
            Ok(path) => binary_value(config.value()) == Ok::<Seq<char>, ErrorView>(path@),
            Err(error) => binary_value(config.value()) == Err::<Seq<char>, ErrorView>(error@),
        },
{
    match find_launcher_option(config, "binary") {
        Some(Node::Text(path)) => Ok(path.clone()),
        _ => Err(
            Error::invalid_data(
                "qemu binary path is not specified, missing or the `launcher.binary` key has an invalid type.".to_owned(),
            ),
        ),
    }
}

/// The text that a truth value is written as.
pub open spec fn bool_text(flag: bool) -> Seq<char> {
    if flag {
        "true"@
    } else {
        "false"@
    }
}

/// The text of the value of an environment variable: a text, a number or a truth
/// value.
pub open spec fn variable_text(value: Value) -> Option<Seq<char>> {
    match value {
        Value::Boolean(flag) => Some(bool_text(flag)),
        Value::Integer(number) => Some(crate::text::signed_decimal(number as int)),
        Value::Real(text) => Some(text),
        Value::Text(text) => Some(text),
        _ => None,
    }
}

/// One environment variable.
pub open spec fn variable(pair: (Value, Value)) -> Result<(Seq<char>, Seq<char>), ErrorView> {
    match pair.0 {
        Value::Text(name) => match variable_text(pair.1) {
            Some(text) => Ok((name, text)),
            None => Err(
                crate::error::data_error(
                    "Invalid value for the `"@ + name + "` environment variable."@,
                ),
            ),
        },
        _ => Err(crate::error::data_error("Environment variable name must be a string."@)),
    }
}

/// The environment variables that some pairs stand for.
pub open spec fn variables(pairs: Seq<(Value, Value)>) -> Result<
    Map<Seq<char>, Seq<char>>,
    ErrorView,
> {
    match crate::error::gather(Seq::new(pairs.len(), |i: int| variable(pairs[i]))) {
        Ok(found) => Ok(crate::pairs::by_key(found)),
        Err(error) => Err(error),
    }
}

/// The environment variables for qemu. There are none if the option is missing.
pub open spec fn env_value(config: Value) -> Result<Map<Seq<char>, Seq<char>>, ErrorView> {
    match launcher_value(config, "env"@) {
        Value::Hash(pairs) => variables(pairs),
        Value::BadValue => Ok(Map::empty()),
        _ => Err(
            crate::error::data_error("Invalid value for the `launcher.env` key: a hash expected."@),
        ),
    }
}

/// Reads one environment variable.
fn parse_variable(name: &Node, value: &Node) -> (r: Result<(String, String), Error>)
    ensures
        match r {
            Ok(pair) => variable((name.value(), value.value())) == Ok::<
                (Seq<char>, Seq<char>),
                ErrorView,
            >((pair.0@, pair.1@)),
            Err(error) => variable((name.value(), value.value())) == Err::<
                (Seq<char>, Seq<char>),
                ErrorView,
            >(error@),
        },
{
    let name = match name {
        Node::Text(name) => name.clone(),
        _ => {
            return Err(
                Error::invalid_data("Environment variable name must be a string.".to_owned()),
            );
        },
    };
    match value {
        Node::Boolean(flag) => Ok(
            (
                name,
                if *flag {
                    "true".to_owned()
                } else {
                    "false".to_owned()
                },
            ),
        ),
        Node::Integer(number) => Ok((name, signed_decimal_text(*number))),
        Node::Real(text) => Ok((name, text.clone())),
        Node::Text(text) => Ok((name, text.clone())),
        _ => Err(
            Error::invalid_data(
                "Invalid value for the `".to_owned().concat(name.as_str()).concat(
                    "` environment variable.",
                ),
            ),
        ),
    }
}

/// Reads environment variables.
fn parse_env_hash(env: &Vec<(Node, Node)>) -> (r: Result<Variables, Error>)
    ensures
        match r {
            Ok(found) => variables(crate::yaml::entries(env@)) == Ok::<
                Map<Seq<char>, Seq<char>>,
                ErrorView,
            >(found@),
            Err(error) => variables(crate::yaml::entries(env@)) == Err::<
                Map<Seq<char>, Seq<char>>,
                ErrorView,
            >(error@),
        },
{
    let ghost pairs = crate::yaml::entries(env@);
    let ghost results = Seq::new(pairs.len(), |i: int| variable(pairs[i]));
    let ghost mut found = Seq::<(Seq<char>, Seq<char>)>::empty();
    let mut vars = Variables::new();
    let mut i: usize = 0;
    assert(results.take(0) =~= Seq::empty());
    while i < env.len()
        invariant
            i <= env@.len(),
            pairs == crate::yaml::entries(env@),
            results == Seq::new(pairs.len(), |i: int| variable(pairs[i])),
            crate::error::gather(results.take(i as int)) == Ok::<
                Seq<(Seq<char>, Seq<char>)>,
                ErrorView,
            >(found),
            vars@ == crate::pairs::by_key(found),
        decreases env@.len() - i,
    {
        assert(results.take(i + 1).drop_last() =~= results.take(i as int));
        assert(results.take(i + 1).last() == variable(pairs[i as int]));
        match parse_variable(&env[i].0, &env[i].1) {
            Ok((name, value)) => {
                proof {
                    let pair = (name@, value@);
                    assert(found.push(pair).drop_last() =~= found);
                    found = found.push(pair);
                }
                vars.insert(name, value);
            },
            Err(error) => {
                proof {
                    crate::error::gather_stops_at_error(results, i + 1);
                }
                return Err(error);
            },
        }
        i = i + 1;
    }
    assert(results.take(i as int) =~= results);
    Ok(vars)
}

/// Reads the environment variables for qemu.
pub fn parse_env(config: &Node) -> (r: Result<Variables, Error>)
    ensures
        match r {
            Ok(found) => env_value(config.value()) == Ok::<
                Map<Seq<char>, Seq<char>>,
                ErrorView,
            >(found@),
            Err(error) => env_value(config.value()) == Err::<
                Map<Seq<char>, Seq<char>>,
                ErrorView,
            >(error@),
        },
{
    match find_launcher_option(config, "env") {
        None | Some(Node::BadValue) => Ok(Variables::new()),
        Some(Node::Hash(pairs)) => {
            proof {
                crate::yaml::hash_value(*pairs);
            }
            parse_env_hash(pairs)
        },
        _ => Err(
            Error::invalid_data(
                "Invalid value for the `launcher.env` key: a hash expected.".to_owned(),
            ),
        ),
    }
}

} // verus!
