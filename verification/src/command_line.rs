//! The command line options for qemu: the `qemu` section of a configuration.
use crate::error::{Error, ErrorKind, ErrorView};
use crate::text::{characters, signed_decimal_text, usize_text};
use crate::yaml::{find_member, Node, Value};
use vstd::prelude::*;

verus! {

/// An option of qemu.
#[derive(Debug)]
pub enum Argument {
    /// A name alone.
    Flag(String),
    /// A name with a value.
    Parameter(String, String),
}

/// What an option says.
pub enum ArgumentView {
    Flag(Seq<char>),
    Parameter(Seq<char>, Seq<char>),
}

impl View for Argument {
    type V = ArgumentView;

    open spec fn view(&self) -> ArgumentView {
        match self {
            Argument::Flag(name) => ArgumentView::Flag(name@),
            Argument::Parameter(name, value) => ArgumentView::Parameter(name@, value@),
        }
    }
}

/// What a row of options says.
pub open spec fn arguments(options: Seq<Argument>) -> Seq<ArgumentView> {
    Seq::new(options.len(), |i: int| options[i]@)
}

/// The arguments that qemu is started with: each option with a dash before its
/// name, and its value behind it.
pub open spec fn rendered(options: Seq<ArgumentView>) -> Seq<Seq<char>>
    decreases options.len(),
{
    if options.len() == 0 {
        Seq::<Seq<char>>::empty()
    } else {
        let before = rendered(options.drop_last());
        match options.last() {
            ArgumentView::Flag(name) => before.push("-"@ + name),
            ArgumentView::Parameter(name, value) => before.push("-"@ + name).push(value),
        }
    }
}

/// The arguments that qemu is started with.
pub fn render(options: &Vec<Argument>) -> (r: Vec<String>)
    ensures
        crate::text::texts(r@) == rendered(arguments(options@)),
{
    let ghost all = arguments(options@);
    let mut result: Vec<String> = Vec::new();
    let mut i: usize = 0;
    assert(all.take(0) =~= Seq::<ArgumentView>::empty());
    assert(crate::text::texts(result@) =~= rendered(all.take(0)));
    while i < options.len()
        invariant
            i <= options@.len(),
            all == arguments(options@),
            crate::text::texts(result@) == rendered(all.take(i as int)),
        decreases options@.len() - i,
    {
        assert(all.take(i + 1).drop_last() =~= all.take(i as int));
        let ghost before = crate::text::texts(result@);
        match &options[i] {
            Argument::Flag(name) => {
                result.push("-".to_owned().concat(name.as_str()));
                assert(crate::text::texts(result@) =~= before.push("-"@ + name@));
            },
            Argument::Parameter(name, value) => {
                result.push("-".to_owned().concat(name.as_str()));
                result.push(value.clone());
                assert(crate::text::texts(result@) =~= before.push("-"@ + name@).push(value@));
            },
        }
        i = i + 1;
    }
    assert(all.take(i as int) =~= all);
    result
}

/// The text of a text or a number.
pub open spec fn scalar_text(value: Value) -> Option<Seq<char>> {
    match value {
        Value::Text(text) => Some(text),
        Value::Integer(number) => Some(crate::text::signed_decimal(number as int)),
        Value::Real(text) => Some(text),
        _ => None,
    }
}

/// The text of a text or a number.
fn scalar(node: &Node) -> (r: Option<String>)
    ensures
        match r {
            Some(text) => scalar_text(node.value()) == Some(text@),
            None => scalar_text(node.value()) is None,
        },
{
    match node {
        Node::Text(text) => Some(text.clone()),
        Node::Integer(number) => Some(signed_decimal_text(*number)),
        Node::Real(text) => Some(text.clone()),
        _ => None,
    }
}

/// Whether a result of reading a text is the expected one.
pub open spec fn gives_text(
    result: Result<String, Error>,
    expected: Result<Seq<char>, ErrorView>,
) -> bool {
    match result {
        Ok(text) => expected == Ok::<Seq<char>, ErrorView>(text@),
        Err(error) => expected == Err::<Seq<char>, ErrorView>(error@),
    }
}

/// A property of a parameter's value: a name and a value with an equals sign
/// between them.
pub open spec fn property_text(name: Seq<char>, part: Seq<(Value, Value)>) -> Result<
    Seq<char>,
    ErrorView,
> {
    if part.len() != 1 {
        Err(
            crate::error::data_error(
                "Failed to parse a value for `"@ + name
                    + "` argument: a hash with multiple pairs found."@,
            ),
        )
    } else {
        match part[0].0 {
            Value::Text(part_name) => match scalar_text(part[0].1) {
                Some(text) => Ok(part_name + "="@ + text),
                None => Err(
                    crate::error::data_error(
                        "Failed to parse a value for `"@ + name + "/"@ + part_name
                            + "` argument: value must be either a string or a number."@,
                    ),
                ),
            },
            _ => Err(
                crate::error::data_error(
                    "Failed to parse a value for `"@ + name
                        + "` argument: a property name must be a string."@,
                ),
            ),
        }
    }
}

/// Reads a property of a parameter's value.
fn parse_parameter_value_part(name: &str, part: &Vec<(Node, Node)>) -> (r: Result<String, Error>)
    ensures
        gives_text(r, property_text(name@, crate::yaml::entries(part@))),
{
    if part.len() != 1 {
        return Err(
            Error::invalid_data(
                "Failed to parse a value for `".to_owned().concat(name).concat(
                    "` argument: a hash with multiple pairs found.",
                ),
            ),
        );
    }
    let part_name = match &part[0].0 {
        Node::Text(part_name) => part_name,
        _ => {
            return Err(
                Error::invalid_data(
                    "Failed to parse a value for `".to_owned().concat(name).concat(
                        "` argument: a property name must be a string.",
                    ),
                ),
            );
        },
    };
    match scalar(&part[0].1) {
        Some(text) => Ok(part_name.clone().concat("=").concat(text.as_str())),
        None => Err(
            Error::invalid_data(
                "Failed to parse a value for `".to_owned().concat(name).concat("/").concat(
                    part_name.as_str(),
                ).concat("` argument: value must be either a string or a number."),
            ),
        ),
    }
}

/// One part of a parameter's value.
pub open spec fn part_text(name: Seq<char>, value: Value) -> Result<Seq<char>, ErrorView> {
    match value {
        Value::Hash(part) => property_text(name, part),
        _ => match scalar_text(value) {
            Some(text) => Ok(text),
            None => Err(
                crate::error::data_error(
                    "Invalid value for `"@ + name
                        + "` option: must be a hash with a single pair or a string"@,
                ),
            ),
        },
    }
}

/// Reads one part of a parameter's value.
fn parse_part(name: &str, value: &Node) -> (r: Result<String, Error>)
    ensures
        gives_text(r, part_text(name@, value.value())),
{
    if let Node::Hash(part) = value {
        proof {
            crate::yaml::hash_value(*part);
        }
        return parse_parameter_value_part(name, part);
    }
    match scalar(value) {
        Some(text) => Ok(text),
        None => Err(
            Error::invalid_data(
                "Invalid value for `".to_owned().concat(name).concat(
                    "` option: must be a hash with a single pair or a string",
                ),
            ),
        ),
    }
}

/// How many commas a text ends with.
pub open spec fn final_commas(text: Seq<char>) -> nat
    decreases text.len(),
{
    if text.len() > 0 && text.last() == ',' {
        final_commas(text.drop_last()) + 1
    } else {
        0
    }
}

/// Whether a text ends with a comma that sets it off from what follows. To qemu
/// two commas in a row stand for a comma in the value.
pub open spec fn ends_with_comma(text: Seq<char>) -> bool {
    final_commas(text) % 2 == 1
}

/// Parts of a value one after the other, with commas between them. A part that
/// ends with the comma that sets it off is followed by no other.
pub open spec fn joined_parts(parts: Seq<Seq<char>>) -> Seq<char>
    decreases parts.len(),
{
    if parts.len() == 0 {
        Seq::<char>::empty()
    } else if parts.len() == 1 {
        parts[0]
    } else {
        let before = joined_parts(parts.drop_last());
        if ends_with_comma(parts[parts.len() - 2]) {
            before + parts.last()
        } else {
            before + ","@ + parts.last()
        }
    }
}

/// Whether a text ends with a comma that sets it off from what follows.
fn has_final_comma(text: &str) -> (r: bool)
    ensures
        r == ends_with_comma(text@),
{
    let chars = characters(text);
    let mut n: usize = chars.len();
    let mut odd = false;
    assert(text@.take(n as int) =~= text@);
    while n > 0 && chars[n - 1] == ','
        invariant
            n <= chars@.len(),
            chars@ == text@,
            ends_with_comma(text@) == (odd != ends_with_comma(text@.take(n as int))),
        decreases n,
    {
        assert(text@.take(n as int).drop_last() =~= text@.take(n - 1));
        odd = !odd;
        n = n - 1;
    }
    odd
}

/// Joins the parts of a value.
fn join_parts(parts: &Vec<String>) -> (r: String)
    ensures
        r@ == joined_parts(crate::text::texts(parts@)),
{
    let ghost all = crate::text::texts(parts@);
    let mut out = String::new();
    let mut i: usize = 0;
    assert(all.take(0) =~= Seq::<Seq<char>>::empty());
    while i < parts.len()
        invariant
            i <= parts@.len(),
            all == crate::text::texts(parts@),
            out@ == joined_parts(all.take(i as int)),
        decreases parts@.len() - i,
    {
        proof {
            assert(all.take(i + 1).drop_last() =~= all.take(i as int));
            assert(all.take(i + 1).last() == parts@[i as int]@);
        }
        if i == 0 {
            out = parts[i].clone();
        } else {
            assert(all.take(i + 1)[i - 1] == parts@[i - 1]@);
            if !has_final_comma(parts[i - 1].as_str()) {
                out.append(",");
            }
            out.append(parts[i].as_str());
        }
        i = i + 1;
    }
    assert(all.take(i as int) =~= all);
    out
}

/// A parameter's value that is written as an array: its parts, with commas
/// between them.
pub open spec fn array_text(name: Seq<char>, values: Seq<Value>) -> Result<Seq<char>, ErrorView> {
    if values.len() == 0 {
        Err(
            crate::error::data_error(
                "Empty value for `"@ + name
                    + "` argument, consider using a string instead of an array."@,
            ),
        )
    } else {
        match crate::error::gather(Seq::new(values.len(), |i: int| part_text(name, values[i]))) {
            Ok(parts) => Ok(joined_parts(parts)),
            Err(error) => Err(error),
        }
    }
}

/// Reads a parameter's value that is written as an array.
fn parse_parameter_value(name: &str, values: &Vec<Node>) -> (r: Result<String, Error>)
    ensures
        gives_text(r, array_text(name@, crate::yaml::values(values@))),
{
    if values.len() == 0 {
        return Err(
            Error::invalid_data(
                "Empty value for `".to_owned().concat(name).concat(
                    "` argument, consider using a string instead of an array.",
                ),
            ),
        );
    }
    let ghost all = crate::yaml::values(values@);
    let ghost results = Seq::new(all.len(), |i: int| part_text(name@, all[i]));
    let mut parts: Vec<String> = Vec::new();
    let mut i: usize = 0;
    assert(results.take(0) =~= Seq::empty());
    assert(crate::text::texts(parts@) =~= Seq::empty());
    while i < values.len()
        invariant
            i <= values@.len(),
            all == crate::yaml::values(values@),
            results == Seq::new(all.len(), |i: int| part_text(name@, all[i])),
            crate::error::gather(results.take(i as int)) == Ok::<Seq<Seq<char>>, ErrorView>(
                crate::text::texts(parts@),
            ),
        decreases values@.len() - i,
    {
        assert(results.take(i + 1).drop_last() =~= results.take(i as int));
        assert(results.take(i + 1).last() == part_text(name@, all[i as int]));
        let ghost before = crate::text::texts(parts@);
        match parse_part(name, &values[i]) {
            Ok(part) => {
                parts.push(part);
                assert(crate::text::texts(parts@) =~= before.push(part@));
            },
            Err(error) => {
                proof {
                    crate::error::gather_stops_at_error(results, i + 1);
                }
                return Err(error);
            },
        }
        i = i + 1;
    }
    assert(results.take(i as int) =~= results);
    Ok(join_parts(&parts))
}

/// The value of a parameter: a text, a number, or an array of parts.
pub open spec fn parameter_text(name: Seq<char>, value: Value, position: nat) -> Result<
    Seq<char>,
    ErrorView,
> {
    match value {
        Value::Array(values) => array_text(name, values),
        _ => match scalar_text(value) {
            Some(text) => Ok(text),
            None => Err(
                crate::error::data_error(
                    "Invalid value for `"@ + name + "` qemu argument "@ + crate::text::decimal(
                        position,
                    ) + ": expected a string, number or a hash with a single pair."@,
                ),
            ),
        },
    }
}

/// Reads the value of a parameter.
fn parse_value(name: &str, value: &Node, position: usize) -> (r: Result<String, Error>)
    ensures
        gives_text(r, parameter_text(name@, value.value(), position as nat)),
{
    if let Node::Array(values) = value {
        proof {
            crate::yaml::array_value(*values);
        }
        return parse_parameter_value(name, values);
    }
    match scalar(value) {
        Some(text) => Ok(text),
        None => Err(
            Error::invalid_data(
                "Invalid value for `".to_owned().concat(name).concat("` qemu argument ").concat(
                    usize_text(position).as_str(),
                ).concat(": expected a string, number or a hash with a single pair."),
            ),
        ),
    }
}

/// A parameter: a hash with one pair. The position is counted from one.
pub open spec fn parameter(option: Seq<(Value, Value)>, position: nat) -> Result<
    ArgumentView,
    ErrorView,
> {
    if option.len() != 1 {
        Err(
            crate::error::data_error(
                "Found a command line argument "@ + crate::text::decimal(position) + " with "@
                    + crate::text::decimal(option.len())
                    + " pairs in the hash, but exactly one is expected."@,
            ),
        )
    } else {
        match option[0].0 {
            Value::Text(name) => match parameter_text(name, option[0].1, position) {
                Ok(text) => Ok(ArgumentView::Parameter(name, text)),
                Err(error) => Err(error),
            },
            _ => Err(
                crate::error::data_error(
                    "Argument "@ + crate::text::decimal(position) + " name must be a string."@,
                ),
            ),
        }
    }
}

/// Whether a result of reading an option is the expected one.
pub open spec fn gives_argument(
    result: Result<Argument, Error>,
    expected: Result<ArgumentView, ErrorView>,
) -> bool {
    match result {
        Ok(argument) => expected == Ok::<ArgumentView, ErrorView>(argument@),
        Err(error) => expected == Err::<ArgumentView, ErrorView>(error@),
    }
}

/// Reads a parameter.
fn parse_parameter(option: &Vec<(Node, Node)>, position: usize) -> (r: Result<Argument, Error>)
    ensures
        gives_argument(r, parameter(crate::yaml::entries(option@), position as nat)),
{
    if option.len() != 1 {
        return Err(
            Error::invalid_data(
                "Found a command line argument ".to_owned().concat(
                    usize_text(position).as_str(),
                ).concat(" with ").concat(usize_text(option.len()).as_str()).concat(
                    " pairs in the hash, but exactly one is expected.",
                ),
            ),
        );
    }
    match &option[0].0 {
        Node::Text(name) => match parse_value(name.as_str(), &option[0].1, position) {
            Ok(value) => Ok(Argument::Parameter(name.clone(), value)),
            Err(error) => Err(error),
        },
        _ => Err(
            Error::invalid_data(
                "Argument ".to_owned().concat(usize_text(position).as_str()).concat(
                    " name must be a string.",
                ),
            ),
        ),
    }
}

/// One option: a text is a flag, a hash is a parameter. The position is counted
/// from one.
pub open spec fn option_value(option: Value, position: nat) -> Result<ArgumentView, ErrorView> {
    match option {
        Value::Text(name) => Ok(ArgumentView::Flag(name)),
        Value::Hash(pairs) => parameter(pairs, position),
        _ => Err(
            crate::error::data_error(
                "Failed to parse qemu command line option "@ + crate::text::decimal(position)
                    + ". Every option must be either a string or a hash."@,
            ),
        ),
    }
}

/// Reads one option.
fn parse_option(option: &Node, position: usize) -> (r: Result<Argument, Error>)
    ensures
        gives_argument(r, option_value(option.value(), position as nat)),
{
    match option {
        Node::Text(name) => Ok(Argument::Flag(name.clone())),
        Node::Hash(pairs) => {
            proof {
                crate::yaml::hash_value(*pairs);
            }
            parse_parameter(pairs, position)
        },
        _ => Err(
            Error::invalid_data(
                "Failed to parse qemu command line option ".to_owned().concat(
                    usize_text(position).as_str(),
                ).concat(". Every option must be either a string or a hash."),
            ),
        ),
    }
}

/// The options of a row, and behind them the one that makes qemu talk over its
/// standard input and output.
pub open spec fn options_value(options: Seq<Value>) -> Result<Seq<ArgumentView>, ErrorView> {
    match crate::error::gather(
        Seq::new(options.len(), |i: int| option_value(options[i], (i + 1) as nat)),
    ) {
        Ok(found) => Ok(found.push(ArgumentView::Parameter("qmp"@, "stdio"@))),
        Err(error) => Err(error),
    }
}

/// The options for qemu.
pub open spec fn command_line_value(config: Value) -> Result<Seq<ArgumentView>, ErrorView> {
    match crate::yaml::member(config, "qemu"@) {
        Value::Array(options) => options_value(options),
        _ => Err(
            crate::error::data_error(
                "Failed to parse qemu command line options: missing or invalid value, array expected."@,
            ),
        ),
    }
}

/// Whether a result of reading options is the expected one.
pub open spec fn gives_arguments(
    result: Result<Vec<Argument>, Error>,
    expected: Result<Seq<ArgumentView>, ErrorView>,
) -> bool {
    match result {
        Ok(options) => expected == Ok::<Seq<ArgumentView>, ErrorView>(arguments(options@)),
        Err(error) => expected == Err::<Seq<ArgumentView>, ErrorView>(error@),
    }
}

/// Reads a row of options.
fn parse_command_line_options(options: &Vec<Node>) -> (r: Result<Vec<Argument>, Error>)
    ensures
        gives_arguments(r, options_value(crate::yaml::values(options@))),
{
    let ghost all = crate::yaml::values(options@);
    let ghost results = Seq::new(all.len(), |i: int| option_value(all[i], (i + 1) as nat));
    let mut parsed_options: Vec<Argument> = Vec::new();
    let mut i: usize = 0;
    assert(results.take(0) =~= Seq::empty());
    assert(arguments(parsed_options@) =~= Seq::empty());
    while i < options.len()
        invariant
            i <= options@.len(),
            all == crate::yaml::values(options@),
            results == Seq::new(all.len(), |i: int| option_value(all[i], (i + 1) as nat)),
            crate::error::gather(results.take(i as int)) == Ok::<Seq<ArgumentView>, ErrorView>(
                arguments(parsed_options@),
            ),
        decreases options@.len() - i,
    {
        assert(results.take(i + 1).drop_last() =~= results.take(i as int));
        assert(results.take(i + 1).last() == option_value(all[i as int], (i + 1) as nat));
        let ghost before = arguments(parsed_options@);
        match parse_option(&options[i], i + 1) {
            Ok(option) => {
                parsed_options.push(option);
                assert(arguments(parsed_options@) =~= before.push(option@));
            },
            Err(error) => {
                proof {
                    crate::error::gather_stops_at_error(results, i + 1);
                }
                return Err(error);
            },
        }
        i = i + 1;
    }
    assert(results.take(i as int) =~= results);
    let ghost before = arguments(parsed_options@);
    let qmp = Argument::Parameter("qmp".to_owned(), "stdio".to_owned());
    parsed_options.push(qmp);
    assert(arguments(parsed_options@) =~= before.push(qmp@));
    Ok(parsed_options)
}

/// Reads the options for qemu.
pub fn parse_command_line(config: &Node) -> (r: Result<Vec<Argument>, Error>)
    ensures
        gives_arguments(r, command_line_value(config.value())),
{
    match find_member(config, "qemu") {
        Some(Node::Array(options)) => {
            proof {
                crate::yaml::array_value(*options);
            }
            parse_command_line_options(options)
        },
        _ => Err(
            Error::invalid_data(
                "Failed to parse qemu command line options: missing or invalid value, array expected.".to_owned(),
            ),
        ),
    }
}

/// The arguments that qemu is started with end with `-qmp stdio`.
pub proof fn command_line_ends_with_qmp(config: Value)
    requires
        command_line_value(config) is Ok,
    ensures
        ({
            let words = rendered(command_line_value(config)->Ok_0);
            &&& words.len() >= 2
            &&& words[words.len() - 2] == "-qmp"@
            &&& words[words.len() - 1] == "stdio"@
        }),
{
    reveal_strlit("-");
    reveal_strlit("qmp");
    reveal_strlit("-qmp");
    assert("-"@ + "qmp"@ =~= "-qmp"@);
}

/// An array with one text or number says the same as this text or number alone.
pub proof fn array_of_one_is_its_item(name: Seq<char>, item: Value, position: nat)
    requires
        scalar_text(item) is Some,
    ensures
        parameter_text(name, Value::Array(seq![item]), position) == parameter_text(
            name,
            item,
            position,
        ),
{
    let values = seq![item];
    let results = Seq::new(values.len(), |i: int| part_text(name, values[i]));
    assert(results.drop_last() =~= Seq::empty());
    assert(crate::error::gather(results.drop_last()) == Ok::<Seq<Seq<char>>, ErrorView>(
        Seq::empty(),
    ));
}

/// A value that is written as an array can as well be written as the text that
/// its parts make up.
pub proof fn array_is_its_text(name: Seq<char>, values: Seq<Value>, position: nat)
    requires
        parameter_text(name, Value::Array(values), position) is Ok,
    ensures
        parameter_text(name, Value::Array(values), position) == parameter_text(
            name,
            Value::Text(parameter_text(name, Value::Array(values), position)->Ok_0),
            position,
        ),
{
}

/// Adding a comma to the last part adds it to the joined parts.
proof fn comma_behind_last_part(parts: Seq<Seq<char>>)
    requires
        parts.len() > 0,
    ensures
        joined_parts(parts.update(parts.len() - 1, parts.last().push(',')))
            == joined_parts(parts).push(','),
{
    let more = parts.update(parts.len() - 1, parts.last().push(','));
    assert(more.drop_last() =~= parts.drop_last());
    if parts.len() > 1 {
        assert(more[more.len() - 2] == parts[parts.len() - 2]);
    }
    assert(joined_parts(more) =~= joined_parts(parts).push(','));
}

/// The comma behind a part may be written out, except behind the last one.
pub proof fn comma_behind_part_may_be_written(parts: Seq<Seq<char>>, at: int)
    requires
        0 <= at < parts.len() - 1,
        !ends_with_comma(parts[at]),
    ensures
        joined_parts(parts.update(at, parts[at].push(','))) == joined_parts(parts),
    decreases parts.len(),
{
    let more = parts.update(at, parts[at].push(','));
    let front = parts.drop_last();
    assert(parts[at].push(',').drop_last() =~= parts[at]);
    assert(more.drop_last() =~= front.update(at, front[at].push(',')));
    assert(more.last() == parts.last());
    if at == parts.len() - 2 {
        comma_behind_last_part(front);
        reveal_strlit(",");
        assert(","@ =~= seq![',']);
        assert(joined_parts(front).push(',') =~= joined_parts(front) + ","@);
    } else {
        comma_behind_part_may_be_written(front, at);
        assert(more[more.len() - 2] == parts[parts.len() - 2]);
    }
}

/// Parts that do not end with such a comma are set off by commas, like any row of
/// texts.
pub proof fn parts_without_commas_are_set_off(parts: Seq<Seq<char>>)
    requires
        forall|i: int| 0 <= i < parts.len() ==> !ends_with_comma(#[trigger] parts[i]),
    ensures
        joined_parts(parts) == crate::text::join(parts, ","@),
    decreases parts.len(),
{
    if parts.len() > 1 {
        let front = parts.drop_last();
        assert forall|i: int| 0 <= i < front.len() implies !ends_with_comma(#[trigger] front[i]) by {
            assert(front[i] == parts[i]);
        }
        parts_without_commas_are_set_off(front);
        assert(!ends_with_comma(parts[parts.len() - 2]));
    }
}

/// A property of a value can as well be written as a text.
pub proof fn property_is_its_text(name: Seq<char>, key: Seq<char>, value: Value)
    requires
        scalar_text(value) is Some,
    ensures
        part_text(name, Value::Hash(seq![(Value::Text(key), value)])) == part_text(
            name,
            Value::Text(key + "="@ + scalar_text(value)->0),
        ),
{
}

/// Whatever is wrong with the options for qemu is reported as invalid data.
pub proof fn option_errors_are_invalid_data(options: Seq<Value>)
    ensures
        options_value(options) is Err ==> options_value(options)->Err_0.kind
            == ErrorKind::InvalidData,
{
    let kind = ErrorKind::InvalidData;
    let results = Seq::new(options.len(), |i: int| option_value(options[i], (i + 1) as nat));
    assert forall|i: int| 0 <= i < results.len() && (#[trigger] results[i]) is Err implies results[
        i
    ]->Err_0.kind == kind by {
        if let Value::Hash(pairs) = options[i] {
            if let (Value::Text(name), Value::Array(values)) = (pairs[0].0, pairs[0].1) {
                let parts = Seq::new(values.len(), |j: int| part_text(name, values[j]));
                crate::error::gather_keeps_kind(parts, kind);
            }
        }
    }
    crate::error::gather_keeps_kind(results, kind);
}

/// One more option adds its own words behind those of the others: a flag the word
/// of a dash and the name, whatever the name is; a parameter that word and, as a
/// word of its own, the value.
pub proof fn option_adds_its_words(options: Seq<ArgumentView>, more: ArgumentView)
    ensures
        rendered(Seq::<ArgumentView>::empty()) == Seq::<Seq<char>>::empty(),
        rendered(options.push(more)) == rendered(options) + match more {
            ArgumentView::Flag(name) => seq![seq!['-'] + name],
            ArgumentView::Parameter(name, value) => seq![seq!['-'] + name, value],
        },
{
    reveal_strlit("-");
    assert("-"@ =~= seq!['-']);
    assert(options.push(more).drop_last() =~= options);
    match more {
        ArgumentView::Flag(name) => {
            assert(rendered(options.push(more)) =~= rendered(options) + seq![seq!['-'] + name]);
        },
        ArgumentView::Parameter(name, value) => {
            assert(rendered(options.push(more)) =~= rendered(options) + seq![
                seq!['-'] + name,
                value,
            ]);
        },
    }
}

/// The words of two rows of options are the words of the first and then those of
/// the second.
pub proof fn rows_of_options_are_rendered_in_turn(a: Seq<ArgumentView>, b: Seq<ArgumentView>)
    ensures
        rendered(a + b) == rendered(a) + rendered(b),
    decreases b.len(),
{
    if b.len() == 0 {
        assert(a + b =~= a);
        assert(rendered(a) + rendered(b) =~= rendered(a));
    } else {
        let front = b.drop_last();
        rows_of_options_are_rendered_in_turn(a, front);
        option_adds_its_words(a + front, b.last());
        option_adds_its_words(front, b.last());
        assert((a + front).push(b.last()) =~= a + b);
        assert(front.push(b.last()) =~= b);
        assert(rendered(a + b) =~= rendered(a) + rendered(b));
    }
}

/// Whether a text or a number of a document says a text: a text says itself, and a
/// number what it is written as.
pub open spec fn says(value: Value, text: Seq<char>) -> bool {
    match value {
        Value::Text(own) => text == own,
        Value::Real(own) => text == own,
        Value::Integer(n) => text == crate::text::signed_decimal(n as int),
        _ => false,
    }
}

/// Whether a part of an array says a text: a text or a number does as above, and a
/// hash of one pair says its key and its value with an equals sign between them.
pub open spec fn says_part(value: Value, key: Seq<char>, text: Seq<char>) -> bool {
    match value {
        Value::Hash(pairs) => pairs.len() == 1 && pairs[0].0 == Value::Text(key) && exists|own:
            Seq<char>| #[trigger]
            says(pairs[0].1, own) && text == key + seq!['='] + own,
        _ => says(value, text),
    }
}

/// The words of an option are those of its name, with a dash before it, and of its
/// value: what a text or a number says. A name alone has no value.
pub proof fn qemu_option_adds_its_words(
    options: Seq<Value>,
    name: Seq<char>,
    value: Value,
    text: Seq<char>,
)
    requires
        options_value(options) is Ok,
    ensures
        ({
            let words = rendered(options_value(options)->Ok_0);
            let own = words.take(words.len() - 2);
            let qmp = seq!["-qmp"@, "stdio"@];
            let flag = options_value(options.push(Value::Text(name)));
            let parameter = options_value(
                options.push(Value::Hash(seq![(Value::Text(name), value)])),
            );
            &&& rendered(options_value(Seq::<Value>::empty())->Ok_0) == qmp
            &&& words == own + qmp
            &&& flag is Ok
            &&& rendered(flag->Ok_0) == own + seq![seq!['-'] + name] + qmp
            &&& says(value, text) ==> {
                &&& parameter is Ok
                &&& rendered(parameter->Ok_0) == own + seq![seq!['-'] + name, text] + qmp
            }
        }),
{
    let qmp = seq!["-qmp"@, "stdio"@];
    let none = Seq::<Value>::empty();
    let flag = Value::Text(name);
    let parameter = Value::Hash(seq![(Value::Text(name), value)]);
    words_before_qmp(none);
    words_before_qmp(options);
    words_before_qmp(options.push(flag));
    words_before_qmp(options.push(parameter));
    assert(read_options(none) =~= Seq::empty());
    let found = crate::error::gather(read_options(options))->Ok_0;
    assert(rendered(Seq::<ArgumentView>::empty()) + qmp =~= qmp);
    let words = rendered(options_value(options)->Ok_0);
    assert(words.take(words.len() - 2) =~= rendered(found));
    one_more_is_read(options, flag);
    option_adds_its_words(found, ArgumentView::Flag(name));
    one_more_is_read(options, parameter);
    if says(value, text) {
        assert(scalar_text(value) == Some(text));
        option_adds_its_words(found, ArgumentView::Parameter(name, text));
    }
}

/// The options of a row, read one by one.
spec fn read_options(options: Seq<Value>) -> Seq<Result<ArgumentView, ErrorView>> {
    Seq::new(options.len(), |i: int| option_value(options[i], (i + 1) as nat))
}

/// Behind the words of the options stand those that make qemu talk over its
/// standard input and output.
proof fn words_before_qmp(options: Seq<Value>)
    ensures
        options_value(options) is Ok <==> crate::error::gather(read_options(options)) is Ok,
        options_value(options) is Err ==> options_value(options)->Err_0 == crate::error::gather(
            read_options(options),
        )->Err_0,
        options_value(options) is Ok ==> rendered(options_value(options)->Ok_0) == rendered(
            crate::error::gather(read_options(options))->Ok_0,
        ) + seq!["-qmp"@, "stdio"@],
{
    let results = Seq::new(options.len(), |i: int| option_value(options[i], (i + 1) as nat));
    assert(results =~= read_options(options));
    if crate::error::gather(results) is Ok {
        let found = crate::error::gather(results)->Ok_0;
        option_adds_its_words(found, ArgumentView::Parameter("qmp"@, "stdio"@));
        reveal_strlit("qmp");
        reveal_strlit("-qmp");
        assert(seq!['-'] + "qmp"@ =~= "-qmp"@);
    }
}

/// One more option is read behind the others.
proof fn one_more_is_read(options: Seq<Value>, more: Value)
    ensures
        crate::error::gather(read_options(options.push(more))) == match crate::error::gather(
            read_options(options),
        ) {
            Ok(found) => match option_value(more, options.len() + 1) {
                Ok(option) => Ok::<Seq<ArgumentView>, ErrorView>(found.push(option)),
                Err(error) => Err(error),
            },
            Err(error) => Err(error),
        },
{
    let results = read_options(options.push(more));
    assert(results.drop_last() =~= read_options(options));
    assert(results.last() == option_value(more, options.len() + 1));
}

/// What is wrong with an option of qemu, where it stands behind others. An option
/// that is broken hides what is wrong behind it.
pub proof fn broken_options_are_complained_of(
    options: Seq<Value>,
    more: Value,
    name: Seq<char>,
    key: Value,
    value: Value,
)
    ensures
        ({
            let place = crate::text::decimal(options.len() + 1);
            let fails = |option: Value, message: Seq<char>|
                options_value(options.push(option)) == Err::<Seq<ArgumentView>, ErrorView>(
                    ErrorView { kind: ErrorKind::InvalidData, message },
                );
            &&& options_value(options) is Err ==> options_value(options.push(more))
                == options_value(options)
            &&& options_value(options) is Ok ==> {
                &&& !(more is Text) && !(more is Hash) ==> fails(
                    more,
                    "Failed to parse qemu command line option "@ + place
                        + ". Every option must be either a string or a hash."@,
                )
                &&& more is Hash && more->Hash_0.len() != 1 ==> fails(
                    more,
                    "Found a command line argument "@ + place + " with "@ + crate::text::decimal(
                        more->Hash_0.len(),
                    ) + " pairs in the hash, but exactly one is expected."@,
                )
                &&& !(key is Text) ==> fails(
                    Value::Hash(seq![(key, value)]),
                    "Argument "@ + place + " name must be a string."@,
                )
                &&& !(value is Text) && !(value is Integer) && !(value is Real)
                    && !(value is Array) ==> fails(
                    Value::Hash(seq![(Value::Text(name), value)]),
                    "Invalid value for `"@ + name + "` qemu argument "@ + place
                        + ": expected a string, number or a hash with a single pair."@,
                )
                &&& fails(
                    Value::Hash(
                        seq![(Value::Text(name), Value::Array(Seq::<Value>::empty()))],
                    ),
                    "Empty value for `"@ + name
                        + "` argument, consider using a string instead of an array."@,
                )
            }
        }),
{
    let empty = Value::Hash(seq![(Value::Text(name), Value::Array(Seq::<Value>::empty()))]);
    words_before_qmp(options);
    words_before_qmp(options.push(more));
    words_before_qmp(options.push(Value::Hash(seq![(key, value)])));
    words_before_qmp(options.push(Value::Hash(seq![(Value::Text(name), value)])));
    words_before_qmp(options.push(empty));
    one_more_is_read(options, more);
    one_more_is_read(options, Value::Hash(seq![(key, value)]));
    one_more_is_read(options, Value::Hash(seq![(Value::Text(name), value)]));
    one_more_is_read(options, empty);
}

/// A value that is written as an array says what its parts say, one after the other,
/// as `joined_parts` joins them.
pub proof fn array_says_its_parts(
    name: Seq<char>,
    values: Seq<Value>,
    keys: Seq<Seq<char>>,
    texts: Seq<Seq<char>>,
    position: nat,
)
    requires
        values.len() > 0,
        values.len() == keys.len() == texts.len(),
        forall|i: int| 0 <= i < values.len() ==> says_part(#[trigger] values[i], keys[i], texts[i]),
    ensures
        parameter_text(name, Value::Array(values), position) == Ok::<Seq<char>, ErrorView>(
            joined_parts(texts),
        ),
{
    let results = Seq::new(values.len(), |i: int| part_text(name, values[i]));
    reveal_strlit("=");
    assert("="@ =~= seq!['=']);
    assert forall|i: int| 0 <= i < results.len() implies #[trigger] results[i] == Ok::<
        Seq<char>,
        ErrorView,
    >(texts[i]) by {
        assert(says_part(values[i], keys[i], texts[i]));
        if let Value::Hash(pairs) = values[i] {
            let own = choose|own: Seq<char>| #[trigger]
                says(pairs[0].1, own) && texts[i] == keys[i] + seq!['='] + own;
            assert(scalar_text(pairs[0].1) == Some(own));
        }
    }
    crate::error::gathering_gives_values_or_first_error(results, results.len() as int);
    assert(Seq::new(results.len(), |i: int| results[i]->Ok_0) =~= texts);
}

/// What is wrong with the first broken part of an array.
pub proof fn broken_parts_are_complained_of(
    name: Seq<char>,
    values: Seq<Value>,
    at: int,
    position: nat,
)
    requires
        0 <= at < values.len(),
        forall|i: int|
            0 <= i < at ==> exists|key: Seq<char>, text: Seq<char>|
                says_part(#[trigger] values[i], key, text),
    ensures
        ({
            let found = parameter_text(name, Value::Array(values), position);
            let fails = |message: Seq<char>|
                found == Err::<Seq<char>, ErrorView>(
                    ErrorView { kind: ErrorKind::InvalidData, message },
                );
            match values[at] {
                Value::Hash(pairs) => if pairs.len() != 1 {
                    fails(
                        "Failed to parse a value for `"@ + name
                            + "` argument: a hash with multiple pairs found."@,
                    )
                } else if !(pairs[0].0 is Text) {
                    fails(
                        "Failed to parse a value for `"@ + name
                            + "` argument: a property name must be a string."@,
                    )
                } else if !(pairs[0].1 is Text) && !(pairs[0].1 is Integer) && !(
                pairs[0].1 is Real) {
                    fails(
                        "Failed to parse a value for `"@ + name + "/"@ + pairs[0].0->Text_0
                            + "` argument: value must be either a string or a number."@,
                    )
                } else {
                    true
                },
                Value::Text(_) | Value::Integer(_) | Value::Real(_) => true,
                _ => fails(
                    "Invalid value for `"@ + name
                        + "` option: must be a hash with a single pair or a string"@,
                ),
            }
        }),
{
    let results = Seq::new(values.len(), |i: int| part_text(name, values[i]));
    assert forall|i: int| 0 <= i < at implies (#[trigger] results[i]) is Ok by {
        let (key, text) = choose|key: Seq<char>, text: Seq<char>|
            says_part(#[trigger] values[i], key, text);
        assert(says_part(values[i], key, text));
    }
    crate::error::gathering_gives_values_or_first_error(results, at);
}

/// One more part comes behind a comma, unless the part before it ends with an odd
/// number of commas, whose last one does. A single part stays as it is.
pub proof fn parts_are_joined_by_commas(parts: Seq<Seq<char>>, more: Seq<char>)
    ensures
        joined_parts(seq![more]) == more,
        parts.len() > 0 ==> joined_parts(parts.push(more)) == if ends_with_comma(
            parts[parts.len() - 1],
        ) {
            joined_parts(parts) + more
        } else {
            joined_parts(parts) + seq![','] + more
        },
        ends_with_comma(more.push(',')) == !ends_with_comma(more),
        more.len() == 0 || more[more.len() - 1] != ',' ==> !ends_with_comma(more),
{
    reveal_strlit(",");
    assert(","@ =~= seq![',']);
    assert(parts.push(more).drop_last() =~= parts);
    assert(more.push(',').drop_last() =~= more);
    if parts.len() > 0 {
        assert(parts.push(more)[parts.len() - 1] == parts[parts.len() - 1]);
    }
}

} // verus!
