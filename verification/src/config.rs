//! The configuration of a virtual machine.
use crate::command_line::{parse_command_line, render, Argument, ArgumentView};
use crate::error::{Error, ErrorKind, ErrorView};
use crate::launcher_options::{
    parse_bool_value, parse_env, parse_priority, parse_qemu_binary, parse_scheduler,
    parse_u16_value,
};
use crate::variables::Variables;
use crate::vcpu_pinning::{parse_cpu_pinning, Pin};
use crate::yaml::{last_document, Node, Value};
use vstd::prelude::*;

verus! {

/// What a configuration says.
pub struct ConfigView {
    /// The user that qemu runs as.
    pub user: Option<u16>,
    /// The group that qemu runs as.
    pub group: Option<u16>,
    /// Which vCPU is pinned to which host CPU.
    pub cpu_pinning: Seq<Pin>,
    /// The path of the qemu binary.
    pub qemu_binary: Seq<char>,
    /// Whether qemu gets none of the launcher's environment variables.
    pub clear_env: bool,
    /// More environment variables for qemu.
    pub env: Map<Seq<char>, Seq<char>>,
    /// The priority of the vCPU threads.
    pub priority: Option<u8>,
    /// The scheduler of the vCPU threads.
    pub scheduler: Option<Seq<char>>,
    /// The options for qemu.
    pub command_line: Seq<ArgumentView>,
    /// Whether qemu may lock any amount of memory.
    pub rlimit_memlock: bool,
    /// Whether the launcher prints what it does.
    pub debug: bool,
}

/// The options of the launcher that say how qemu is run. The options of qemu
/// itself are left empty.
pub open spec fn process_options(config: Value) -> Result<ConfigView, ErrorView> {
    match crate::launcher_options::u16_value(config, "user"@) {
        Err(error) => Err(error),
        Ok(user) => match crate::launcher_options::u16_value(config, "group"@) {
            Err(error) => Err(error),
            Ok(group) => match crate::vcpu_pinning::pinning_value(config) {
                Err(error) => Err(error),
                Ok(cpu_pinning) => match crate::launcher_options::binary_value(config) {
                    Err(error) => Err(error),
                    Ok(qemu_binary) => match crate::launcher_options::bool_value(
                        config,
                        "clear_env"@,
                    ) {
                        Err(error) => Err(error),
                        Ok(clear_env) => match crate::launcher_options::env_value(config) {
                            Err(error) => Err(error),
                            Ok(env) => Ok(
                                ConfigView {
                                    user,
                                    group,
                                    cpu_pinning,
                                    qemu_binary,
                                    clear_env,
                                    env,
                                    priority: None,
                                    scheduler: None,
                                    command_line: Seq::<ArgumentView>::empty(),
                                    rlimit_memlock: false,
                                    debug: false,
                                },
                            ),
                        },
                    },
                },
            },
        },
    }
}

/// The configuration that a document stands for. Its parts are read in a fixed
/// order, and the first error counts.
pub open spec fn config_of(config: Value) -> Result<ConfigView, ErrorView> {
    match process_options(config) {
        Err(error) => Err(error),
        Ok(options) => match crate::launcher_options::priority_value(config) {
            Err(error) => Err(error),
            Ok(priority) => match crate::launcher_options::scheduler_value(config) {
                Err(error) => Err(error),
                Ok(scheduler) => match crate::command_line::command_line_value(config) {
                    Err(error) => Err(error),
                    Ok(command_line) => match crate::launcher_options::bool_value(
                        config,
                        "rlimit_memlock"@,
                    ) {
                        Err(error) => Err(error),
                        Ok(rlimit_memlock) => match crate::launcher_options::bool_value(
                            config,
                            "debug"@,
                        ) {
                            Err(error) => Err(error),
                            Ok(debug) => Ok(
                                ConfigView {
                                    priority,
                                    scheduler,
                                    command_line,
                                    rlimit_memlock,
                                    debug,
                                    ..options
                                },
                            ),
                        },
                    },
                },
            },
        },
    }
}

/// The configuration that a text stands for: that of its last document.
pub open spec fn config_of_text(text: Seq<char>) -> Result<ConfigView, ErrorView> {
    match crate::yaml::yaml_documents(text) {
        Ok(documents) => if documents.len() > 0 {
            config_of(documents.last())
        } else {
            Err(crate::error::data_error("Supplied configuration is empty."@))
        },
        Err(message) => Err(crate::error::data_error(message)),
    }
}

/// The configuration of a virtual machine.
#[derive(Debug)]
pub struct Config {
    user: Option<u16>,
    group: Option<u16>,
    cpu_pinning: Vec<Pin>,
    qemu_binary: String,
    clear_env: bool,
    env: Variables,
    priority: Option<u8>,
    scheduler: Option<String>,
    command_line: Vec<Argument>,
    rlimit_memlock: bool,
    debug: bool,
}

impl View for Config {
    type V = ConfigView;

    closed spec fn view(&self) -> ConfigView {
        ConfigView {
            user: self.user,
            group: self.group,
            cpu_pinning: self.cpu_pinning@,
            qemu_binary: self.qemu_binary@,
            clear_env: self.clear_env,
            env: self.env@,
            priority: self.priority,
            scheduler: crate::launcher_options::optional_text(self.scheduler),
            command_line: crate::command_line::arguments(self.command_line@),
            rlimit_memlock: self.rlimit_memlock,
            debug: self.debug,
        }
    }
}

/// Whether a result of reading a configuration is the expected one.
pub open spec fn gives_config(
    result: Result<Config, Error>,
    expected: Result<ConfigView, ErrorView>,
) -> bool {
    match result {
        Ok(config) => expected == Ok::<ConfigView, ErrorView>(config@),
        Err(error) => expected == Err::<ConfigView, ErrorView>(error@),
    }
}

impl Config {
    /// Reads a configuration in YAML notation.
    pub fn new(yaml: &str) -> (r: Result<Config, Error>)
        ensures
            gives_config(r, config_of_text(yaml@)),
    {
        match last_document(yaml) {
            Ok(Some(config)) => Config::from_document(&config),
            Ok(None) => Err(Error::invalid_data("Supplied configuration is empty.".to_owned())),
            Err(message) => Err(Error::invalid_data(message)),
        }
    }

    /// Reads a configuration from a document.
    pub fn from_document(config: &Node) -> (r: Result<Config, Error>)
        ensures
            gives_config(r, config_of(config.value())),
    {
        Ok(
            Config {
                user: parse_u16_value(config, "user")?,
                group: parse_u16_value(config, "group")?,
                cpu_pinning: parse_cpu_pinning(config)?,
                qemu_binary: parse_qemu_binary(config)?,
                clear_env: parse_bool_value(config, "clear_env")?,
                env: parse_env(config)?,
                priority: parse_priority(config)?,
                scheduler: parse_scheduler(config)?,
                command_line: parse_command_line(config)?,
                rlimit_memlock: parse_bool_value(config, "rlimit_memlock")?,
                debug: parse_bool_value(config, "debug")?,
            },
        )
    }

    /// The user that qemu runs as.
    pub fn get_user(&self) -> (r: Option<u16>)
        ensures
            r == self@.user,
    {
        self.user
    }

    /// The group that qemu runs as.
    pub fn get_group(&self) -> (r: Option<u16>)
        ensures
            r == self@.group,
    {
        self.group
    }

    /// Which vCPU is pinned to which host CPU.
    pub fn get_cpu_pinning(&self) -> (r: &Vec<Pin>)
        ensures
            r@ == self@.cpu_pinning,
    {
        &self.cpu_pinning
    }

    /// The arguments that qemu is started with.
    pub fn get_command_line_options(&self) -> (r: Vec<String>)
        ensures
            crate::text::texts(r@) == crate::command_line::rendered(self@.command_line),
    {
        render(&self.command_line)
    }

    /// The path of the qemu binary.
    pub fn get_qemu_binary_path(&self) -> (r: &String)
        ensures
            r@ == self@.qemu_binary,
    {
        &self.qemu_binary
    }

    /// Whether some vCPU is pinned.
    pub fn has_cpu_pinning(&self) -> (r: bool)
        ensures
            r == (self@.cpu_pinning.len() > 0),
    {
        self.cpu_pinning.len() > 0
    }

    /// Whether qemu gets none of the launcher's environment variables.
    pub fn should_clear_env(&self) -> (r: bool)
        ensures
            r == self@.clear_env,
    {
        self.clear_env
    }

    /// More environment variables for qemu.
    pub fn get_env_vars(&self) -> (r: &Variables)
        ensures
            r@ == self@.env,
    {
        &self.env
    }

    /// Whether there are more environment variables for qemu.
    pub fn has_env_vars(&self) -> (r: bool)
        ensures
            r == (self@.env != Map::<Seq<char>, Seq<char>>::empty()),
    {
        !self.env.is_empty()
    }

    /// Whether the vCPU threads get another scheduler and priority: both have to
    /// be given.
    pub fn has_scheduling(&self) -> (r: bool)
        ensures
            r == (self@.scheduler is Some && self@.priority is Some),
    {
        self.scheduler.is_some() && self.priority.is_some()
    }

    /// The priority of the vCPU threads.
    pub fn get_priority(&self) -> (r: Option<u8>)
        ensures
            r == self@.priority,
    {
        self.priority
    }

    /// The scheduler of the vCPU threads.
    pub fn get_scheduler(&self) -> (r: &Option<String>)
        ensures
            crate::launcher_options::optional_text(*r) == self@.scheduler,
    {
        &self.scheduler
    }

    /// Whether qemu may lock any amount of memory.
    pub fn rlimit_memlock(&self) -> (r: bool)
        ensures
            r == self@.rlimit_memlock,
    {
        self.rlimit_memlock
    }

    /// Whether the launcher prints what it does.
    pub fn debug(&self) -> (r: bool)
        ensures
            r == self@.debug,
    {
        self.debug
    }
}

/// Whether an option of the launcher is missing.
pub open spec fn is_missing(config: Value, key: Seq<char>) -> bool {
    crate::launcher_options::launcher_value(config, key) == Value::BadValue
}

/// Options that are missing take their defaults.
pub proof fn missing_options_take_defaults(config: Value)
    requires
        config_of(config) is Ok,
    ensures
        ({
            let found = config_of(config)->Ok_0;
            &&& is_missing(config, "user"@) ==> found.user is None
            &&& is_missing(config, "group"@) ==> found.group is None
            &&& is_missing(config, "vcpu_pinning"@) ==> found.cpu_pinning.len() == 0
            &&& is_missing(config, "clear_env"@) ==> !found.clear_env
            &&& is_missing(config, "env"@) ==> found.env == Map::<Seq<char>, Seq<char>>::empty()
            &&& is_missing(config, "priority"@) ==> found.priority is None
            &&& is_missing(config, "scheduler"@) ==> found.scheduler is None
            &&& is_missing(config, "rlimit_memlock"@) ==> !found.rlimit_memlock
            &&& is_missing(config, "debug"@) ==> !found.debug
        }),
{
}

/// The path of the qemu binary and the options for qemu are all that a
/// configuration needs; without the path there is none.
pub proof fn binary_and_qemu_options_are_enough(config: Value)
    requires
        is_missing(config, "user"@),
        is_missing(config, "group"@),
        is_missing(config, "vcpu_pinning"@),
        is_missing(config, "clear_env"@),
        is_missing(config, "env"@),
        is_missing(config, "priority"@),
        is_missing(config, "scheduler"@),
        is_missing(config, "rlimit_memlock"@),
        is_missing(config, "debug"@),
    ensures
        config_of(config) is Ok <==> crate::launcher_options::launcher_value(config, "binary"@)
            is Text && crate::command_line::command_line_value(config) is Ok,
{
}

/// A configuration names no scheduler but one of the known ones.
pub proof fn scheduler_is_known(config: Value)
    requires
        config_of(config) is Ok,
        config_of(config)->Ok_0.scheduler is Some,
    ensures
        crate::launcher_options::is_scheduler(config_of(config)->Ok_0.scheduler->0),
{
}

/// With every configuration, qemu is started with arguments that end with
/// `-qmp stdio`.
pub proof fn qemu_talks_over_stdio(config: Value)
    requires
        config_of(config) is Ok,
    ensures
        ({
            let words = crate::command_line::rendered(config_of(config)->Ok_0.command_line);
            &&& words.len() >= 2
            &&& words[words.len() - 2] == "-qmp"@
            &&& words[words.len() - 1] == "stdio"@
        }),
{
    crate::command_line::command_line_ends_with_qmp(config);
}

/// Whatever is wrong with a configuration is reported as invalid data.
pub proof fn configuration_errors_are_invalid_data(text: Seq<char>)
    requires
        config_of_text(text) is Err,
    ensures
        config_of_text(text)->Err_0.kind == ErrorKind::InvalidData,
{
    if let Ok(documents) = crate::yaml::yaml_documents(text) {
        let config = documents.last();
        if let Value::Hash(pairs) = crate::launcher_options::launcher_value(config, "env"@) {
            let results = Seq::new(
                pairs.len(),
                |i: int| crate::launcher_options::variable(pairs[i]),
            );
            crate::error::gather_keeps_kind(results, ErrorKind::InvalidData);
        }
        if let Value::Hash(sockets) = crate::launcher_options::launcher_value(
            config,
            "vcpu_pinning"@,
        ) {
            crate::vcpu_pinning::pinning_errors_are_invalid_data(sockets);
        }
        if let Value::Array(options) = crate::yaml::member(config, "qemu"@) {
            crate::command_line::option_errors_are_invalid_data(options);
        }
    }
}

/// Whether a hash holds a value under a key, with no other value for the key behind
/// it.
pub open spec fn holds(hash: Value, key: Seq<char>, at: int, value: Value) -> bool {
    hash matches Value::Hash(pairs) && 0 <= at < pairs.len() && pairs[at] == (
        Value::Text(key),
        value,
    ) && forall|i: int| at < i < pairs.len() ==> (#[trigger] pairs[i]).0 != Value::Text(key)
}

/// Whether something holds no value under a key.
pub open spec fn lacks(hash: Value, key: Seq<char>) -> bool {
    hash matches Value::Hash(pairs) ==> forall|i: int|
        0 <= i < pairs.len() ==> (#[trigger] pairs[i]).0 != Value::Text(key)
}

/// The options of the launcher are what the last `launcher` section holds, each of
/// them last under its key. Without the section, or without the key, an option is
/// missing. The options of qemu are what the document itself holds last under
/// `qemu`.
pub proof fn options_are_found_in_their_sections(
    config: Value,
    launcher: Value,
    at: int,
    key: Seq<char>,
    place: int,
    value: Value,
)
    ensures
        holds(config, "launcher"@, at, launcher) && holds(launcher, key, place, value)
            ==> crate::launcher_options::launcher_value(config, key) == value,
        holds(config, "launcher"@, at, launcher) && lacks(launcher, key) ==> is_missing(
            config,
            key,
        ),
        lacks(config, "launcher"@) ==> is_missing(config, key),
        holds(config, "qemu"@, at, value) ==> crate::yaml::member(config, "qemu"@) == value,
{
    if let Value::Hash(pairs) = config {
        if holds(config, "launcher"@, at, launcher) {
            crate::yaml::last_pair_is_the_member(pairs, "launcher"@, at);
        }
        if holds(config, "qemu"@, at, value) {
            crate::yaml::last_pair_is_the_member(pairs, "qemu"@, at);
        }
        if lacks(config, "launcher"@) {
            crate::yaml::last_pair_is_the_member(pairs, "launcher"@, -1);
        }
    }
    crate::yaml::last_pair_is_the_member(Seq::<(Value, Value)>::empty(), key, -1);
    if let Value::Hash(pairs) = launcher {
        if holds(launcher, key, place, value) {
            crate::yaml::last_pair_is_the_member(pairs, key, place);
        }
        if lacks(launcher, key) {
            crate::yaml::last_pair_is_the_member(pairs, key, -1);
        }
    }
}

/// Whether a value can be the number of a user or a group, or is missing.
pub open spec fn is_id(value: Value) -> bool {
    value == Value::BadValue || (value matches Value::Integer(n) && 0 <= n < 65536)
}

/// Whether a value is a truth value or missing.
pub open spec fn is_flag(value: Value) -> bool {
    value == Value::BadValue || value is Boolean
}

/// Whether a value is a priority or missing.
pub open spec fn is_priority(value: Value) -> bool {
    value == Value::BadValue || (value matches Value::Integer(n) && 0 <= n < 256)
}

/// Whether a value names a scheduler that `chrt` knows, or is missing.
pub open spec fn is_scheduler_name(value: Value) -> bool {
    value == Value::BadValue || (value matches Value::Text(name) && seq![
        "batch"@,
        "deadline"@,
        "fifo"@,
        "idle"@,
        "other"@,
        "rr"@,
    ].contains(name))
}

/// The value of an environment variable as a text.
pub open spec fn is_written(value: Value, text: Seq<char>) -> bool {
    match value {
        Value::Boolean(flag) => text == if flag { "true"@ } else { "false"@ },
        Value::Integer(n) => text == crate::text::signed_decimal(n as int),
        Value::Real(written) => text == written,
        Value::Text(written) => text == written,
        _ => false,
    }
}

/// Whether a value gives environment variables, or is missing.
pub open spec fn gives_variables(value: Value) -> bool {
    value == Value::BadValue || (value matches Value::Hash(pairs) && forall|i: int|
        0 <= i < pairs.len() ==> (#[trigger] pairs[i]).0 is Text && (pairs[i].1 is Boolean
            || pairs[i].1 is Integer || pairs[i].1 is Real || pairs[i].1 is Text))
}

/// The names of schedulers.
proof fn schedulers_by_name(name: Seq<char>)
    ensures
        crate::launcher_options::is_scheduler(name) <==> seq![
            "batch"@,
            "deadline"@,
            "fifo"@,
            "idle"@,
            "other"@,
            "rr"@,
        ].contains(name),
{
    let all = seq!["batch"@, "deadline"@, "fifo"@, "idle"@, "other"@, "rr"@];
    assert(all[0] == "batch"@ && all[1] == "deadline"@ && all[2] == "fifo"@ && all[3] == "idle"@
        && all[4] == "other"@ && all[5] == "rr"@);
}

/// Environment variables can be read exactly where they are given as such.
proof fn given_variables_are_read(config: Value)
    ensures
        crate::launcher_options::env_value(config) is Ok <==> gives_variables(
            crate::launcher_options::launcher_value(config, "env"@),
        ),
{
    if let Value::Hash(pairs) = crate::launcher_options::launcher_value(config, "env"@) {
        let results = Seq::new(pairs.len(), |i: int| crate::launcher_options::variable(pairs[i]));
        let value = Value::Hash(pairs);
        if gives_variables(value) {
            assert forall|i: int| 0 <= i < results.len() implies (#[trigger] results[i]) is Ok by {
                assert(pairs[i].0 is Text);
            }
            crate::error::gathering_gives_values_or_first_error(results, results.len() as int);
        } else if crate::error::gather(results) is Ok {
            crate::error::gathered_values(results);
            assert forall|i: int| 0 <= i < pairs.len() implies (#[trigger] pairs[i]).0 is Text && (
            pairs[i].1 is Boolean || pairs[i].1 is Integer || pairs[i].1 is Real
                || pairs[i].1 is Text) by {
                assert(results[i] is Ok);
            }
        }
    }
}

/// A configuration is accepted if each of its options is what it has to be, and only
/// then; and it says what the options say.
pub proof fn configuration_says_what_options_say(config: Value)
    ensures
        ({
            let option = |key: Seq<char>| crate::launcher_options::launcher_value(config, key);
            let found = config_of(config)->Ok_0;
            let id = |value: Value, id: Option<u16>|
                match value {
                    Value::Integer(n) => id is Some && id->0 == n,
                    _ => id is None,
                };
            let flag = |value: Value, flag: bool| flag <==> value == Value::Boolean(true);
            &&& config_of(config) is Ok <==> {
                &&& is_id(option("user"@))
                &&& is_id(option("group"@))
                &&& crate::vcpu_pinning::pinning_value(config) is Ok
                &&& option("binary"@) is Text
                &&& is_flag(option("clear_env"@))
                &&& gives_variables(option("env"@))
                &&& is_priority(option("priority"@))
                &&& is_scheduler_name(option("scheduler"@))
                &&& crate::command_line::command_line_value(config) is Ok
                &&& is_flag(option("rlimit_memlock"@))
                &&& is_flag(option("debug"@))
            }
            &&& config_of(config) is Ok ==> {
                &&& id(option("user"@), found.user)
                &&& id(option("group"@), found.group)
                &&& found.cpu_pinning == crate::vcpu_pinning::pinning_value(config)->Ok_0
                &&& option("binary"@) == Value::Text(found.qemu_binary)
                &&& flag(option("clear_env"@), found.clear_env)
                &&& match option("priority"@) {
                    Value::Integer(n) => found.priority is Some && found.priority->0 == n,
                    _ => found.priority is None,
                }
                &&& match option("scheduler"@) {
                    Value::Text(name) => found.scheduler == Some(name),
                    _ => found.scheduler is None,
                }
                &&& found.command_line == crate::command_line::command_line_value(config)->Ok_0
                &&& flag(option("rlimit_memlock"@), found.rlimit_memlock)
                &&& flag(option("debug"@), found.debug)
            }
        }),
{
    given_variables_are_read(config);
    if let Value::Text(name) = crate::launcher_options::launcher_value(config, "scheduler"@) {
        schedulers_by_name(name);
    }
}

/// The environment variables of a configuration are those that are given, each with
/// the text of the last value under its name. Without any given there are none.
pub proof fn configuration_has_given_variables(config: Value, at: int)
    requires
        config_of(config) is Ok,
    ensures
        ({
            let given = crate::launcher_options::launcher_value(config, "env"@);
            let env = config_of(config)->Ok_0.env;
            match given {
                Value::Hash(pairs) => {
                    &&& forall|name: Seq<char>| #[trigger]
                        env.dom().contains(name) <==> exists|i: int|
                            0 <= i < pairs.len() && (#[trigger] pairs[i]).0 == Value::Text(name)
                    &&& 0 <= at < pairs.len() && (forall|i: int|
                        at < i < pairs.len() ==> (#[trigger] pairs[i]).0 != pairs[at].0)
                        ==> is_written(pairs[at].1, env[pairs[at].0->Text_0])
                },
                _ => env == Map::<Seq<char>, Seq<char>>::empty(),
            }
        }),
{
    given_variables_are_read(config);
    if let Value::Hash(pairs) = crate::launcher_options::launcher_value(config, "env"@) {
        let results = Seq::new(pairs.len(), |i: int| crate::launcher_options::variable(pairs[i]));
        let found = crate::error::gather(results)->Ok_0;
        let env = config_of(config)->Ok_0.env;
        crate::error::gathered_values(results);
        crate::pairs::keys_are_known(found);
        assert forall|i: int| 0 <= i < pairs.len() implies (#[trigger] pairs[i]).0 == Value::Text(
            found[i].0,
        ) && is_written(pairs[i].1, found[i].1) by {
            assert(results[i] == Ok::<(Seq<char>, Seq<char>), ErrorView>(found[i]));
        }
        assert forall|name: Seq<char>| #[trigger] env.dom().contains(name) <==> exists|i: int|
            0 <= i < pairs.len() && (#[trigger] pairs[i]).0 == Value::Text(name) by {
            if env.dom().contains(name) {
                let i = choose|i: int| 0 <= i < found.len() && (#[trigger] found[i]).0 == name;
                assert(pairs[i].0 == Value::Text(name));
            }
            if exists|i: int| 0 <= i < pairs.len() && (#[trigger] pairs[i]).0 == Value::Text(name) {
                let i = choose|i: int|
                    0 <= i < pairs.len() && (#[trigger] pairs[i]).0 == Value::Text(name);
                assert(found[i].0 == name);
                assert(crate::pairs::by_key(found).dom().contains(name));
            }
        }
        if 0 <= at < pairs.len() && (forall|i: int|
            at < i < pairs.len() ==> (#[trigger] pairs[i]).0 != pairs[at].0) {
            assert forall|i: int| at < i < found.len() implies (#[trigger] found[i]).0
                != found[at].0 by {
                assert(pairs[i].0 != pairs[at].0);
                assert(pairs[at].0 == Value::Text(found[at].0));
            }
            crate::pairs::last_value_counts(found, at);
            assert(pairs[at].0 == Value::Text(found[at].0));
        }
    }
}

/// The pinnings of a configuration are those below its `vcpu_pinning` option, and
/// none if the option is missing. Anything but a hash there is refused.
pub proof fn pinnings_are_below_their_option(config: Value)
    ensures
        ({
            let found = crate::vcpu_pinning::pinning_value(config);
            match crate::launcher_options::launcher_value(config, "vcpu_pinning"@) {
                Value::Hash(sockets) => found == crate::vcpu_pinning::sockets_pins(sockets),
                Value::BadValue => found is Ok && found->Ok_0.len() == 0,
                _ => found == Err::<Seq<Pin>, ErrorView>(
                    ErrorView {
                        kind: ErrorKind::InvalidData,
                        message: "Failed to parse `launcher.vcpu_pinning` configuration: a hash is expected."@,
                    },
                ),
            }
        }),
{
}

/// The last document of a text is the configuration. A text without one is refused,
/// and so is one whose notation is broken, with the message that says where.
pub proof fn last_document_is_the_configuration(text: Seq<char>)
    ensures
        match crate::yaml::yaml_documents(text) {
            Ok(documents) => if documents.len() == 0 {
                config_of_text(text) == Err::<ConfigView, ErrorView>(
                    ErrorView {
                        kind: ErrorKind::InvalidData,
                        message: "Supplied configuration is empty."@,
                    },
                )
            } else {
                config_of_text(text) == config_of(documents[documents.len() - 1])
            },
            Err(message) => config_of_text(text) == Err::<ConfigView, ErrorView>(
                ErrorView { kind: ErrorKind::InvalidData, message },
            ),
        },
{
}

/// What a configuration is asked for, it answers as it says: the words for qemu are
/// those of its options, something is pinned if there is a pinning, there are
/// variables if there is one, and the vCPU threads get another scheduler and
/// priority only if both are given.
pub proof fn configuration_answers_as_it_says(
    config: &Config,
    words: Vec<String>,
    pinning: bool,
    variables: bool,
    scheduling: bool,
)
    requires
        call_ensures(Config::get_command_line_options, (config,), words),
        call_ensures(Config::has_cpu_pinning, (config,), pinning),
        call_ensures(Config::has_env_vars, (config,), variables),
        call_ensures(Config::has_scheduling, (config,), scheduling),
    ensures
        crate::text::texts(words@) == crate::command_line::rendered(config@.command_line),
        pinning <==> config@.cpu_pinning.len() > 0,
        variables <==> exists|name: Seq<char>| #[trigger] config@.env.dom().contains(name),
        scheduling <==> config@.scheduler is Some && config@.priority is Some,
{
    let none = Map::<Seq<char>, Seq<char>>::empty();
    if forall|name: Seq<char>| !#[trigger] config@.env.dom().contains(name) {
        assert(config@.env =~= none);
    }
    if config@.env == none {
        assert(forall|name: Seq<char>| !#[trigger] config@.env.dom().contains(name));
    }
}

/// What is complained of where an option is not what it has to be. The options are
/// looked at in this order, and the first complaint is reported.
pub open spec fn complaints(config: Value) -> Seq<Option<Seq<char>>> {
    let option = |key: Seq<char>| crate::launcher_options::launcher_value(config, key);
    let id = |key: Seq<char>|
        if is_id(option(key)) {
            None
        } else if option(key) is Integer {
            Some(
                "Invalid value for `launcher."@ + key
                    + "` option: given value is out of bounds, expected an unsigned 16-bit integer."@,
            )
        } else {
            Some(
                "Invalid value for `launcher."@ + key
                    + "` option: unsigned 16-bit integer expected."@,
            )
        };
    let flag = |key: Seq<char>|
        if is_flag(option(key)) {
            None
        } else {
            Some("Invalid value for `launcher."@ + key + "` value: a boolean is expected."@)
        };
    let pinning = crate::vcpu_pinning::pinning_value(config);
    let env = crate::launcher_options::env_value(config);
    let qemu = crate::command_line::command_line_value(config);
    seq![
        id("user"@),
        id("group"@),
        if pinning is Ok {
            None
        } else {
            Some(pinning->Err_0.message)
        },
        if option("binary"@) is Text {
            None
        } else {
            Some(
                "qemu binary path is not specified, missing or the `launcher.binary` key has an invalid type."@,
            )
        },
        flag("clear_env"@),
        if env is Ok {
            None
        } else {
            Some(env->Err_0.message)
        },
        if is_priority(option("priority"@)) {
            None
        } else if option("priority"@) is Integer {
            Some("Wrong value for `launcher.priority`: value out of bounds."@)
        } else {
            Some("Failed to parse `launcher.priority`: an integer expected."@)
        },
        if is_scheduler_name(option("scheduler"@)) {
            None
        } else if option("scheduler"@) is Text {
            Some(
                "Failed to parse `launcher.scheduler`: Expected one of `batch`, `deadline`, `fifo`, `idle`, `other` or `rr`."@,
            )
        } else {
            Some("Failed to parse `launcher.scheduler`: string expected."@)
        },
        if qemu is Ok {
            None
        } else {
            Some(qemu->Err_0.message)
        },
        flag("rlimit_memlock"@),
        flag("debug"@),
    ]
}

/// The first complaint about a configuration is the one that is reported.
pub proof fn first_complaint_is_reported(config: Value, at: int)
    requires
        0 <= at < complaints(config).len(),
        complaints(config)[at] is Some,
        forall|i: int| 0 <= i < at ==> (#[trigger] complaints(config)[i]) is None,
    ensures
        config_of(config) is Err,
        config_of(config)->Err_0.message == complaints(config)[at]->0,
{
    let all = complaints(config);
    assert(at > 0 ==> all[0] is None);
    assert(at > 1 ==> all[1] is None);
    assert(at > 2 ==> all[2] is None);
    assert(at > 3 ==> all[3] is None);
    assert(at > 4 ==> all[4] is None);
    assert(at > 5 ==> all[5] is None);
    assert(at > 6 ==> all[6] is None);
    assert(at > 7 ==> all[7] is None);
    assert(at > 8 ==> all[8] is None);
    assert(at > 9 ==> all[9] is None);
    if let Value::Text(name) = crate::launcher_options::launcher_value(config, "scheduler"@) {
        schedulers_by_name(name);
    }
}

/// What is complained of where environment variables, or the options of qemu, are
/// not given as such.
pub proof fn broken_sections_are_complained_of(config: Value, at: int)
    ensures
        ({
            let env = crate::launcher_options::env_value(config);
            let qemu = crate::command_line::command_line_value(config);
            &&& match crate::launcher_options::launcher_value(config, "env"@) {
                Value::Hash(pairs) => 0 <= at < pairs.len() && gives_variables(
                    Value::Hash(pairs.take(at)),
                ) ==> {
                    &&& !(pairs[at].0 is Text) ==> env is Err && env->Err_0.message
                        == "Environment variable name must be a string."@
                    &&& pairs[at].0 is Text && !(pairs[at].1 is Boolean) && !(
                    pairs[at].1 is Integer) && !(pairs[at].1 is Real) && !(pairs[at].1 is Text)
                        ==> env is Err && env->Err_0.message == "Invalid value for the `"@
                        + pairs[at].0->Text_0 + "` environment variable."@
                },
                Value::BadValue => true,
                _ => env is Err && env->Err_0.message
                    == "Invalid value for the `launcher.env` key: a hash expected."@,
            }
            &&& match crate::yaml::member(config, "qemu"@) {
                Value::Array(options) => qemu == crate::command_line::options_value(options),
                _ => qemu is Err && qemu->Err_0.message
                    == "Failed to parse qemu command line options: missing or invalid value, array expected."@,
            }
        }),
{
    if let Value::Hash(pairs) = crate::launcher_options::launcher_value(config, "env"@) {
        if 0 <= at < pairs.len() && gives_variables(Value::Hash(pairs.take(at))) {
            let results = Seq::new(
                pairs.len(),
                |i: int| crate::launcher_options::variable(pairs[i]),
            );
            assert forall|i: int| 0 <= i < at implies (#[trigger] results[i]) is Ok by {
                assert(pairs.take(at)[i] == pairs[i]);
            }
            crate::error::gathering_gives_values_or_first_error(results, at);
        }
    }
}

} // verus!
