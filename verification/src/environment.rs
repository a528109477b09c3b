//! The environment variables that set up the launcher.
use crate::error::{Error, ErrorView};
use crate::text::{contains_character, same_text};
use vstd::prelude::*;

verus! {

/// Where the launcher finds its files.
pub struct EnvironmentView {
    /// The directory of the configuration files.
    pub config_directory: Seq<char>,
    /// Where the cpuset file system is mounted.
    pub cpuset_mount_path: Seq<char>,
    /// The directory below the mount point that holds the CPU sets.
    pub cpuset_prefix: Seq<char>,
}

/// The value of a variable. The last one counts if it is set several times, and
/// the default if it is not set.
pub open spec fn value_of(
    vars: Seq<(Seq<char>, Seq<char>)>,
    name: Seq<char>,
    default: Seq<char>,
) -> Seq<char>
    decreases vars.len(),
{
    if vars.len() == 0 {
        default
    } else if vars.last().0 == name {
        vars.last().1
    } else {
        value_of(vars.drop_last(), name, default)
    }
}

/// Whether a prefix names a directory rather than a path.
pub open spec fn is_prefix_name(prefix: Seq<char>) -> bool {
    !prefix.contains('\0') && !prefix.contains('/')
}

/// Where the launcher finds its files, as some variables say.
pub open spec fn environment_of(vars: Seq<(Seq<char>, Seq<char>)>) -> Result<
    EnvironmentView,
    ErrorView,
> {
    let cpuset_prefix = value_of(vars, "QEMU_LAUNCHER_CPUSET_PREFIX"@, "qemu"@);
    if is_prefix_name(cpuset_prefix) {
        Ok(
            EnvironmentView {
                config_directory: value_of(
                    vars,
                    "QEMU_LAUNCHER_CONFIG_DIR"@,
                    "/usr/local/etc/qemu-launcher"@,
                ),
                cpuset_mount_path: value_of(
                    vars,
                    "QEMU_LAUNCHER_CPUSET_MOUNT_PATH"@,
                    "/sys/fs/cgroup/cpuset"@,
                ),
                cpuset_prefix,
            },
        )
    } else {
        Err(
            crate::error::input_error(
                "`QEMU_LAUNCHER_CPUSET_PREFIX` environment variable has invalid characters"@,
            ),
        )
    }
}

/// Where the launcher finds its files.
#[derive(Debug)]
pub struct Environment {
    config_directory: String,
    cpuset_mount_path: String,
    cpuset_prefix: String,
}

impl View for Environment {
    type V = EnvironmentView;

    closed spec fn view(&self) -> EnvironmentView {
        EnvironmentView {
            config_directory: self.config_directory@,
            cpuset_mount_path: self.cpuset_mount_path@,
            cpuset_prefix: self.cpuset_prefix@,
        }
    }
}

/// Looks at the prefix.
fn validate_cpuset_prefix(prefix: &str) -> (r: Result<(), Error>)
    ensures
        r is Ok <==> is_prefix_name(prefix@),
        r is Err ==> r->Err_0@ == crate::error::input_error(
            "`QEMU_LAUNCHER_CPUSET_PREFIX` environment variable has invalid characters"@,
        ),
{
    if contains_character(prefix, '\0') || contains_character(prefix, '/') {
        return Err(
            Error::invalid_input(
                "`QEMU_LAUNCHER_CPUSET_PREFIX` environment variable has invalid characters".to_owned(),
            ),
        );
    }
    Ok(())
}

/// The value of a variable, or the default.
fn find_value(vars: &Vec<(String, String)>, name: &str, default: &str) -> (r: String)
    ensures
        r@ == value_of(crate::variables::pair_texts(vars@), name@, default@),
{
    let ghost all = crate::variables::pair_texts(vars@);
    let mut n: usize = vars.len();
    assert(all.take(n as int) =~= all);
    while n > 0
        invariant
            n <= vars@.len(),
            all == crate::variables::pair_texts(vars@),
            value_of(all, name@, default@) == value_of(all.take(n as int), name@, default@),
        decreases n,
    {
        assert(all.take(n as int).drop_last() =~= all.take(n - 1));
        n = n - 1;
        assert(all.take(n + 1).last() == all[n as int]);
        if same_text(vars[n].0.as_str(), name) {
            return vars[n].1.clone();
        }
    }
    default.to_owned()
}

impl Environment {
    /// Reads the environment variables.
    pub fn new(vars: Vec<(String, String)>) -> (r: Result<Environment, Error>)
        ensures
            match r {
                Ok(environment) => environment_of(crate::variables::pair_texts(vars@)) == Ok::<
                    EnvironmentView,
                    ErrorView,
                >(environment@),
                Err(error) => environment_of(crate::variables::pair_texts(vars@)) == Err::<
                    EnvironmentView,
                    ErrorView,
                >(error@),
            },
    {
        let config_directory = find_value(
            &vars,
            "QEMU_LAUNCHER_CONFIG_DIR",
            "/usr/local/etc/qemu-launcher",
        );
        let cpuset_mount_path = find_value(
            &vars,
            "QEMU_LAUNCHER_CPUSET_MOUNT_PATH",
            "/sys/fs/cgroup/cpuset",
        );
        let cpuset_prefix = find_value(&vars, "QEMU_LAUNCHER_CPUSET_PREFIX", "qemu");
        match validate_cpuset_prefix(cpuset_prefix.as_str()) {
            Ok(_) => Ok(Environment { config_directory, cpuset_mount_path, cpuset_prefix }),
            Err(error) => Err(error),
        }
    }

    /// The directory of the configuration files.
    pub fn get_config_directory(&self) -> (r: &String)
        ensures
            r@ == self@.config_directory,
    {
        &self.config_directory
    }

    /// Where the cpuset file system is mounted.
    pub fn get_cpuset_mount_path(&self) -> (r: &String)
        ensures
            r@ == self@.cpuset_mount_path,
    {
        &self.cpuset_mount_path
    }

    /// The directory below the mount point that holds the CPU sets.
    pub fn get_cpuset_prefix(&self) -> (r: &String)
        ensures
            r@ == self@.cpuset_prefix,
    {
        &self.cpuset_prefix
    }
}

/// Whether a variable is set.
pub open spec fn is_set(vars: Seq<(Seq<char>, Seq<char>)>, name: Seq<char>) -> bool {
    exists|i: int| 0 <= i < vars.len() && (#[trigger] vars[i]).0 == name
}

/// A variable that is not set has the default.
pub proof fn unset_variable_has_default(
    vars: Seq<(Seq<char>, Seq<char>)>,
    name: Seq<char>,
    default: Seq<char>,
)
    requires
        !is_set(vars, name),
    ensures
        value_of(vars, name, default) == default,
    decreases vars.len(),
{
    if vars.len() > 0 {
        let front = vars.drop_last();
        assert(vars[vars.len() - 1].0 != name);
        assert forall|i: int| 0 <= i < front.len() implies (#[trigger] front[i]).0 != name by {
            assert(vars[i].0 != name);
        }
        unset_variable_has_default(front, name, default);
    }
}

/// The last setting of a variable counts.
pub proof fn last_setting_counts(
    vars: Seq<(Seq<char>, Seq<char>)>,
    at: int,
    default: Seq<char>,
)
    requires
        0 <= at < vars.len(),
        forall|i: int| at < i < vars.len() ==> (#[trigger] vars[i]).0 != vars[at].0,
    ensures
        value_of(vars, vars[at].0, default) == vars[at].1,
    decreases vars.len(),
{
    if at < vars.len() - 1 {
        let front = vars.drop_last();
        assert(vars[vars.len() - 1].0 != vars[at].0);
        assert forall|i: int| at < i < front.len() implies (#[trigger] front[i]).0 != front[at].0 by {
            assert(vars[i].0 != vars[at].0);
        }
        last_setting_counts(front, at, default);
    }
}

/// Without any of its variables, the launcher has its usual directories.
pub proof fn usual_environment(vars: Seq<(Seq<char>, Seq<char>)>)
    requires
        !is_set(vars, "QEMU_LAUNCHER_CONFIG_DIR"@),
        !is_set(vars, "QEMU_LAUNCHER_CPUSET_MOUNT_PATH"@),
        !is_set(vars, "QEMU_LAUNCHER_CPUSET_PREFIX"@),
    ensures
        environment_of(vars) == Ok::<EnvironmentView, ErrorView>(
            EnvironmentView {
                config_directory: "/usr/local/etc/qemu-launcher"@,
                cpuset_mount_path: "/sys/fs/cgroup/cpuset"@,
                cpuset_prefix: "qemu"@,
            },
        ),
{
    unset_variable_has_default(
        vars,
        "QEMU_LAUNCHER_CONFIG_DIR"@,
        "/usr/local/etc/qemu-launcher"@,
    );
    unset_variable_has_default(
        vars,
        "QEMU_LAUNCHER_CPUSET_MOUNT_PATH"@,
        "/sys/fs/cgroup/cpuset"@,
    );
    unset_variable_has_default(vars, "QEMU_LAUNCHER_CPUSET_PREFIX"@, "qemu"@);
    reveal_strlit("qemu");
}

/// The launcher finds its files where the last settings of its three variables say,
/// each of which stands for one place. A prefix that holds a slash or a null
/// character is refused, and nothing else is.
pub proof fn variables_name_their_places(
    vars: Seq<(Seq<char>, Seq<char>)>,
    directory: Seq<char>,
    mount_path: Seq<char>,
    prefix: Seq<char>,
)
    requires
        is_last_setting(vars, "QEMU_LAUNCHER_CONFIG_DIR"@, "/usr/local/etc/qemu-launcher"@, directory),
        is_last_setting(
            vars,
            "QEMU_LAUNCHER_CPUSET_MOUNT_PATH"@,
            "/sys/fs/cgroup/cpuset"@,
            mount_path,
        ),
        is_last_setting(vars, "QEMU_LAUNCHER_CPUSET_PREFIX"@, "qemu"@, prefix),
    ensures
        environment_of(vars) == if prefix.contains('/') || prefix.contains('\0') {
            Err::<EnvironmentView, ErrorView>(
                ErrorView {
                    kind: crate::error::ErrorKind::InvalidInput,
                    message: "`QEMU_LAUNCHER_CPUSET_PREFIX` environment variable has invalid characters"@,
                },
            )
        } else {
            Ok::<EnvironmentView, ErrorView>(
                EnvironmentView {
                    config_directory: directory,
                    cpuset_mount_path: mount_path,
                    cpuset_prefix: prefix,
                },
            )
        },
{
    setting_is_the_value(
        vars,
        "QEMU_LAUNCHER_CONFIG_DIR"@,
        "/usr/local/etc/qemu-launcher"@,
        directory,
    );
    setting_is_the_value(
        vars,
        "QEMU_LAUNCHER_CPUSET_MOUNT_PATH"@,
        "/sys/fs/cgroup/cpuset"@,
        mount_path,
    );
    setting_is_the_value(vars, "QEMU_LAUNCHER_CPUSET_PREFIX"@, "qemu"@, prefix);
}

/// Whether a value is that of the last setting of a variable, or the default if the
/// variable is not set.
pub open spec fn is_last_setting(
    vars: Seq<(Seq<char>, Seq<char>)>,
    name: Seq<char>,
    default: Seq<char>,
    value: Seq<char>,
) -> bool {
    ||| value == default && forall|i: int| 0 <= i < vars.len() ==> (#[trigger] vars[i]).0 != name
    ||| exists|at: int|
        0 <= at < vars.len() && #[trigger] vars[at] == (name, value) && forall|i: int|
            at < i < vars.len() ==> (#[trigger] vars[i]).0 != name
}

/// The last setting of a variable is its value.
proof fn setting_is_the_value(
    vars: Seq<(Seq<char>, Seq<char>)>,
    name: Seq<char>,
    default: Seq<char>,
    value: Seq<char>,
)
    requires
        is_last_setting(vars, name, default, value),
    ensures
        value_of(vars, name, default) == value,
{
    if is_set(vars, name) {
        let at = choose|at: int|
            0 <= at < vars.len() && #[trigger] vars[at] == (name, value) && forall|i: int|
                at < i < vars.len() ==> (#[trigger] vars[i]).0 != name;
        last_setting_counts(vars, at, default);
    } else {
        if exists|at: int|
            0 <= at < vars.len() && #[trigger] vars[at] == (name, value) && forall|i: int|
                at < i < vars.len() ==> (#[trigger] vars[i]).0 != name {
            let at = choose|at: int|
                0 <= at < vars.len() && #[trigger] vars[at] == (name, value) && forall|i: int|
                    at < i < vars.len() ==> (#[trigger] vars[i]).0 != name;
            assert(vars[at].0 == name);
        }
        unset_variable_has_default(vars, name, default);
    }
}

} // verus!
