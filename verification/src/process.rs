//! Child processes: how they are started, and what their end means.
use crate::error::{Error, ErrorView};
use crate::text::signed_decimal_text;
use crate::variables::Variables;
use vstd::prelude::*;

verus! {

/// Something that is set up before a process is started.
#[derive(Debug)]
pub enum Setting {
    /// The arguments.
    Args(Vec<String>),
    /// The standard input is a pipe.
    PipeStdin,
    /// The standard output is a pipe.
    PipeStdout,
    /// No environment variables are handed down.
    EnvClear,
    /// The user.
    Uid(u32),
    /// The group.
    Gid(u32),
    /// More environment variables.
    Envs(Vec<(String, String)>),
}

/// What a setting says.
pub enum SettingView {
    Args(Seq<Seq<char>>),
    PipeStdin,
    PipeStdout,
    EnvClear,
    Uid(u32),
    Gid(u32),
    Envs(Map<Seq<char>, Seq<char>>),
}

impl View for Setting {
    type V = SettingView;

    open spec fn view(&self) -> SettingView {
        match self {
            Setting::Args(args) => SettingView::Args(crate::text::texts(args@)),
            Setting::PipeStdin => SettingView::PipeStdin,
            Setting::PipeStdout => SettingView::PipeStdout,
            Setting::EnvClear => SettingView::EnvClear,
            Setting::Uid(id) => SettingView::Uid(*id),
            Setting::Gid(id) => SettingView::Gid(*id),
            Setting::Envs(pairs) => SettingView::Envs(
                crate::pairs::by_key(crate::variables::pair_texts(pairs@)),
            ),
        }
    }
}

/// What a row of settings says.
pub open spec fn settings_view(settings: Seq<Setting>) -> Seq<SettingView> {
    Seq::new(settings.len(), |i: int| settings[i]@)
}

/// A process that is to be started.
pub struct ProcessView {
    pub command: Seq<char>,
    pub arguments: Seq<Seq<char>>,
    pub env_clear: bool,
    pub uid: Option<u32>,
    pub gid: Option<u32>,
    pub envs: Map<Seq<char>, Seq<char>>,
}

/// One setting, or none.
pub open spec fn optional(wanted: bool, setting: SettingView) -> Seq<SettingView> {
    if wanted {
        seq![setting]
    } else {
        Seq::<SettingView>::empty()
    }
}

impl ProcessView {
    /// What is set up before the process is started, in this order. Environment
    /// variables are added to those that are handed down, if there are any.
    pub open spec fn settings(self) -> Seq<SettingView> {
        seq![SettingView::Args(self.arguments), SettingView::PipeStdin, SettingView::PipeStdout]
            + optional(self.env_clear, SettingView::EnvClear) + optional(
            self.uid is Some,
            SettingView::Uid(self.uid->0),
        ) + optional(self.gid is Some, SettingView::Gid(self.gid->0)) + optional(
            self.envs != Map::<Seq<char>, Seq<char>>::empty(),
            SettingView::Envs(self.envs),
        )
    }
}

/// A process that is to be started.
#[derive(Debug)]
pub struct Process {
    command: String,
    arguments: Vec<String>,
    env_clear: bool,
    uid: Option<u32>,
    gid: Option<u32>,
    envs: Variables,
}

impl View for Process {
    type V = ProcessView;

    closed spec fn view(&self) -> ProcessView {
        ProcessView {
            command: self.command@,
            arguments: crate::text::texts(self.arguments@),
            env_clear: self.env_clear,
            uid: self.uid,
            gid: self.gid,
            envs: self.envs@,
        }
    }
}

/// A copy of pairs of texts.
fn copy_pairs(pairs: &Vec<(String, String)>) -> (r: Vec<(String, String)>)
    ensures
        crate::variables::pair_texts(r@) == crate::variables::pair_texts(pairs@),
{
    let mut copy: Vec<(String, String)> = Vec::new();
    let mut i: usize = 0;
    while i < pairs.len()
        invariant
            i <= pairs@.len(),
            copy@.len() == i,
            forall|j: int|
                0 <= j < i ==> (#[trigger] copy@[j]).0@ == pairs@[j].0@ && copy@[j].1@
                    == pairs@[j].1@,
        decreases pairs@.len() - i,
    {
        copy.push((pairs[i].0.clone(), pairs[i].1.clone()));
        i = i + 1;
    }
    assert(crate::variables::pair_texts(copy@) =~= crate::variables::pair_texts(pairs@));
    copy
}

/// Adds a setting to a row.
fn add_setting(settings: &mut Vec<Setting>, setting: Setting)
    ensures
        settings_view(final(settings)@) == settings_view(old(settings)@) + seq![setting@],
{
    settings.push(setting);
    assert(settings_view(settings@) =~= settings_view(old(settings)@) + seq![setting@]);
}

impl Process {
    /// A process that runs a command, without any settings.
    pub fn new(command: &str) -> (r: Process)
        ensures
            r@ == (ProcessView {
                command: command@,
                arguments: Seq::<Seq<char>>::empty(),
                env_clear: false,
                uid: None,
                gid: None,
                envs: Map::<Seq<char>, Seq<char>>::empty(),
            }),
    {
        let arguments: Vec<String> = Vec::new();
        assert(crate::text::texts(arguments@) =~= Seq::<Seq<char>>::empty());
        Process {
            command: command.to_owned(),
            arguments,
            env_clear: false,
            uid: None,
            gid: None,
            envs: Variables::new(),
        }
    }

    /// Sets the arguments.
    pub fn set_args(self, args: Vec<String>) -> (r: Process)
        ensures
            r@ == (ProcessView { arguments: crate::text::texts(args@), ..self@ }),
    {
        Process { arguments: args, ..self }
    }

    /// Sets whether the environment variables are not handed down.
    pub fn should_clear_env(self, should_clear: bool) -> (r: Process)
        ensures
            r@ == (ProcessView { env_clear: should_clear, ..self@ }),
    {
        Process { env_clear: should_clear, ..self }
    }

    /// Sets the user, if one is given.
    pub fn set_effective_user_id(self, uid: &Option<u16>) -> (r: Process)
        ensures
            r@ == match *uid {
                Some(uid) => (ProcessView { uid: Some(uid as u32), ..self@ }),
                None => self@,
            },
    {
        match uid {
            Some(uid) => Process { uid: Some(*uid as u32), ..self },
            None => self,
        }
    }

    /// Sets the group, if one is given.
    pub fn set_effective_group_id(self, gid: &Option<u16>) -> (r: Process)
        ensures
            r@ == match *gid {
                Some(gid) => (ProcessView { gid: Some(gid as u32), ..self@ }),
                None => self@,
            },
    {
        match gid {
            Some(gid) => Process { gid: Some(*gid as u32), ..self },
            None => self,
        }
    }

    /// Sets the additional environment variables. The last value of a name
    /// counts.
    pub fn set_environment_variables(self, vars: &Vec<(String, String)>) -> (r: Process)
        ensures
            r@ == (ProcessView {
                envs: crate::pairs::by_key(crate::variables::pair_texts(vars@)),
                ..self@
            }),
    {
        let ghost all = crate::variables::pair_texts(vars@);
        let mut envs = Variables::new();
        let mut i: usize = 0;
        assert(all.take(0) =~= Seq::empty());
        while i < vars.len()
            invariant
                i <= vars@.len(),
                all == crate::variables::pair_texts(vars@),
                envs@ == crate::pairs::by_key(all.take(i as int)),
            decreases vars@.len() - i,
        {
            assert(all.take(i + 1).drop_last() =~= all.take(i as int));
            envs.insert(vars[i].0.clone(), vars[i].1.clone());
            i = i + 1;
        }
        assert(all.take(i as int) =~= all);
        Process { envs, ..self }
    }

    /// The command, and what is set up before it is started.
    pub fn spawn(self) -> (r: (String, Vec<Setting>))
        ensures
            r.0@ == self@.command,
            settings_view(r.1@) == self@.settings(),
    {
        let mut settings: Vec<Setting> = Vec::new();
        assert(settings_view(settings@) =~= Seq::<SettingView>::empty());
        add_setting(&mut settings, Setting::Args(self.arguments));
        add_setting(&mut settings, Setting::PipeStdin);
        add_setting(&mut settings, Setting::PipeStdout);
        assert(settings_view(settings@) =~= seq![
            SettingView::Args(self@.arguments),
            SettingView::PipeStdin,
            SettingView::PipeStdout,
        ]);
        if self.env_clear {
            add_setting(&mut settings, Setting::EnvClear);
        }
        if let Some(uid) = self.uid {
            add_setting(&mut settings, Setting::Uid(uid));
        }
        if let Some(gid) = self.gid {
            add_setting(&mut settings, Setting::Gid(gid));
        }
        if !self.envs.is_empty() {
            add_setting(&mut settings, Setting::Envs(copy_pairs(self.envs.pairs())));
        }
        assert(settings_view(settings@) =~= self@.settings());
        (self.command, settings)
    }

    /// The error for a process that could not be started, of the same kind as that
    /// of the attempt.
    pub fn spawn_error(error: &Error) -> (r: Error)
        ensures
            r@ == (ErrorView {
                kind: error@.kind,
                message: "Failed to spawn child process: "@ + error@.message,
            }),
    {
        Error::new(
            error.kind(),
            "Failed to spawn child process: ".to_owned().concat(error.message()),
        )
    }

    /// What became of a command that was run to its end.
    pub fn oneshot(command: &str, run: CommandRun) -> (r: Result<(), Error>)
        ensures
            crate::error::outcome(r) == command_result(command@, run@),
    {
        match run {
            CommandRun::Failed(error) => Err(
                Error::other(
                    "Unable to execute the `".to_owned().concat(command).concat(
                        "` command: ",
                    ).concat(error.message()),
                ),
            ),
            CommandRun::Ended(success, stdout, stderr) => {
                if success {
                    Ok(())
                } else {
                    Err(
                        Error::other(
                            "The `".to_owned().concat(command).concat(
                                "` command failed with:\nstdout:\n",
                            ).concat(stdout.as_str()).concat("\n\nstderr:\n").concat(
                                stderr.as_str(),
                            ).concat("\n"),
                        ),
                    )
                }
            },
        }
    }
}

/// How running a command went.
#[derive(Debug)]
pub enum CommandRun {
    /// It could not be run.
    Failed(Error),
    /// It ended: whether with success, and what it wrote to its standard output
    /// and its standard error.
    Ended(bool, String, String),
}

/// What a run says.
pub enum CommandRunView {
    Failed(ErrorView),
    Ended(bool, Seq<char>, Seq<char>),
}

impl View for CommandRun {
    type V = CommandRunView;

    open spec fn view(&self) -> CommandRunView {
        match self {
            CommandRun::Failed(error) => CommandRunView::Failed(error@),
            CommandRun::Ended(success, stdout, stderr) => CommandRunView::Ended(
                *success,
                stdout@,
                stderr@,
            ),
        }
    }
}

/// What a run of a command means.
pub open spec fn command_result(command: Seq<char>, run: CommandRunView) -> Result<(), ErrorView> {
    match run {
        CommandRunView::Failed(error) => Err(
            crate::error::other_error(
                "Unable to execute the `"@ + command + "` command: "@ + error.message,
            ),
        ),
        CommandRunView::Ended(success, stdout, stderr) => if success {
            Ok(())
        } else {
            Err(
                crate::error::other_error(
                    "The `"@ + command + "` command failed with:\nstdout:\n"@ + stdout
                        + "\n\nstderr:\n"@ + stderr + "\n"@,
                ),
            )
        },
    }
}

/// How waiting for a child process went.
#[derive(Debug)]
pub enum ChildEnd {
    /// It could not be waited for.
    Failed(Error),
    /// It ended: whether with success, and its status if it has one.
    Exited(bool, Option<i32>),
}

/// What an end says.
pub enum ChildEndView {
    Failed(ErrorView),
    Exited(bool, Option<i32>),
}

impl View for ChildEnd {
    type V = ChildEndView;

    open spec fn view(&self) -> ChildEndView {
        match self {
            ChildEnd::Failed(error) => ChildEndView::Failed(error@),
            ChildEnd::Exited(success, code) => ChildEndView::Exited(*success, *code),
        }
    }
}

/// What the end of a child process means.
pub open spec fn child_result(end: ChildEndView) -> Result<(), ErrorView> {
    match end {
        ChildEndView::Failed(error) => Err(
            crate::error::other_error("The child process failed: "@ + error.message),
        ),
        ChildEndView::Exited(true, _) => Ok(()),
        ChildEndView::Exited(false, Some(code)) => Err(
            crate::error::other_error(
                "The child process was terminated with `"@ + crate::text::signed_decimal(
                    code as int,
                ) + "` status."@,
            ),
        ),
        ChildEndView::Exited(false, None) => Err(
            crate::error::other_error(
                "The child process terminated unsuccessfully, but did not return the exit status."@,
            ),
        ),
    }
}

/// A child process, by the pipes that lead to it.
#[derive(Debug)]
pub struct ChildProcess {
    has_stdin: bool,
    has_stdout: bool,
}

/// Which pipes lead to a child process.
pub struct ChildProcessView {
    pub has_stdin: bool,
    pub has_stdout: bool,
}

impl View for ChildProcess {
    type V = ChildProcessView;

    closed spec fn view(&self) -> ChildProcessView {
        ChildProcessView { has_stdin: self.has_stdin, has_stdout: self.has_stdout }
    }
}

impl ChildProcess {
    /// A child process with the given pipes.
    pub fn new(has_stdin: bool, has_stdout: bool) -> (r: ChildProcess)
        ensures
            r@ == (ChildProcessView { has_stdin, has_stdout }),
    {
        ChildProcess { has_stdin, has_stdout }
    }

    /// What the end of the process means.
    pub fn wait(self, end: ChildEnd) -> (r: Result<(), Error>)
        ensures
            crate::error::outcome(r) == child_result(end@),
    {
        match end {
            ChildEnd::Failed(error) => Err(
                Error::other("The child process failed: ".to_owned().concat(error.message())),
            ),
            ChildEnd::Exited(success, code) => {
                if success {
                    return Ok(());
                }
                match code {
                    Some(code) => Err(
                        Error::other(
                            "The child process was terminated with `".to_owned().concat(
                                signed_decimal_text(code as i64).as_str(),
                            ).concat("` status."),
                        ),
                    ),
                    None => Err(
                        Error::other(
                            "The child process terminated unsuccessfully, but did not return the exit status.".to_owned(),
                        ),
                    ),
                }
            },
        }
    }

    /// Whether both pipes are there to talk to the process.
    pub fn get_stdio(&self) -> (r: Result<(), Error>)
        ensures
            crate::error::outcome(r) == if !self@.has_stdin {
                Err::<(), ErrorView>(
                    crate::error::other_error("Unable to get the child process stdin"@),
                )
            } else if !self@.has_stdout {
                Err::<(), ErrorView>(
                    crate::error::other_error("Unable to get the child process stdout"@),
                )
            } else {
                Ok::<(), ErrorView>(())
            },
    {
        if !self.has_stdin {
            return Err(Error::other("Unable to get the child process stdin".to_owned()));
        }
        if !self.has_stdout {
            return Err(Error::other("Unable to get the child process stdout".to_owned()));
        }
        Ok(())
    }
}

/// A process is started with what was set for it: its arguments and pipes in any
/// case, the user and the group if they are given, an empty environment if it is
/// wanted, and the additional variables behind that, if there are any.
pub proof fn process_is_started_as_set(process: ProcessView, command: String, row: Vec<Setting>)
    requires
        exists|p: Process| p@ == process && call_ensures(Process::spawn, (p,), (command, row)),
    ensures
        command@ == process.command,
        ({
            let settings = settings_view(row@);
            let rest = settings.skip(3);
            &&& settings.len() >= 3
            &&& settings[0] == SettingView::Args(process.arguments)
            &&& settings[1] == SettingView::PipeStdin
            &&& settings[2] == SettingView::PipeStdout
            &&& rest.no_duplicates()
            &&& forall|setting: SettingView| #[trigger]
                rest.contains(setting) <==> match setting {
                    SettingView::EnvClear => process.env_clear,
                    SettingView::Uid(id) => process.uid == Some(id),
                    SettingView::Gid(id) => process.gid == Some(id),
                    SettingView::Envs(envs) => envs == process.envs && envs != Map::<
                        Seq<char>,
                        Seq<char>,
                    >::empty(),
                    _ => false,
                }
            &&& process.env_clear ==> rest.len() > 0 && rest[0] == SettingView::EnvClear
        }),
{
    let settings = settings_view(row@);
    let clear = optional(process.env_clear, SettingView::EnvClear);
    let uid = optional(process.uid is Some, SettingView::Uid(process.uid->0));
    let gid = optional(process.gid is Some, SettingView::Gid(process.gid->0));
    let envs = optional(
        process.envs != Map::<Seq<char>, Seq<char>>::empty(),
        SettingView::Envs(process.envs),
    );
    assert(settings == process.settings());
    let rest = settings.skip(3);
    assert(rest =~= clear + uid + gid + envs);
    assert forall|setting: SettingView| #[trigger] rest.contains(setting) <==> match setting {
        SettingView::EnvClear => process.env_clear,
        SettingView::Uid(id) => process.uid == Some(id),
        SettingView::Gid(id) => process.gid == Some(id),
        SettingView::Envs(envs) => envs == process.envs && envs != Map::<
            Seq<char>,
            Seq<char>,
        >::empty(),
        _ => false,
    } by {
        if rest.contains(setting) {
            let k = choose|k: int| 0 <= k < rest.len() && rest[k] == setting;
            assert(rest[k] == (clear + uid + gid + envs)[k]);
        }
        if setting is EnvClear && process.env_clear {
            assert(rest[0] == setting);
        }
        if setting is Uid && process.uid == Some(setting->Uid_0) {
            assert(rest[clear.len() as int] == setting);
        }
        if setting is Gid && process.gid == Some(setting->Gid_0) {
            assert(rest[(clear + uid).len() as int] == setting);
        }
        if setting is Envs && setting->Envs_0 == process.envs && process.envs != Map::<
            Seq<char>,
            Seq<char>,
        >::empty() {
            assert(rest[(clear + uid + gid).len() as int] == setting);
        }
    }
}

/// What is set for a process before it is started: each setting is kept as it was
/// given, and none touches the others. A user or a group that is not given leaves
/// the process as it is. The last value of an additional variable counts.
pub proof fn settings_are_kept(
    command: &str,
    created: Process,
    process: Process,
    words: Vec<String>,
    with_words: Process,
    clear: bool,
    with_clear: Process,
    id: &Option<u16>,
    with_user: Process,
    with_group: Process,
    vars: &Vec<(String, String)>,
    with_vars: Process,
)
    requires
        call_ensures(Process::new, (command,), created),
        call_ensures(Process::set_args, (process, words), with_words),
        call_ensures(Process::should_clear_env, (process, clear), with_clear),
        call_ensures(Process::set_effective_user_id, (process, id), with_user),
        call_ensures(Process::set_effective_group_id, (process, id), with_group),
        call_ensures(Process::set_environment_variables, (process, vars), with_vars),
    ensures
        created@.command == command@,
        created@.arguments.len() == 0,
        !created@.env_clear,
        created@.uid is None,
        created@.gid is None,
        created@.envs == Map::<Seq<char>, Seq<char>>::empty(),
        with_words@ == (ProcessView { arguments: with_words@.arguments, ..process@ }),
        with_words@.arguments.len() == words@.len(),
        forall|i: int|
            0 <= i < words@.len() ==> #[trigger] with_words@.arguments[i] == words@[i]@,
        with_clear@ == (ProcessView { env_clear: clear, ..process@ }),
        with_user@ == (ProcessView { uid: with_user@.uid, ..process@ }),
        *id is None ==> with_user@.uid == process@.uid,
        *id is Some ==> with_user@.uid is Some && with_user@.uid->0 == (*id)->0,
        with_group@ == (ProcessView { gid: with_group@.gid, ..process@ }),
        *id is None ==> with_group@.gid == process@.gid,
        *id is Some ==> with_group@.gid is Some && with_group@.gid->0 == (*id)->0,
        with_vars@ == (ProcessView { envs: with_vars@.envs, ..process@ }),
        forall|name: Seq<char>| #[trigger]
            with_vars@.envs.dom().contains(name) <==> exists|i: int|
                0 <= i < vars@.len() && (#[trigger] vars@[i]).0@ == name,
        forall|at: int|
            0 <= at < vars@.len() && (forall|i: int|
                at < i < vars@.len() ==> (#[trigger] vars@[i]).0@ != vars@[at].0@)
                ==> with_vars@.envs[(#[trigger] vars@[at]).0@] == vars@[at].1@,
{
    let pairs = crate::variables::pair_texts(vars@);
    crate::pairs::keys_are_known(pairs);
    assert(forall|i: int|
        0 <= i < vars@.len() ==> #[trigger] pairs[i] == (vars@[i].0@, vars@[i].1@));
    assert forall|name: Seq<char>| #[trigger] with_vars@.envs.dom().contains(name) <==> exists|
        i: int,
    |
        0 <= i < vars@.len() && (#[trigger] vars@[i]).0@ == name by {
        if with_vars@.envs.dom().contains(name) {
            let i = choose|i: int| 0 <= i < pairs.len() && (#[trigger] pairs[i]).0 == name;
            assert(vars@[i].0@ == name);
        }
        if exists|i: int| 0 <= i < vars@.len() && (#[trigger] vars@[i]).0@ == name {
            let i = choose|i: int| 0 <= i < vars@.len() && (#[trigger] vars@[i]).0@ == name;
            assert(pairs[i].0 == name);
            assert(crate::pairs::by_key(pairs).dom().contains(name));
        }
    }
    assert forall|at: int| 0 <= at < vars@.len() && (forall|i: int|
        at < i < vars@.len() ==> (#[trigger] vars@[i]).0@ != vars@[at].0@) implies with_vars@.envs[(
    #[trigger] vars@[at]).0@] == vars@[at].1@ by {
        assert(pairs[at] == (vars@[at].0@, vars@[at].1@));
        assert forall|i: int| at < i < pairs.len() implies (#[trigger] pairs[i]).0
            != pairs[at].0 by {
            assert(vars@[i].0@ != vars@[at].0@);
        }
        crate::pairs::last_value_counts(pairs, at);
    }
}

/// A process is well only if it ended with success. Otherwise the error says what is
/// known of its end.
pub proof fn only_success_is_well(
    child: ChildProcess,
    end: ChildEnd,
    waited: Result<(), Error>,
    command: &str,
    run: CommandRun,
    result: Result<(), Error>,
)
    requires
        call_ensures(ChildProcess::wait, (child, end), waited),
        call_ensures(Process::oneshot, (command, run), result),
    ensures
        waited is Ok <==> end matches ChildEnd::Exited(true, _),
        waited matches Err(error) ==> error@.kind == crate::error::ErrorKind::Other
            && error@.message == match end {
            ChildEnd::Failed(reason) => "The child process failed: "@ + reason@.message,
            ChildEnd::Exited(_, Some(code)) => "The child process was terminated with `"@
                + crate::text::signed_decimal(code as int) + "` status."@,
            ChildEnd::Exited(_, None) =>
                "The child process terminated unsuccessfully, but did not return the exit status."@,
        },
        result is Ok <==> run matches CommandRun::Ended(true, _, _),
        result matches Err(error) ==> error@.kind == crate::error::ErrorKind::Other
            && error@.message == match run {
            CommandRun::Failed(reason) => "Unable to execute the `"@ + command@ + "` command: "@
                + reason@.message,
            CommandRun::Ended(_, stdout, stderr) => "The `"@ + command@
                + "` command failed with:\nstdout:\n"@ + stdout@ + "\n\nstderr:\n"@ + stderr@
                + "\n"@,
        },
{
}

/// Both pipes are needed to talk to a process, and the input is looked for first. A
/// process that cannot be started is reported with the kind of the failure.
pub proof fn pipes_and_start_are_needed(
    has_stdin: bool,
    has_stdout: bool,
    child: &ChildProcess,
    created: ChildProcess,
    result: Result<(), Error>,
    reason: &Error,
    error: Error,
)
    requires
        call_ensures(ChildProcess::new, (has_stdin, has_stdout), created),
        *child == created,
        call_ensures(ChildProcess::get_stdio, (child,), result),
        call_ensures(Process::spawn_error, (reason,), error),
    ensures
        result is Ok <==> has_stdin && has_stdout,
        !has_stdin ==> result->Err_0@.message == "Unable to get the child process stdin"@,
        has_stdin && !has_stdout ==> result->Err_0@.message
            == "Unable to get the child process stdout"@,
        result is Err ==> result->Err_0@.kind == crate::error::ErrorKind::Other,
        error@.kind == reason@.kind,
        error@.message == "Failed to spawn child process: "@ + reason@.message,
{
}

} // verus!
