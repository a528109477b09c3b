//! CPU sets: isolating host CPUs and moving tasks onto them.
//!
//! The files of the cpuset file system are read and written by the caller. A
//! [`CpuSet`] says which [`Action`] comes next, and takes the [`Reply`] to it.
use crate::cpu_list::{is_valid_cpus_list, list_cpus, parse_cpus_file, remove_cpu, same_cpus};
use crate::error::{Error, ErrorKind, ErrorView};
use crate::exchange::{flag_of, text_of, Reply, ReplyView};
use crate::path::{has_one_component, join_path, starts_at_root};
use crate::task_status::{get_task_cpus, is_status_readable};
use crate::text::{split_lines, trim_text, usize_text};
use vstd::prelude::*;

verus! {

/// Work on files that an operation on CPU sets asks for.
#[derive(Debug)]
pub enum Action {
    /// Create a directory, and those above it.
    CreateDirAll(String),
    /// Replace the contents of a file: its path, and the contents.
    Write(String, String),
    /// Read a whole file.
    ReadToString(String),
    /// Read the first line of a file.
    ReadLine(String),
    /// Remove an empty directory.
    RemoveDir(String),
    /// Tell whether a file system of the given source is mounted at a path.
    SourceMountedAt(String, String),
    /// Mount the cpuset file system at a path.
    Mount(String),
    /// Open a file for reading and writing.
    Open(String),
    /// Lock the open file.
    Lock,
    /// Read the open file.
    ReadString,
    /// Make the open file empty.
    Trim,
    /// Write to the open file.
    WriteString(String),
}

/// What an action asks for.
pub enum ActionView {
    CreateDirAll(Seq<char>),
    Write(Seq<char>, Seq<char>),
    ReadToString(Seq<char>),
    ReadLine(Seq<char>),
    RemoveDir(Seq<char>),
    SourceMountedAt(Seq<char>, Seq<char>),
    Mount(Seq<char>),
    Open(Seq<char>),
    Lock,
    ReadString,
    Trim,
    WriteString(Seq<char>),
}

impl View for Action {
    type V = ActionView;

    open spec fn view(&self) -> ActionView {
        match self {
            Action::CreateDirAll(path) => ActionView::CreateDirAll(path@),
            Action::Write(path, data) => ActionView::Write(path@, data@),
            Action::ReadToString(path) => ActionView::ReadToString(path@),
            Action::ReadLine(path) => ActionView::ReadLine(path@),
            Action::RemoveDir(path) => ActionView::RemoveDir(path@),
            Action::SourceMountedAt(source, path) => ActionView::SourceMountedAt(source@, path@),
            Action::Mount(path) => ActionView::Mount(path@),
            Action::Open(path) => ActionView::Open(path@),
            Action::Lock => ActionView::Lock,
            Action::ReadString => ActionView::ReadString,
            Action::Trim => ActionView::Trim,
            Action::WriteString(data) => ActionView::WriteString(data@),
        }
    }
}

/// What a row of actions asks for.
pub open spec fn asked(actions: Seq<Action>) -> Seq<ActionView> {
    Seq::new(actions.len(), |i: int| actions[i]@)
}

/// Where a pinning stands.
#[derive(Clone, Copy, Debug)]
pub enum PinStage {
    /// The cpuset file system is being mounted.
    Mounting,
    /// The CPU sets of the prefix and of the pool are being set up.
    Configuring,
    /// The CPUs of the pool and the tasks outside it are being read.
    Listing,
    /// The task at this place is being moved to the pool.
    Migrating(usize),
    /// The tasks on the host CPU are being looked at.
    Checking,
    /// The host CPU is being taken out of the pool.
    Splitting,
    /// The CPU set of the host CPU is being set up.
    Preparing,
    /// The task is being moved to the CPU set of the host CPU.
    Attaching,
}

/// What a stage of a pinning says.
pub enum PinStageView {
    Mounting,
    Configuring,
    Listing,
    Migrating(nat),
    Checking,
    Splitting,
    Preparing,
    Attaching,
}

impl View for PinStage {
    type V = PinStageView;

    open spec fn view(&self) -> PinStageView {
        match self {
            PinStage::Mounting => PinStageView::Mounting,
            PinStage::Configuring => PinStageView::Configuring,
            PinStage::Listing => PinStageView::Listing,
            PinStage::Migrating(at) => PinStageView::Migrating(*at as nat),
            PinStage::Checking => PinStageView::Checking,
            PinStage::Splitting => PinStageView::Splitting,
            PinStage::Preparing => PinStageView::Preparing,
            PinStage::Attaching => PinStageView::Attaching,
        }
    }
}

/// What a CPU set is doing.
#[derive(Debug)]
pub enum Stage {
    /// The last operation ended with this result.
    Finished(Result<(), Error>),
    /// The task (second) is being pinned to the host CPU (first).
    Pinning(usize, usize, PinStage),
    /// The isolated CPU at this place is being released; the flag tells whether
    /// the release of an earlier one failed.
    Releasing(usize, bool),
}

/// What a stage says.
pub enum StageView {
    Finished(Result<(), ErrorView>),
    Pinning(usize, usize, PinStageView),
    Releasing(nat, bool),
}

impl View for Stage {
    type V = StageView;

    open spec fn view(&self) -> StageView {
        match self {
            Stage::Finished(result) => StageView::Finished(crate::error::outcome(*result)),
            Stage::Pinning(host, guest, stage) => StageView::Pinning(*host, *guest, stage@),
            Stage::Releasing(at, errors) => StageView::Releasing(*at as nat, *errors),
        }
    }
}

/// What comes next: an action, or the result of the operation.
#[derive(Debug)]
pub enum Step {
    Perform(Action),
    Finished(Result<(), Error>),
}

/// What a step says.
pub enum StepView {
    Perform(ActionView),
    Finished(Result<(), ErrorView>),
}

impl View for Step {
    type V = StepView;

    open spec fn view(&self) -> StepView {
        match self {
            Step::Perform(action) => StepView::Perform(action@),
            Step::Finished(result) => StepView::Finished(crate::error::outcome(*result)),
        }
    }
}

/// The state of the CPU sets of one prefix.
pub struct CpuSetView {
    /// Where the cpuset file system is mounted.
    pub mount_path: Seq<char>,
    /// The directory below the mount point that holds the CPU sets.
    pub prefix: Seq<char>,
    /// The host CPUs that were taken out of the pool, in that order.
    pub isolated: Seq<usize>,
    /// The CPUs that the pool had when its tasks were listed.
    pub pool: Seq<usize>,
    /// The tasks that were found outside the pool.
    pub tasks: Seq<Seq<char>>,
    /// What is being done.
    pub stage: StageView,
    /// The replies to the actions of this stage so far.
    pub replies: Seq<ReplyView>,
}

impl CpuSetView {
    /// The directory that holds the CPU sets.
    pub open spec fn directory(self) -> Seq<char> {
        crate::path::joined(self.mount_path, self.prefix)
    }

    /// The directory of the pool.
    pub open spec fn pool_directory(self) -> Seq<char> {
        crate::path::joined(self.directory(), "pool"@)
    }

    /// The directory of the CPU set of one host CPU.
    pub open spec fn thread_directory(self, id: usize) -> Seq<char> {
        crate::path::joined(self.directory(), crate::text::decimal(id as nat))
    }

    /// Mounting: the mount point is created, and the file system is mounted
    /// there unless it is already.
    pub open spec fn mount_script(self, replies: Seq<ReplyView>) -> Seq<ActionView> {
        let asked = seq![
            ActionView::CreateDirAll(self.mount_path),
            ActionView::SourceMountedAt("cgroup"@, self.mount_path),
        ];
        if crate::exchange::flag_at(replies, 1) {
            asked
        } else {
            asked.push(ActionView::Mount(self.mount_path))
        }
    }

    /// Filling a file of the prefix that is still blank with the contents of
    /// the same file of the mount point. The file is read at place `at`.
    pub open spec fn fill_script(
        self,
        name: Seq<char>,
        replies: Seq<ReplyView>,
        at: int,
    ) -> Seq<ActionView> {
        let path = crate::path::joined(self.directory(), name);
        let read = seq![ActionView::ReadToString(path)];
        if crate::text::trim(crate::exchange::text_at(replies, at)).len() == 0 {
            read + seq![
                ActionView::ReadToString(crate::path::joined(self.mount_path, name)),
                ActionView::Write(path, filled(replies, at)),
            ]
        } else {
            read
        }
    }

    /// Copying a text to a file of the pool that is still blank. The file is
    /// read at place `at`.
    pub open spec fn copy_script(
        self,
        name: Seq<char>,
        data: Seq<char>,
        replies: Seq<ReplyView>,
        at: int,
    ) -> Seq<ActionView> {
        let path = crate::path::joined(self.pool_directory(), name);
        let read = seq![ActionView::ReadToString(path)];
        if crate::text::trim(crate::exchange::text_at(replies, at)).len() == 0 {
            read.push(ActionView::Write(path, data))
        } else {
            read
        }
    }

    /// Configuring: the prefix gets the memory nodes and the CPUs of the mount
    /// point unless it has its own, and so does the pool those of the prefix.
    pub open spec fn configure_script(self, replies: Seq<ReplyView>) -> Seq<ActionView> {
        let start = seq![
            ActionView::CreateDirAll(self.directory()),
            ActionView::Write(
                crate::path::joined(self.directory(), "cpuset.cpu_exclusive"@),
                "1"@,
            ),
        ];
        let mems = self.fill_script("cpuset.mems"@, replies, 2);
        let cpus_at = 2 + mems.len();
        let cpus = self.fill_script("cpuset.cpus"@, replies, cpus_at as int);
        let pool = seq![
            ActionView::CreateDirAll(self.pool_directory()),
            ActionView::Write(
                crate::path::joined(self.pool_directory(), "cpuset.cpu_exclusive"@),
                "1"@,
            ),
        ];
        let pool_mems_at = cpus_at + cpus.len() + 2;
        let pool_mems = self.copy_script(
            "cpuset.mems"@,
            filled(replies, 2),
            replies,
            pool_mems_at as int,
        );
        let pool_cpus = self.copy_script(
            "cpuset.cpus"@,
            filled(replies, cpus_at as int),
            replies,
            (pool_mems_at + pool_mems.len()) as int,
        );
        start + mems + cpus + pool + pool_mems + pool_cpus
    }

    /// Listing: the CPUs of the pool and the tasks outside it are read.
    pub open spec fn list_script(self) -> Seq<ActionView> {
        seq![
            ActionView::ReadToString(crate::path::joined(self.pool_directory(), "cpuset.cpus"@)),
            ActionView::ReadToString(crate::path::joined(self.mount_path, "tasks"@)),
        ]
    }

    /// Migrating: a task moves to the pool if it may run on the CPUs of the
    /// pool and on no others.
    pub open spec fn migrate_script(self, task: Seq<char>, replies: Seq<ReplyView>) -> Seq<
        ActionView,
    > {
        let status = crate::path::joined("/proc"@, crate::path::joined(task, "status"@));
        let read = seq![ActionView::ReadToString(status)];
        let cpus = crate::task_status::allowed_cpus(task, crate::exchange::text_at(replies, 0));
        if cpus == Ok::<Seq<usize>, ErrorView>(self.pool) {
            read.push(
                ActionView::Write(crate::path::joined(self.pool_directory(), "tasks"@), task),
            )
        } else {
            read
        }
    }

    /// Checking: the first task on a host CPU is read.
    pub open spec fn check_script(self, id: usize) -> Seq<ActionView> {
        seq![ActionView::ReadLine(crate::path::joined(self.thread_directory(id), "tasks"@))]
    }

    /// Changing the CPUs of the pool: the file is locked, read, emptied and
    /// written again.
    pub open spec fn pool_script(self, cpus: Seq<usize>) -> Seq<ActionView> {
        seq![
            ActionView::Open(crate::path::joined(self.pool_directory(), "cpuset.cpus"@)),
            ActionView::Lock,
            ActionView::ReadString,
            ActionView::Trim,
            ActionView::WriteString(crate::cpu_list::cpus_text(cpus)),
        ]
    }

    /// Splitting: a host CPU is taken out of the pool.
    pub open spec fn split_script(self, id: usize, replies: Seq<ReplyView>) -> Seq<ActionView> {
        self.pool_script(crate::cpu_list::without_cpu(file_cpus(replies, 2), id))
    }

    /// Preparing: the CPU set of a host CPU gets the memory nodes of the prefix
    /// and this CPU for itself.
    pub open spec fn prepare_script(self, id: usize, replies: Seq<ReplyView>) -> Seq<ActionView> {
        let directory = self.thread_directory(id);
        seq![
            ActionView::CreateDirAll(directory),
            ActionView::ReadToString(crate::path::joined(self.directory(), "cpuset.mems"@)),
            ActionView::Write(
                crate::path::joined(directory, "cpuset.mems"@),
                crate::exchange::text_at(replies, 1),
            ),
            ActionView::Write(crate::path::joined(directory, "cpuset.cpu_exclusive"@), "1"@),
            ActionView::Write(
                crate::path::joined(directory, "cpuset.cpus"@),
                crate::text::decimal(id as nat),
            ),
        ]
    }

    /// Attaching: a task moves to the CPU set of a host CPU.
    pub open spec fn attach_script(self, id: usize, guest: usize) -> Seq<ActionView> {
        seq![
            ActionView::Write(
                crate::path::joined(self.thread_directory(id), "tasks"@),
                crate::text::decimal(guest as nat),
            ),
        ]
    }

    /// Releasing: if no task is left on a host CPU, its CPU set is removed and
    /// the CPU goes back to the pool.
    pub open spec fn release_script(self, id: usize, replies: Seq<ReplyView>) -> Seq<ActionView> {
        let check = self.check_script(id);
        if crate::text::trim(crate::exchange::text_at(replies, 0)).len() == 0 {
            check + seq![ActionView::RemoveDir(self.thread_directory(id))] + self.pool_script(
                file_cpus(replies, 4).push(id),
            )
        } else {
            check
        }
    }

    /// The actions of the present stage, given the replies so far. Actions that
    /// depend on a reply are settled once that reply has come.
    pub open spec fn script(self, replies: Seq<ReplyView>) -> Seq<ActionView> {
        match self.stage {
            StageView::Finished(_) => Seq::<ActionView>::empty(),
            StageView::Pinning(host, guest, stage) => match stage {
                PinStageView::Mounting => self.mount_script(replies),
                PinStageView::Configuring => self.configure_script(replies),
                PinStageView::Listing => self.list_script(),
                PinStageView::Migrating(at) => self.migrate_script(self.tasks[at as int], replies),
                PinStageView::Checking => self.check_script(host),
                PinStageView::Splitting => self.split_script(host, replies),
                PinStageView::Preparing => self.prepare_script(host, replies),
                PinStageView::Attaching => self.attach_script(host, guest),
            },
            StageView::Releasing(at, _) => self.release_script(self.isolated[at as int], replies),
        }
    }

    /// What comes next.
    pub open spec fn next(self) -> StepView {
        match self.stage {
            StageView::Finished(result) => StepView::Finished(result),
            _ => StepView::Perform(self.script(self.replies)[self.replies.len() as int]),
        }
    }

    /// The same CPU sets at the start of another stage.
    pub open spec fn entering(self, stage: StageView) -> CpuSetView {
        CpuSetView { stage, replies: Seq::<ReplyView>::empty(), ..self }
    }

    /// The CPU sets when a pinning starts.
    pub open spec fn pinning(self, host: usize, guest: usize) -> CpuSetView {
        self.entering(StageView::Pinning(host, guest, PinStageView::Mounting))
    }

    /// The CPU sets when a release starts. Nothing is left to do if no CPU is
    /// isolated.
    pub open spec fn releasing(self) -> CpuSetView {
        if self.isolated.len() == 0 {
            self.entering(StageView::Finished(Ok(())))
        } else {
            self.entering(StageView::Releasing(0, false))
        }
    }

    /// The error that ends a pinning when an action of a stage fails. The place
    /// of the action is `at`.
    pub open spec fn pin_error(
        self,
        host: usize,
        guest: usize,
        stage: PinStageView,
        at: int,
        error: ErrorView,
    ) -> ErrorView {
        let isolating = "Failed to isolate the host cpu thread `"@ + crate::text::decimal(
            host as nat,
        ) + "` - "@;
        let message = match stage {
            PinStageView::Attaching => "Failed to pin the process id `"@ + crate::text::decimal(
                guest as nat,
            ) + "` to the host cpu thread `"@ + crate::text::decimal(host as nat) + "` - "@
                + error.message,
            PinStageView::Mounting => if at == 1 {
                isolating + ("An error occurred while reading mounts: "@ + error.message)
            } else if at == 2 {
                isolating + ("Failed to mount cpuset to `"@ + self.mount_path + "`: "@
                    + error.message)
            } else {
                isolating + error.message
            },
            _ => isolating + error.message,
        };
        crate::error::other_error(message)
    }

    /// The CPU sets when a stage of a pinning has been completed, with the given
    /// replies.
    pub open spec fn after_pin_stage(
        self,
        host: usize,
        guest: usize,
        stage: PinStageView,
        replies: Seq<ReplyView>,
    ) -> CpuSetView {
        let next = |stage: PinStageView| StageView::Pinning(host, guest, stage);
        match stage {
            PinStageView::Mounting => self.entering(next(PinStageView::Configuring)),
            PinStageView::Configuring => self.entering(next(PinStageView::Listing)),
            PinStageView::Listing => {
                let found = CpuSetView {
                    pool: file_cpus(replies, 0),
                    tasks: crate::text::lines(crate::exchange::text_at(replies, 1)),
                    ..self
                };
                if found.tasks.len() == 0 {
                    found.entering(next(PinStageView::Checking))
                } else {
                    found.entering(next(PinStageView::Migrating(0)))
                }
            },
            PinStageView::Migrating(at) => if at + 1 < self.tasks.len() {
                self.entering(next(PinStageView::Migrating(at + 1)))
            } else {
                self.entering(next(PinStageView::Checking))
            },
            PinStageView::Checking => if self.isolated.contains(host) {
                self.entering(next(PinStageView::Attaching))
            } else {
                self.entering(next(PinStageView::Splitting))
            },
            PinStageView::Splitting => self.entering(next(PinStageView::Preparing)),
            PinStageView::Preparing => {
                let isolated = CpuSetView { isolated: self.isolated.push(host), ..self };
                isolated.entering(next(PinStageView::Attaching))
            },
            PinStageView::Attaching => self.entering(StageView::Finished(Ok(()))),
        }
    }

    /// The CPU sets after the release of the isolated CPU at a place.
    pub open spec fn after_release(self, at: nat, errors: bool) -> CpuSetView {
        if at + 1 < self.isolated.len() {
            self.entering(StageView::Releasing(at + 1, errors))
        } else {
            let emptied = CpuSetView { isolated: Seq::<usize>::empty(), ..self };
            emptied.entering(StageView::Finished(release_result(errors)))
        }
    }

    /// The CPU sets after a reply to the present action.
    ///
    /// A failure ends a pinning with an error, unless it happened to a task on
    /// its way to the pool, or the CPU set of the host CPU does not exist yet.
    /// Failures of a release are noted, and the next CPU has its turn.
    pub open spec fn after(self, reply: ReplyView) -> CpuSetView {
        let replies = self.replies.push(reply);
        let more = !(reply is Failed) && replies.len() < self.script(replies).len();
        match self.stage {
            StageView::Finished(_) => self,
            StageView::Pinning(host, guest, stage) => match reply {
                ReplyView::Failed(error) if !is_tolerated(stage, error) => self.entering(
                    StageView::Finished(
                        Err(self.pin_error(host, guest, stage, self.replies.len() as int, error)),
                    ),
                ),
                _ => if more {
                    CpuSetView { replies, ..self }
                } else {
                    self.after_pin_stage(host, guest, stage, replies)
                },
            },
            StageView::Releasing(at, errors) => if more {
                CpuSetView { replies, ..self }
            } else {
                self.after_release(
                    at,
                    errors || reply is Failed || crate::text::trim(
                        crate::exchange::text_at(replies, 0),
                    ).len() > 0,
                )
            },
        }
    }

    /// Whether a reply can be made use of: a list of CPUs has to be well-formed.
    pub open spec fn accepts(self, reply: ReplyView) -> bool {
        let text = crate::exchange::reply_text(reply);
        let n = self.replies.len();
        let list = crate::cpu_list::is_cpus_list(crate::text::trim(text));
        match self.stage {
            StageView::Pinning(_, _, PinStageView::Listing) => n == 0 ==> list,
            StageView::Pinning(_, _, PinStageView::Migrating(_)) => n == 0
                ==> crate::task_status::has_readable_list(text),
            StageView::Pinning(_, _, PinStageView::Splitting) => n == 2 ==> list,
            StageView::Releasing(_, _) => n == 4 ==> list,
            _ => true,
        }
    }

    /// Whether the replies so far could be made use of.
    pub open spec fn is_readable(self) -> bool {
        let list_at = |at: int|
            crate::cpu_list::is_cpus_list(
                crate::text::trim(crate::exchange::text_at(self.replies, at)),
            );
        match self.stage {
            StageView::Pinning(_, _, PinStageView::Listing) => list_at(0),
            StageView::Pinning(_, _, PinStageView::Migrating(at)) => at < self.tasks.len()
                && crate::task_status::has_readable_list(
                crate::exchange::text_at(self.replies, 0),
            ),
            StageView::Pinning(_, _, PinStageView::Splitting) => list_at(2),
            StageView::Releasing(at, _) => at < self.isolated.len() && list_at(4),
            _ => true,
        }
    }

    /// Whether the state is one that an operation can reach: the replies so far
    /// could be made use of, and an unfinished stage has an action left.
    pub open spec fn wf(self) -> bool {
        &&& self.is_readable()
        &&& !(self.stage is Finished) ==> self.replies.len() < self.script(self.replies).len()
    }
}

/// Whether a pinning goes on after this failure in this stage.
pub open spec fn is_tolerated(stage: PinStageView, error: ErrorView) -> bool {
    match stage {
        PinStageView::Migrating(_) => true,
        PinStageView::Checking => error.kind == ErrorKind::NotFound,
        _ => false,
    }
}

/// The contents of a file that is filled when it is blank: its own, or those
/// that were read next.
pub open spec fn filled(replies: Seq<ReplyView>, at: int) -> Seq<char> {
    let own = crate::text::trim(crate::exchange::text_at(replies, at));
    if own.len() == 0 {
        crate::text::trim(crate::exchange::text_at(replies, at + 1))
    } else {
        own
    }
}

/// The CPUs that the file read at a place lists.
pub open spec fn file_cpus(replies: Seq<ReplyView>, at: int) -> Seq<usize> {
    crate::cpu_list::listed_cpus(crate::text::trim(crate::exchange::text_at(replies, at)))->0
}

/// The result of a release.
pub open spec fn release_result(errors: bool) -> Result<(), ErrorView> {
    if errors {
        Err(crate::error::other_error("Failed to release some of the pinned threads."@))
    } else {
        Ok(())
    }
}

/// A stage has an action to start with.
pub proof fn entered_stage_has_action(cpusets: CpuSetView, stage: StageView)
    requires
        match stage {
            StageView::Pinning(_, _, PinStageView::Migrating(at)) => at < cpusets.tasks.len(),
            StageView::Releasing(at, _) => at < cpusets.isolated.len(),
            _ => true,
        },
    ensures
        cpusets.entering(stage).wf(),
{
    let nothing = Seq::<char>::empty();
    assert(crate::text::trim(nothing) == nothing);
    assert(crate::cpu_list::is_cpus_list(nothing));
    let lines = crate::text::lines(nothing);
    assert(lines =~= Seq::<Seq<char>>::empty());
    assert(crate::task_status::has_readable_list(nothing));
}

/// The CPU sets of one prefix, and the operation on them that is under way.
#[derive(Debug)]
pub struct CpuSet {
    mount_path: String,
    prefix: String,
    isolated_threads: Vec<usize>,
    pool: Vec<usize>,
    tasks: Vec<String>,
    stage: Stage,
    replies: Vec<Reply>,
}

impl View for CpuSet {
    type V = CpuSetView;

    closed spec fn view(&self) -> CpuSetView {
        CpuSetView {
            mount_path: self.mount_path@,
            prefix: self.prefix@,
            isolated: self.isolated_threads@,
            pool: self.pool@,
            tasks: crate::text::texts(self.tasks@),
            stage: self.stage@,
            replies: crate::exchange::said(self.replies@),
        }
    }
}

/// Whether CPU sets can be had at a mount point and below a prefix: the mount
/// point is absolute, and the prefix is a single component of a path.
pub open spec fn new_cpuset(path: Seq<char>, prefix: Seq<char>) -> Result<CpuSetView, ErrorView> {
    if !crate::path::has_root(path) {
        Err(
            crate::error::input_error(
                "A mount point path must be absolute, got: `"@ + path + "`."@,
            ),
        )
    } else if crate::path::component_count(prefix) != 1 {
        Err(
            crate::error::input_error(
                "A mount point prefix can not contain path separators, got: `"@ + prefix + "`."@,
            ),
        )
    } else {
        Ok(
            CpuSetView {
                mount_path: path,
                prefix,
                isolated: Seq::<usize>::empty(),
                pool: Seq::<usize>::empty(),
                tasks: Seq::<Seq<char>>::empty(),
                stage: StageView::Finished(Ok(())),
                replies: Seq::<ReplyView>::empty(),
            },
        )
    }
}

impl CpuSet {
    /// CPU sets below a mount point and a prefix. No host CPU is isolated yet.
    pub fn new(path: &str, prefix: &str) -> (r: Result<CpuSet, Error>)
        ensures
            match r {
                Ok(cpuset) => cpuset@.wf() && new_cpuset(path@, prefix@) == Ok::<
                    CpuSetView,
                    ErrorView,
                >(cpuset@),
                Err(error) => new_cpuset(path@, prefix@) == Err::<CpuSetView, ErrorView>(error@),
            },
    {
        if !starts_at_root(path) {
            return Err(
                Error::invalid_input(
                    "A mount point path must be absolute, got: `".to_owned().concat(path).concat(
                        "`.",
                    ),
                ),
            );
        }
        if !has_one_component(prefix) {
            return Err(
                Error::invalid_input(
                    "A mount point prefix can not contain path separators, got: `".to_owned().concat(
                        prefix,
                    ).concat("`."),
                ),
            );
        }
        let cpuset = CpuSet {
            mount_path: path.to_owned(),
            prefix: prefix.to_owned(),
            isolated_threads: Vec::new(),
            pool: Vec::new(),
            tasks: Vec::new(),
            stage: Stage::Finished(Ok(())),
            replies: Vec::new(),
        };
        assert(cpuset@.tasks =~= Seq::<Seq<char>>::empty());
        assert(cpuset@.replies =~= Seq::<ReplyView>::empty());
        Ok(cpuset)
    }

    /// The directory that holds the CPU sets.
    fn cpuset_path(&self) -> (r: String)
        ensures
            r@ == self@.directory(),
    {
        join_path(self.mount_path.as_str(), self.prefix.as_str())
    }

    /// The path of something in the directory of the pool.
    fn pool_path(&self, name: &str) -> (r: String)
        ensures
            r@ == crate::path::joined(self@.pool_directory(), name@),
    {
        let directory = join_path(self.cpuset_path().as_str(), "pool");
        join_path(directory.as_str(), name)
    }

    /// The directory of the CPU set of one host CPU.
    fn thread_path(&self, id: usize) -> (r: String)
        ensures
            r@ == self@.thread_directory(id),
    {
        join_path(self.cpuset_path().as_str(), usize_text(id).as_str())
    }

    /// The actions that mount the cpuset file system.
    fn ensure_mounted(&self) -> (r: Vec<Action>)
        ensures
            asked(r@) == self@.mount_script(self@.replies),
    {
        let mut actions: Vec<Action> = vec![
            Action::CreateDirAll(self.mount_path.clone()),
            Action::SourceMountedAt("cgroup".to_owned(), self.mount_path.clone()),
        ];
        if !flag_of(&self.replies, 1) {
            actions.push(Action::Mount(self.mount_path.clone()));
        }
        assert(asked(actions@) =~= self@.mount_script(self@.replies));
        actions
    }

    /// Adds the actions that fill a blank file of the prefix, and gives the
    /// contents that the file has then.
    fn fill_file(&self, actions: &mut Vec<Action>, name: &str) -> (r: String)
        ensures
            asked(final(actions)@) == asked(old(actions)@) + self@.fill_script(
                name@,
                self@.replies,
                old(actions)@.len() as int,
            ),
            r@ == filled(self@.replies, old(actions)@.len() as int),
    {
        let at = actions.len();
        let path = join_path(self.cpuset_path().as_str(), name);
        actions.push(Action::ReadToString(path.clone()));
        let own = trim_text(text_of(&self.replies, at).as_str());
        if own.as_str().is_empty() {
            let contents = if at < self.replies.len() {
                trim_text(text_of(&self.replies, at + 1).as_str())
            } else {
                String::new()
            };
            actions.push(
                Action::ReadToString(join_path(self.mount_path.as_str(), name)),
            );
            actions.push(Action::Write(path, contents.clone()));
            assert(asked(actions@) =~= asked(old(actions)@) + self@.fill_script(
                name@,
                self@.replies,
                at as int,
            ));
            contents
        } else {
            assert(asked(actions@) =~= asked(old(actions)@) + self@.fill_script(
                name@,
                self@.replies,
                at as int,
            ));
            own
        }
    }

    /// Adds the actions that copy a text to a blank file of the pool.
    fn copy_to_pool(&self, actions: &mut Vec<Action>, name: &str, data: &str)
        ensures
            asked(final(actions)@) == asked(old(actions)@) + self@.copy_script(
                name@,
                data@,
                self@.replies,
                old(actions)@.len() as int,
            ),
    {
        let at = actions.len();
        let path = self.pool_path(name);
        actions.push(Action::ReadToString(path.clone()));
        let own = trim_text(text_of(&self.replies, at).as_str());
        if own.as_str().is_empty() {
            actions.push(Action::Write(path, data.to_owned()));
        }
        assert(asked(actions@) =~= asked(old(actions)@) + self@.copy_script(
            name@,
            data@,
            self@.replies,
            at as int,
        ));
    }

    /// The actions that set up the CPU sets of the prefix and of the pool.
    fn configure_cpuset(&self) -> (r: Vec<Action>)
        ensures
            asked(r@) == self@.configure_script(self@.replies),
    {
        let path = self.cpuset_path();
        let mut actions: Vec<Action> = vec![
            Action::CreateDirAll(path.clone()),
            Action::Write(
                join_path(path.as_str(), "cpuset.cpu_exclusive"),
                "1".to_owned(),
            ),
        ];
        let ghost start = asked(actions@);
        assert(start =~= seq![
            ActionView::CreateDirAll(self@.directory()),
            ActionView::Write(
                crate::path::joined(self@.directory(), "cpuset.cpu_exclusive"@),
                "1"@,
            ),
        ]);
        let mems = self.fill_file(&mut actions, "cpuset.mems");
        let ghost with_mems = asked(actions@);
        assert(with_mems.len() == actions@.len());
        let cpus = self.fill_file(&mut actions, "cpuset.cpus");
        let ghost with_cpus = asked(actions@);
        actions.push(Action::CreateDirAll(join_path(path.as_str(), "pool")));
        actions.push(Action::Write(self.pool_path("cpuset.cpu_exclusive"), "1".to_owned()));
        let ghost pool = seq![
            ActionView::CreateDirAll(self@.pool_directory()),
            ActionView::Write(
                crate::path::joined(self@.pool_directory(), "cpuset.cpu_exclusive"@),
                "1"@,
            ),
        ];
        assert(asked(actions@) =~= with_cpus + pool);
        assert(asked(actions@).len() == actions@.len());
        self.copy_to_pool(&mut actions, "cpuset.mems", mems.as_str());
        assert(asked(actions@).len() == actions@.len());
        self.copy_to_pool(&mut actions, "cpuset.cpus", cpus.as_str());
        actions
    }

    /// The actions that read the CPUs of the pool and the tasks outside it.
    fn migrate_tasks(&self) -> (r: Vec<Action>)
        ensures
            asked(r@) == self@.list_script(),
    {
        let actions: Vec<Action> = vec![
            Action::ReadToString(self.pool_path("cpuset.cpus")),
            Action::ReadToString(join_path(self.mount_path.as_str(), "tasks")),
        ];
        assert(asked(actions@) =~= self@.list_script());
        actions
    }

    /// The actions that move a task to the pool.
    fn migrate_task(&self, task: &str) -> (r: Vec<Action>)
        requires
            crate::task_status::has_readable_list(crate::exchange::text_at(self@.replies, 0)),
        ensures
            asked(r@) == self@.migrate_script(task@, self@.replies),
    {
        let status = join_path("/proc", join_path(task, "status").as_str());
        let mut actions: Vec<Action> = vec![Action::ReadToString(status)];
        if let Ok(cpus) = get_task_cpus(task, text_of(&self.replies, 0).as_str()) {
            if same_cpus(&cpus, &self.pool) {
                actions.push(Action::Write(self.pool_path("tasks"), task.to_owned()));
            }
        }
        assert(asked(actions@) =~= self@.migrate_script(task@, self@.replies));
        actions
    }

    /// The action that reads the first task on a host CPU.
    fn is_thread_free(&self, id: usize) -> (r: Vec<Action>)
        ensures
            asked(r@) == self@.check_script(id),
    {
        let actions: Vec<Action> = vec![
            Action::ReadLine(join_path(self.thread_path(id).as_str(), "tasks")),
        ];
        assert(asked(actions@) =~= self@.check_script(id));
        actions
    }

    /// The actions that change the CPUs of the pool.
    fn change_pool(&self, cpus: &Vec<usize>) -> (r: Vec<Action>)
        ensures
            asked(r@) == self@.pool_script(cpus@),
    {
        let actions: Vec<Action> = vec![
            Action::Open(self.pool_path("cpuset.cpus")),
            Action::Lock,
            Action::ReadString,
            Action::Trim,
            Action::WriteString(list_cpus(cpus)),
        ];
        assert(asked(actions@) =~= self@.pool_script(cpus@));
        actions
    }

    /// The actions that take a host CPU out of the pool.
    fn split_thread_from_pool(&self, id: usize) -> (r: Vec<Action>)
        requires
            crate::cpu_list::is_cpus_list(
                crate::text::trim(crate::exchange::text_at(self@.replies, 2)),
            ),
        ensures
            asked(r@) == self@.split_script(id, self@.replies),
    {
        let cpus = parse_cpus_file(text_of(&self.replies, 2).as_str());
        self.change_pool(&remove_cpu(&cpus, id))
    }

    /// The actions that give a host CPU back to the pool.
    fn return_thread_to_pool(&self, id: usize) -> (r: Vec<Action>)
        requires
            crate::cpu_list::is_cpus_list(
                crate::text::trim(crate::exchange::text_at(self@.replies, 4)),
            ),
        ensures
            asked(r@) == self@.pool_script(file_cpus(self@.replies, 4).push(id)),
    {
        let mut cpus = parse_cpus_file(text_of(&self.replies, 4).as_str());
        cpus.push(id);
        self.change_pool(&cpus)
    }

    /// The actions that set up the CPU set of a host CPU.
    fn isolate_thread(&self, id: usize) -> (r: Vec<Action>)
        ensures
            asked(r@) == self@.prepare_script(id, self@.replies),
    {
        let path = self.thread_path(id);
        let actions: Vec<Action> = vec![
            Action::CreateDirAll(path.clone()),
            Action::ReadToString(join_path(self.cpuset_path().as_str(), "cpuset.mems")),
            Action::Write(join_path(path.as_str(), "cpuset.mems"), text_of(&self.replies, 1)),
            Action::Write(join_path(path.as_str(), "cpuset.cpu_exclusive"), "1".to_owned()),
            Action::Write(join_path(path.as_str(), "cpuset.cpus"), usize_text(id)),
        ];
        assert(asked(actions@) =~= self@.prepare_script(id, self@.replies));
        actions
    }

    /// The action that moves a task to the CPU set of a host CPU.
    fn attach_task(&self, id: usize, guest: usize) -> (r: Vec<Action>)
        ensures
            asked(r@) == self@.attach_script(id, guest),
    {
        let actions: Vec<Action> = vec![
            Action::Write(join_path(self.thread_path(id).as_str(), "tasks"), usize_text(guest)),
        ];
        assert(asked(actions@) =~= self@.attach_script(id, guest));
        actions
    }

    /// The actions that release a host CPU.
    fn release_thread(&self, id: usize) -> (r: Vec<Action>)
        requires
            crate::cpu_list::is_cpus_list(
                crate::text::trim(crate::exchange::text_at(self@.replies, 4)),
            ),
        ensures
            asked(r@) == self@.release_script(id, self@.replies),
    {
        let mut actions = self.is_thread_free(id);
        let task = trim_text(text_of(&self.replies, 0).as_str());
        if task.as_str().is_empty() {
            actions.push(Action::RemoveDir(self.thread_path(id)));
            let mut rest = self.return_thread_to_pool(id);
            let ghost before = actions@;
            let ghost after = rest@;
            actions.append(&mut rest);
            assert(asked(actions@) =~= asked(before) + asked(after));
            assert(asked(before) =~= self@.check_script(id) + seq![
                ActionView::RemoveDir(self@.thread_directory(id)),
            ]);
        }
        actions
    }

    /// The actions of the present stage, given the replies so far.
    fn script(&self) -> (r: Vec<Action>)
        requires
            self@.is_readable(),
        ensures
            asked(r@) == self@.script(self@.replies),
    {
        match &self.stage {
            Stage::Finished(_) => {
                let actions: Vec<Action> = Vec::new();
                assert(asked(actions@) =~= Seq::<ActionView>::empty());
                actions
            },
            Stage::Pinning(host, guest, stage) => match stage {
                PinStage::Mounting => self.ensure_mounted(),
                PinStage::Configuring => self.configure_cpuset(),
                PinStage::Listing => self.migrate_tasks(),
                PinStage::Migrating(at) => {
                    assert(self@.tasks[*at as int] == self.tasks@[*at as int]@);
                    self.migrate_task(self.tasks[*at].as_str())
                },
                PinStage::Checking => self.is_thread_free(*host),
                PinStage::Splitting => self.split_thread_from_pool(*host),
                PinStage::Preparing => self.isolate_thread(*host),
                PinStage::Attaching => self.attach_task(*host, *guest),
            },
            Stage::Releasing(at, _) => self.release_thread(self.isolated_threads[*at]),
        }
    }

    /// What comes next: an action to perform, or the result of the operation.
    pub fn next_step(&self) -> (r: Step)
        requires
            self@.wf(),
        ensures
            r@ == self@.next(),
    {
        match &self.stage {
            Stage::Finished(Ok(_)) => Step::Finished(Ok(())),
            Stage::Finished(Err(error)) => Step::Finished(Err(error.clone())),
            _ => {
                let mut actions = self.script();
                let n = self.replies.len();
                assert(asked(actions@)[n as int] == actions@[n as int]@);
                Step::Perform(actions.swap_remove(n))
            },
        }
    }

    /// Whether a reply to the present action can be made use of: a list of CPUs
    /// in it has to be well-formed.
    pub fn accepts(&self, reply: &Reply) -> (r: bool)
        ensures
            r == self@.accepts(reply@),
    {
        let text = match reply {
            Reply::Text(text) => text.clone(),
            _ => String::new(),
        };
        let n = self.replies.len();
        match &self.stage {
            Stage::Pinning(_, _, PinStage::Listing) => n != 0 || is_valid_cpus_list(
                trim_text(text.as_str()).as_str(),
            ),
            Stage::Pinning(_, _, PinStage::Migrating(_)) => n != 0 || is_status_readable(
                text.as_str(),
            ),
            Stage::Pinning(_, _, PinStage::Splitting) => n != 2 || is_valid_cpus_list(
                trim_text(text.as_str()).as_str(),
            ),
            Stage::Releasing(_, _) => n != 4 || is_valid_cpus_list(
                trim_text(text.as_str()).as_str(),
            ),
            _ => true,
        }
    }

    /// Starts another stage.
    fn enter(&mut self, stage: Stage)
        requires
            match stage@ {
                StageView::Pinning(_, _, PinStageView::Migrating(at)) => at < old(self)@.tasks.len(),
                StageView::Releasing(at, _) => at < old(self)@.isolated.len(),
                _ => true,
            },
        ensures
            final(self)@ == old(self)@.entering(stage@),
            final(self)@.wf(),
    {
        self.stage = stage;
        self.replies = Vec::new();
        proof {
            assert(self@.replies =~= Seq::<ReplyView>::empty());
            entered_stage_has_action(old(self)@, stage@);
        }
    }

    /// Starts to pin a task to a host CPU.
    pub fn pin_task(&mut self, host_id: usize, guest_id: usize)
        ensures
            final(self)@ == old(self)@.pinning(host_id, guest_id),
            final(self)@.wf(),
    {
        self.enter(Stage::Pinning(host_id, guest_id, PinStage::Mounting));
    }

    /// Starts to release the isolated host CPUs.
    pub fn release_threads(&mut self)
        ensures
            final(self)@ == old(self)@.releasing(),
            final(self)@.wf(),
    {
        if self.isolated_threads.len() == 0 {
            self.enter(Stage::Finished(Ok(())));
        } else {
            self.enter(Stage::Releasing(0, false));
        }
    }

    /// The error that ends a pinning when an action of a stage fails.
    fn pin_failure(
        &self,
        host: usize,
        guest: usize,
        stage: PinStage,
        at: usize,
        error: &Error,
    ) -> (r: Error)
        ensures
            r@ == self@.pin_error(host, guest, stage@, at as int, error@),
    {
        let isolating = "Failed to isolate the host cpu thread `".to_owned().concat(
            usize_text(host).as_str(),
        ).concat("` - ");
        let message = match stage {
            PinStage::Attaching => "Failed to pin the process id `".to_owned().concat(
                usize_text(guest).as_str(),
            ).concat("` to the host cpu thread `").concat(usize_text(host).as_str()).concat(
                "` - ",
            ).concat(error.message()),
            PinStage::Mounting => {
                if at == 1 {
                    let reason = "An error occurred while reading mounts: ".to_owned().concat(
                        error.message(),
                    );
                    isolating.concat(reason.as_str())
                } else if at == 2 {
                    let reason = self.mount_cpuset(error);
                    isolating.concat(reason.as_str())
                } else {
                    isolating.concat(error.message())
                }
            },
            _ => isolating.concat(error.message()),
        };
        Error::other(message)
    }

    /// The message for a cpuset file system that could not be mounted.
    fn mount_cpuset(&self, error: &Error) -> (r: String)
        ensures
            r@ == "Failed to mount cpuset to `"@ + self@.mount_path + "`: "@ + error@.message,
    {
        "Failed to mount cpuset to `".to_owned().concat(self.mount_path.as_str()).concat(
            "`: ",
        ).concat(error.message())
    }

    /// Goes on when a stage of a pinning has been completed.
    fn complete_pin_stage(&mut self, host: usize, guest: usize, stage: PinStage)
        requires
            old(self)@.stage == StageView::Pinning(host, guest, stage@),
            old(self)@.is_readable(),
        ensures
            final(self)@ == (CpuSetView {
                replies: Seq::<ReplyView>::empty(),
                ..old(self)@.after_pin_stage(host, guest, stage@, old(self)@.replies)
            }),
            final(self)@.wf(),
    {
        match stage {
            PinStage::Mounting => self.enter(Stage::Pinning(host, guest, PinStage::Configuring)),
            PinStage::Configuring => self.enter(Stage::Pinning(host, guest, PinStage::Listing)),
            PinStage::Listing => {
                self.pool = parse_cpus_file(text_of(&self.replies, 0).as_str());
                self.tasks = split_lines(text_of(&self.replies, 1).as_str());
                if self.tasks.len() == 0 {
                    self.enter(Stage::Pinning(host, guest, PinStage::Checking));
                } else {
                    self.enter(Stage::Pinning(host, guest, PinStage::Migrating(0)));
                }
            },
            PinStage::Migrating(at) => {
                if at < self.tasks.len() - 1 {
                    self.enter(Stage::Pinning(host, guest, PinStage::Migrating(at + 1)));
                } else {
                    self.enter(Stage::Pinning(host, guest, PinStage::Checking));
                }
            },
            PinStage::Checking => {
                if self.is_isolated(host) {
                    self.enter(Stage::Pinning(host, guest, PinStage::Attaching));
                } else {
                    self.enter(Stage::Pinning(host, guest, PinStage::Splitting));
                }
            },
            PinStage::Splitting => self.enter(Stage::Pinning(host, guest, PinStage::Preparing)),
            PinStage::Preparing => {
                self.isolated_threads.push(host);
                self.enter(Stage::Pinning(host, guest, PinStage::Attaching));
            },
            PinStage::Attaching => self.enter(Stage::Finished(Ok(()))),
        }
    }

    /// Whether a host CPU is isolated.
    pub fn is_isolated(&self, id: usize) -> (r: bool)
        ensures
            r == self@.isolated.contains(id),
    {
        let mut i: usize = 0;
        while i < self.isolated_threads.len()
            invariant
                i <= self.isolated_threads@.len(),
                forall|j: int| 0 <= j < i ==> self.isolated_threads@[j] != id,
            decreases self.isolated_threads@.len() - i,
        {
            if self.isolated_threads[i] == id {
                assert(self.isolated_threads@[i as int] == id);
                return true;
            }
            i = i + 1;
        }
        false
    }

    /// Goes on when the release of the isolated CPU at a place has ended.
    fn complete_release(&mut self, at: usize, errors: bool)
        requires
            at < old(self)@.isolated.len(),
        ensures
            final(self)@ == old(self)@.after_release(at as nat, errors),
            final(self)@.wf(),
    {
        if at < self.isolated_threads.len() - 1 {
            self.enter(Stage::Releasing(at + 1, errors));
        } else {
            self.isolated_threads = Vec::new();
            if errors {
                self.enter(
                    Stage::Finished(
                        Err(
                            Error::other(
                                "Failed to release some of the pinned threads.".to_owned(),
                            ),
                        ),
                    ),
                );
            } else {
                self.enter(Stage::Finished(Ok(())));
            }
        }
    }

    /// Takes the reply to the present action.
    pub fn reply(&mut self, reply: Reply)
        requires
            old(self)@.wf(),
            old(self)@.accepts(reply@),
        ensures
            final(self)@ == old(self)@.after(reply@),
            final(self)@.wf(),
    {
        if let Stage::Finished(_) = &self.stage {
            return;
        }
        let at = self.replies.len();
        let failure = match &reply {
            Reply::Failed(error) => Some(error.clone()),
            _ => None,
        };
        self.replies.push(reply);
        assert(self@.replies =~= old(self)@.replies.push(reply@));
        assert(self@.is_readable());
        let more = failure.is_none() && self.replies.len() < self.script().len();
        match self.stage {
            Stage::Finished(_) => {},
            Stage::Pinning(host, guest, stage) => {
                if let Some(error) = failure {
                    let tolerated = match stage {
                        PinStage::Migrating(_) => true,
                        PinStage::Checking => error.kind() == ErrorKind::NotFound,
                        _ => false,
                    };
                    if !tolerated {
                        let error = self.pin_failure(host, guest, stage, at, &error);
                        self.enter(Stage::Finished(Err(error)));
                        return;
                    }
                }
                if !more {
                    self.complete_pin_stage(host, guest, stage);
                }
            },
            Stage::Releasing(place, errors) => {
                if !more {
                    let task = trim_text(text_of(&self.replies, 0).as_str());
                    self.complete_release(
                        place,
                        errors || failure.is_some() || !task.as_str().is_empty(),
                    );
                }
            },
        }
    }
}

} // verus!
