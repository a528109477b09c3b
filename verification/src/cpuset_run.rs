//! Whole operations on CPU sets: what holds of them, whatever the replies are.
use crate::cpuset::{ActionView, CpuSetView, PinStageView, StageView, StepView};
use crate::error::ErrorView;
use crate::exchange::ReplyView;
use vstd::prelude::*;

verus! {

/// The CPU sets after a row of replies.
pub open spec fn run(cpusets: CpuSetView, replies: Seq<ReplyView>) -> CpuSetView
    decreases replies.len(),
{
    if replies.len() == 0 {
        cpusets
    } else {
        run(cpusets.after(replies.first()), replies.drop_first())
    }
}

/// Whether each reply of a row can be made use of when it comes.
pub open spec fn accepted(cpusets: CpuSetView, replies: Seq<ReplyView>) -> bool
    decreases replies.len(),
{
    replies.len() == 0 || (cpusets.accepts(replies.first()) && accepted(
        cpusets.after(replies.first()),
        replies.drop_first(),
    ))
}

/// The actions that the replies of a row belong to.
pub open spec fn performed(cpusets: CpuSetView, replies: Seq<ReplyView>) -> Seq<ActionView>
    decreases replies.len(),
{
    if replies.len() == 0 || cpusets.stage is Finished {
        Seq::<ActionView>::empty()
    } else {
        seq![cpusets.script(cpusets.replies)[cpusets.replies.len() as int]] + performed(
            cpusets.after(replies.first()),
            replies.drop_first(),
        )
    }
}

/// A usable reply leads from a state that an operation can reach to another.
proof fn reply_keeps_well_formed(cpusets: CpuSetView, reply: ReplyView)
    requires
        cpusets.wf(),
        cpusets.accepts(reply),
    ensures
        cpusets.after(reply).wf(),
{
    let next = cpusets.after(reply);
    if next.replies.len() == 0 {
        crate::cpuset::entered_stage_has_action(next, next.stage);
        assert(next.replies =~= Seq::<ReplyView>::empty());
    } else {
        assert(next.is_readable());
    }
}

/// An operation whose replies can be made use of stays in reachable states: it
/// has a next action at every moment until it is finished.
pub proof fn operation_stays_well_formed(cpusets: CpuSetView, replies: Seq<ReplyView>)
    requires
        cpusets.wf(),
        accepted(cpusets, replies),
    ensures
        run(cpusets, replies).wf(),
    decreases replies.len(),
{
    if replies.len() > 0 {
        reply_keeps_well_formed(cpusets, replies.first());
        operation_stays_well_formed(cpusets.after(replies.first()), replies.drop_first());
    }
}

/// A finished operation stays as it is.
pub proof fn finished_operation_is_settled(cpusets: CpuSetView, replies: Seq<ReplyView>)
    requires
        cpusets.stage is Finished,
    ensures
        run(cpusets, replies) == cpusets,
        performed(cpusets, replies).len() == 0,
    decreases replies.len(),
{
    if replies.len() > 0 {
        finished_operation_is_settled(cpusets, replies.drop_first());
    }
}

/// How many kinds of stages are left, this one included.
pub closed spec fn stages_left(stage: StageView) -> nat {
    match stage {
        StageView::Finished(_) => 0,
        StageView::Releasing(_, _) => 1,
        StageView::Pinning(_, _, stage) => match stage {
            PinStageView::Attaching => 1,
            PinStageView::Preparing => 2,
            PinStageView::Splitting => 3,
            PinStageView::Checking => 4,
            PinStageView::Migrating(_) => 5,
            PinStageView::Listing => 6,
            PinStageView::Configuring => 7,
            PinStageView::Mounting => 8,
        },
    }
}

/// How many stages of the present kind are left behind this one.
pub closed spec fn turns_left(cpusets: CpuSetView) -> int {
    match cpusets.stage {
        StageView::Pinning(_, _, PinStageView::Migrating(at)) => if at < cpusets.tasks.len() {
            cpusets.tasks.len() - at
        } else {
            0
        },
        StageView::Releasing(at, _) => if at < cpusets.isolated.len() {
            cpusets.isolated.len() - at
        } else {
            0
        },
        _ => 0,
    }
}

/// A bound on the number of actions that are left in the present stage.
pub closed spec fn actions_left(cpusets: CpuSetView) -> int {
    if cpusets.replies.len() < 14 {
        14 - cpusets.replies.len()
    } else {
        0
    }
}

/// Every operation ends: whatever the replies are, it is finished after some
/// number of them.
pub proof fn operation_ends(cpusets: CpuSetView, replies: spec_fn(int) -> ReplyView) -> (n: nat)
    ensures
        run(cpusets, Seq::new(n, replies)).stage is Finished,
    decreases stages_left(cpusets.stage), turns_left(cpusets), actions_left(cpusets),
{
    if cpusets.stage is Finished {
        0
    } else {
        let later = |i: int| replies(i + 1);
        let n = operation_ends(cpusets.after(replies(0)), later);
        let all = Seq::new(n + 1, replies);
        assert(all.drop_first() =~= Seq::new(n, later));
        assert(all.first() == replies(0));
        n + 1
    }
}

/// What holds while a task is being pinned to a host CPU, and at the end.
/// `before` are the CPUs that were isolated at the start.
spec fn is_pinning(cpusets: CpuSetView, before: Seq<usize>, host: usize, guest: usize) -> bool {
    match cpusets.stage {
        StageView::Finished(Ok(_)) => cpusets.isolated.contains(host) && is_widened(
            cpusets.isolated,
            before,
            host,
        ),
        StageView::Finished(Err(_)) => is_widened(cpusets.isolated, before, host),
        StageView::Pinning(h, g, stage) => h == host && g == guest && match stage {
            PinStageView::Attaching => cpusets.isolated.contains(host) && is_widened(
                cpusets.isolated,
                before,
                host,
            ),
            PinStageView::Splitting | PinStageView::Preparing => cpusets.isolated == before
                && !before.contains(host),
            _ => cpusets.isolated == before,
        },
        StageView::Releasing(_, _) => false,
    }
}

/// Whether a list of isolated CPUs is an earlier one, or the earlier one with a
/// CPU added that it lacked.
pub open spec fn is_widened(isolated: Seq<usize>, before: Seq<usize>, host: usize) -> bool {
    isolated == before || (isolated == before.push(host) && !before.contains(host))
}

/// A reply keeps what holds during a pinning.
proof fn reply_keeps_pinning(
    cpusets: CpuSetView,
    before: Seq<usize>,
    host: usize,
    guest: usize,
    reply: ReplyView,
)
    requires
        is_pinning(cpusets, before, host, guest),
    ensures
        is_pinning(cpusets.after(reply), before, host, guest),
        cpusets.after(reply).mount_path == cpusets.mount_path,
        cpusets.after(reply).prefix == cpusets.prefix,
{
    assert(before.push(host)[before.len() as int] == host);
}

/// A pinning keeps to what holds of it.
proof fn run_keeps_pinning(
    cpusets: CpuSetView,
    before: Seq<usize>,
    host: usize,
    guest: usize,
    replies: Seq<ReplyView>,
)
    requires
        is_pinning(cpusets, before, host, guest),
    ensures
        is_pinning(run(cpusets, replies), before, host, guest),
        run(cpusets, replies).mount_path == cpusets.mount_path,
        run(cpusets, replies).prefix == cpusets.prefix,
    decreases replies.len(),
{
    if replies.len() > 0 {
        let next = cpusets.after(replies.first());
        reply_keeps_pinning(cpusets, before, host, guest, replies.first());
        run_keeps_pinning(next, before, host, guest, replies.drop_first());
    }
}

/// A pinning isolates its own host CPU and no other, and releases none. Once it
/// has succeeded, and already when the task is moved, the host CPU is isolated.
pub proof fn pinning_isolates_its_cpu(
    cpusets: CpuSetView,
    host: usize,
    guest: usize,
    replies: Seq<ReplyView>,
)
    ensures
        ({
            let end = run(cpusets.pinning(host, guest), replies);
            &&& is_widened(end.isolated, cpusets.isolated, host)
            &&& end.stage == StageView::Finished(Ok(())) ==> end.isolated.contains(host)
            &&& end.stage == StageView::Pinning(host, guest, PinStageView::Attaching)
                ==> end.isolated.contains(host)
            &&& end.mount_path == cpusets.mount_path
            &&& end.prefix == cpusets.prefix
        }),
{
    run_keeps_pinning(cpusets.pinning(host, guest), cpusets.isolated, host, guest, replies);
}

/// No CPU is isolated twice.
pub proof fn pinning_keeps_isolated_distinct(
    cpusets: CpuSetView,
    host: usize,
    guest: usize,
    replies: Seq<ReplyView>,
)
    requires
        cpusets.isolated.no_duplicates(),
    ensures
        run(cpusets.pinning(host, guest), replies).isolated.no_duplicates(),
{
    pinning_isolates_its_cpu(cpusets, host, guest, replies);
    assert(forall|k: int|
        0 <= k < cpusets.isolated.len() && !cpusets.isolated.contains(host)
            ==> cpusets.isolated[k] != host);
}

/// A failure that is not tolerated ends a pinning with an error, and leaves the
/// isolated CPUs as they are.
pub proof fn failure_ends_pinning(
    cpusets: CpuSetView,
    host: usize,
    guest: usize,
    stage: PinStageView,
    error: ErrorView,
)
    requires
        cpusets.stage == StageView::Pinning(host, guest, stage),
        !crate::cpuset::is_tolerated(stage, error),
    ensures
        ({
            let end = cpusets.after(ReplyView::Failed(error));
            &&& end.next() == StepView::Finished(
                Err(
                    cpusets.pin_error(
                        host,
                        guest,
                        stage,
                        cpusets.replies.len() as int,
                        error,
                    ),
                ),
            )
            &&& end.isolated == cpusets.isolated
        }),
{
}

/// The write that moves a task to the CPU set of a host CPU.
pub open spec fn attaching(cpusets: CpuSetView, host: usize, guest: usize) -> ActionView {
    ActionView::Write(
        crate::path::joined(cpusets.thread_directory(host), "tasks"@),
        crate::text::decimal(guest as nat),
    )
}

/// The write that gives the CPU set of a host CPU its CPU.
pub open spec fn assigning(cpusets: CpuSetView, host: usize) -> ActionView {
    ActionView::Write(
        crate::path::joined(cpusets.thread_directory(host), "cpuset.cpus"@),
        crate::text::decimal(host as nat),
    )
}

/// Whether an action writes a list of CPUs to the pool that lacks a CPU.
pub open spec fn takes_from_pool(action: ActionView, host: usize) -> bool {
    exists|cpus: Seq<usize>|
        !(#[trigger] cpus.contains(host)) && action == ActionView::WriteString(
            crate::cpu_list::cpus_text(cpus),
        )
}

/// The rest of a pinning that succeeds ends with the move of the task.
#[verifier::spinoff_prover]
#[verifier::rlimit(50)]
proof fn rest_attaches_last(
    cpusets: CpuSetView,
    before: Seq<usize>,
    host: usize,
    guest: usize,
    replies: Seq<ReplyView>,
)
    requires
        cpusets.wf(),
        accepted(cpusets, replies),
        is_pinning(cpusets, before, host, guest),
        !(cpusets.stage is Finished),
        run(cpusets, replies).stage == StageView::Finished(Ok(())),
    ensures
        performed(cpusets, replies).len() > 0,
        performed(cpusets, replies).last() == attaching(cpusets, host, guest),
    decreases replies.len(),
{
    let next = cpusets.after(replies.first());
    let rest = replies.drop_first();
    reply_keeps_well_formed(cpusets, replies.first());
    reply_keeps_pinning(cpusets, before, host, guest, replies.first());
    if next.stage is Finished {
        finished_operation_is_settled(next, rest);
    } else {
        rest_attaches_last(next, before, host, guest, rest);
    }
}

/// A pinning that succeeds ends with writing the task to the CPU set of the
/// host CPU.
pub proof fn pinning_attaches_last(
    cpusets: CpuSetView,
    host: usize,
    guest: usize,
    replies: Seq<ReplyView>,
)
    requires
        accepted(cpusets.pinning(host, guest), replies),
        run(cpusets.pinning(host, guest), replies).stage == StageView::Finished(Ok(())),
    ensures
        ({
            let actions = performed(cpusets.pinning(host, guest), replies);
            actions.len() > 0 && actions.last() == attaching(cpusets, host, guest)
        }),
{
    let start = cpusets.pinning(host, guest);
    crate::cpuset::entered_stage_has_action(cpusets, start.stage);
    rest_attaches_last(start, cpusets.isolated, host, guest, replies);
}

/// The rest of a pinning that has not yet taken the host CPU out of the pool
/// takes it out, if it succeeds.
#[verifier::spinoff_prover]
#[verifier::rlimit(50)]
proof fn rest_takes_from_pool(
    cpusets: CpuSetView,
    before: Seq<usize>,
    host: usize,
    guest: usize,
    replies: Seq<ReplyView>,
)
    requires
        cpusets.wf(),
        accepted(cpusets, replies),
        is_pinning(cpusets, before, host, guest),
        !before.contains(host),
        stages_left(cpusets.stage) >= 3,
        run(cpusets, replies).stage == StageView::Finished(Ok(())),
    ensures
        exists|k: int|
            0 <= k < performed(cpusets, replies).len() && takes_from_pool(
                #[trigger] performed(cpusets, replies)[k],
                host,
            ),
    decreases replies.len(),
{
    let next = cpusets.after(replies.first());
    let rest = replies.drop_first();
    let actions = performed(cpusets, replies);
    reply_keeps_well_formed(cpusets, replies.first());
    reply_keeps_pinning(cpusets, before, host, guest, replies.first());
    if next.stage is Finished {
        finished_operation_is_settled(next, rest);
    } else if stages_left(next.stage) >= 3 {
        rest_takes_from_pool(next, before, host, guest, rest);
        let k = choose|k: int|
            0 <= k < performed(next, rest).len() && takes_from_pool(
                #[trigger] performed(next, rest)[k],
                host,
            );
        assert(actions[k + 1] == performed(next, rest)[k]);
    } else {
        let cpus = crate::cpuset::file_cpus(cpusets.replies, 2);
        crate::cpu_list::taken_cpu_is_gone(cpus, host);
        assert(actions[0] == ActionView::WriteString(
            crate::cpu_list::cpus_text(crate::cpu_list::without_cpu(cpus, host)),
        ));
        assert(takes_from_pool(actions[0], host));
    }
}

/// The rest of a pinning that has not yet set up the CPU set of the host CPU
/// gives it the CPU, if it succeeds.
#[verifier::spinoff_prover]
#[verifier::rlimit(50)]
proof fn rest_assigns_cpu(
    cpusets: CpuSetView,
    before: Seq<usize>,
    host: usize,
    guest: usize,
    replies: Seq<ReplyView>,
)
    requires
        cpusets.wf(),
        accepted(cpusets, replies),
        is_pinning(cpusets, before, host, guest),
        !before.contains(host),
        stages_left(cpusets.stage) >= 2,
        run(cpusets, replies).stage == StageView::Finished(Ok(())),
    ensures
        performed(cpusets, replies).contains(assigning(cpusets, host)),
    decreases replies.len(),
{
    let next = cpusets.after(replies.first());
    let rest = replies.drop_first();
    let actions = performed(cpusets, replies);
    reply_keeps_well_formed(cpusets, replies.first());
    reply_keeps_pinning(cpusets, before, host, guest, replies.first());
    if next.stage is Finished {
        finished_operation_is_settled(next, rest);
    } else if stages_left(next.stage) >= 2 {
        rest_assigns_cpu(next, before, host, guest, rest);
        let k = choose|k: int|
            0 <= k < performed(next, rest).len() && performed(next, rest)[k] == assigning(next, host);
        assert(actions[k + 1] == performed(next, rest)[k]);
    } else {
        assert(actions[0] == assigning(cpusets, host));
    }
}

/// A pinning that succeeds on a host CPU that was not isolated has taken this
/// CPU out of the pool and given it to a CPU set of its own.
pub proof fn pinning_moves_cpu_out_of_pool(
    cpusets: CpuSetView,
    host: usize,
    guest: usize,
    replies: Seq<ReplyView>,
)
    requires
        !cpusets.isolated.contains(host),
        accepted(cpusets.pinning(host, guest), replies),
        run(cpusets.pinning(host, guest), replies).stage == StageView::Finished(Ok(())),
    ensures
        ({
            let actions = performed(cpusets.pinning(host, guest), replies);
            &&& exists|k: int|
                0 <= k < actions.len() && takes_from_pool(#[trigger] actions[k], host)
            &&& actions.contains(assigning(cpusets, host))
        }),
{
    let start = cpusets.pinning(host, guest);
    crate::cpuset::entered_stage_has_action(cpusets, start.stage);
    rest_takes_from_pool(start, cpusets.isolated, host, guest, replies);
    rest_assigns_cpu(start, cpusets.isolated, host, guest, replies);
}

/// Putting two rows of actions together that write no list to the pool gives
/// another such row.
proof fn joined_rows_write_no_list(a: Seq<ActionView>, b: Seq<ActionView>)
    requires
        forall|k: int| 0 <= k < a.len() ==> !(#[trigger] a[k] is WriteString),
        forall|k: int| 0 <= k < b.len() ==> !(#[trigger] b[k] is WriteString),
    ensures
        forall|k: int| 0 <= k < (a + b).len() ==> !(#[trigger] (a + b)[k] is WriteString),
{
}

/// Setting up the CPU sets of the prefix and of the pool writes no list to the
/// pool.
proof fn configuring_writes_no_list(cpusets: CpuSetView, replies: Seq<ReplyView>)
    ensures
        forall|k: int|
            0 <= k < cpusets.configure_script(replies).len()
                ==> !(#[trigger] cpusets.configure_script(replies)[k] is WriteString),
{
    let start = seq![
        ActionView::CreateDirAll(cpusets.directory()),
        ActionView::Write(
            crate::path::joined(cpusets.directory(), "cpuset.cpu_exclusive"@),
            "1"@,
        ),
    ];
    let mems = cpusets.fill_script("cpuset.mems"@, replies, 2);
    let cpus_at = 2 + mems.len();
    let cpus = cpusets.fill_script("cpuset.cpus"@, replies, cpus_at as int);
    let pool = seq![
        ActionView::CreateDirAll(cpusets.pool_directory()),
        ActionView::Write(
            crate::path::joined(cpusets.pool_directory(), "cpuset.cpu_exclusive"@),
            "1"@,
        ),
    ];
    let pool_mems_at = cpus_at + cpus.len() + 2;
    let pool_mems = cpusets.copy_script(
        "cpuset.mems"@,
        crate::cpuset::filled(replies, 2),
        replies,
        pool_mems_at as int,
    );
    let pool_cpus = cpusets.copy_script(
        "cpuset.cpus"@,
        crate::cpuset::filled(replies, cpus_at as int),
        replies,
        (pool_mems_at + pool_mems.len()) as int,
    );
    joined_rows_write_no_list(start, mems);
    joined_rows_write_no_list(start + mems, cpus);
    joined_rows_write_no_list(start + mems + cpus, pool);
    joined_rows_write_no_list(start + mems + cpus + pool, pool_mems);
    joined_rows_write_no_list(start + mems + cpus + pool + pool_mems, pool_cpus);
}

/// The rest of a pinning to an isolated host CPU opens no file of the pool.
#[verifier::spinoff_prover]
#[verifier::rlimit(50)]
proof fn rest_leaves_pool_alone(
    cpusets: CpuSetView,
    before: Seq<usize>,
    host: usize,
    guest: usize,
    replies: Seq<ReplyView>,
)
    requires
        cpusets.wf(),
        accepted(cpusets, replies),
        is_pinning(cpusets, before, host, guest),
        before.contains(host),
    ensures
        forall|k: int|
            0 <= k < performed(cpusets, replies).len() ==> !(#[trigger] performed(
                cpusets,
                replies,
            )[k] is WriteString),
    decreases replies.len(),
{
    if replies.len() > 0 && !(cpusets.stage is Finished) {
        let next = cpusets.after(replies.first());
        let rest = replies.drop_first();
        let actions = performed(cpusets, replies);
        reply_keeps_well_formed(cpusets, replies.first());
        reply_keeps_pinning(cpusets, before, host, guest, replies.first());
        rest_leaves_pool_alone(next, before, host, guest, rest);
        configuring_writes_no_list(cpusets, cpusets.replies);
        assert(!(actions[0] is WriteString));
        assert forall|k: int| 0 <= k < actions.len() implies !(#[trigger] actions[k] is WriteString) by {
            if k > 0 {
                assert(actions[k] == performed(next, rest)[k - 1]);
            }
        }
    }
}

/// A host CPU that is isolated already is not taken out of the pool again: the
/// pinning never comes to the stages that split it off and prepare its CPU set,
/// writes no list to the pool, and leaves the isolated CPUs as they are.
pub proof fn isolated_cpu_is_not_taken_again(
    cpusets: CpuSetView,
    host: usize,
    guest: usize,
    replies: Seq<ReplyView>,
)
    requires
        cpusets.isolated.contains(host),
        accepted(cpusets.pinning(host, guest), replies),
    ensures
        ({
            let actions = performed(cpusets.pinning(host, guest), replies);
            forall|k: int| 0 <= k < actions.len() ==> !(#[trigger] actions[k] is WriteString)
        }),
        ({
            let end = run(cpusets.pinning(host, guest), replies);
            &&& end.isolated == cpusets.isolated
            &&& match end.stage {
                StageView::Pinning(_, _, PinStageView::Splitting) => false,
                StageView::Pinning(_, _, PinStageView::Preparing) => false,
                _ => true,
            }
        }),
{
    let start = cpusets.pinning(host, guest);
    crate::cpuset::entered_stage_has_action(cpusets, start.stage);
    run_keeps_pinning(start, cpusets.isolated, host, guest, replies);
    rest_leaves_pool_alone(start, cpusets.isolated, host, guest, replies);
}

/// A release keeps the isolated CPUs until it is finished. In the end none is
/// isolated any more, whatever happened on the way. Where the CPU sets are and how
/// they are named stays the same throughout.
pub proof fn release_ends_with_nothing_isolated(cpusets: CpuSetView, replies: Seq<ReplyView>)
    ensures
        ({
            let end = run(cpusets.releasing(), replies);
            &&& end.mount_path == cpusets.mount_path
            &&& end.prefix == cpusets.prefix
            &&& match end.stage {
                StageView::Finished(result) => end.isolated.len() == 0 && (result == Ok::<
                    (),
                    ErrorView,
                >(()) || result == crate::cpuset::release_result(true)),
                StageView::Releasing(at, _) => at < end.isolated.len() && end.isolated
                    == cpusets.isolated,
                StageView::Pinning(_, _, _) => false,
            }
        }),
{
    if cpusets.isolated.len() == 0 {
        finished_operation_is_settled(cpusets.releasing(), replies);
    } else {
        rest_of_release_empties(cpusets.releasing(), replies);
    }
}

/// The rest of a release keeps the isolated CPUs until its end, and the places and
/// names of the CPU sets.
proof fn rest_of_release_empties(cpusets: CpuSetView, replies: Seq<ReplyView>)
    requires
        cpusets.stage matches StageView::Releasing(at, _) && at < cpusets.isolated.len(),
    ensures
        ({
            let end = run(cpusets, replies);
            &&& end.mount_path == cpusets.mount_path
            &&& end.prefix == cpusets.prefix
            &&& match end.stage {
                StageView::Finished(result) => end.isolated.len() == 0 && (result == Ok::<
                    (),
                    ErrorView,
                >(()) || result == crate::cpuset::release_result(true)),
                StageView::Releasing(at, _) => at < end.isolated.len() && end.isolated
                    == cpusets.isolated,
                StageView::Pinning(_, _, _) => false,
            }
        }),
    decreases replies.len(),
{
    if replies.len() > 0 {
        let next = cpusets.after(replies.first());
        if next.stage is Finished {
            finished_operation_is_settled(next, replies.drop_first());
        } else {
            rest_of_release_empties(next, replies.drop_first());
        }
    }
}

/// Whether the isolated CPU at a place was released: its CPU set held no task
/// and was removed, and the CPU was added to the list that the pool had. It takes
/// seven actions to release a CPU.
///
/// `actions` are those of the whole release, and `replies` the replies to them.
pub open spec fn is_released(
    cpusets: CpuSetView,
    place: int,
    actions: Seq<ActionView>,
    replies: Seq<ReplyView>,
) -> bool {
    let start = 7 * place;
    let id = cpusets.isolated[place];
    &&& crate::text::trim(crate::exchange::text_at(replies, start)).len() == 0
    &&& actions[start + 1] == ActionView::RemoveDir(cpusets.thread_directory(id))
    &&& actions[start + 6] == ActionView::WriteString(
        crate::cpu_list::cpus_text(crate::cpuset::file_cpus(replies, start + 4).push(id)),
    )
}

/// Whether the isolated CPU at a place is released by the rest of a release that
/// is busy with the CPU at place `at`.
spec fn is_released_from(
    cpusets: CpuSetView,
    at: nat,
    place: int,
    actions: Seq<ActionView>,
    all: Seq<ReplyView>,
) -> bool {
    let done = cpusets.replies.len();
    let start = 7 * (place - at);
    let id = cpusets.isolated[place];
    &&& crate::text::trim(crate::exchange::text_at(all, start)).len() == 0
    &&& start + 1 >= done ==> actions[start + 1 - done] == ActionView::RemoveDir(
        cpusets.thread_directory(id),
    )
    &&& actions[start + 6 - done] == ActionView::WriteString(
        crate::cpu_list::cpus_text(crate::cpuset::file_cpus(all, start + 4).push(id)),
    )
}

/// The rest of a release that succeeds, from the action at place `done` of the
/// release of the isolated CPU at place `at`. `all` are the replies to the
/// actions of this CPU and of those behind it.
#[verifier::spinoff_prover]
#[verifier::rlimit(50)]
proof fn rest_of_release_succeeds(
    cpusets: CpuSetView,
    at: nat,
    errors: bool,
    replies: Seq<ReplyView>,
    all: Seq<ReplyView>,
)
    requires
        cpusets.wf(),
        accepted(cpusets, replies),
        cpusets.stage == StageView::Releasing(at, errors),
        all == cpusets.replies + replies,
        run(cpusets, replies).stage == StageView::Finished(Ok(())),
    ensures
        ({
            let actions = performed(cpusets, replies);
            let done = cpusets.replies.len();
            &&& !errors
            &&& done + actions.len() == 7 * (cpusets.isolated.len() - at)
            &&& actions.len() <= replies.len()
            &&& forall|k: int| 0 <= k < actions.len() ==> !(#[trigger] replies[k] is Failed)
            &&& forall|place: int|
                at <= place < cpusets.isolated.len() ==> #[trigger] is_released_from(
                    cpusets,
                    at,
                    place,
                    actions,
                    all,
                )
        }),
    decreases replies.len(),
{
    let reply = replies.first();
    let rest = replies.drop_first();
    let next = cpusets.after(reply);
    let actions = performed(cpusets, replies);
    let done = cpusets.replies.len();
    let now = cpusets.replies.push(reply);
    reply_keeps_well_formed(cpusets, reply);
    assert(all[done as int] == reply);
    assert(forall|k: int| 0 <= k < now.len() ==> now[k] == #[trigger] all[k]);
    assert(forall|k: int| 0 <= k < rest.len() ==> #[trigger] rest[k] == replies[k + 1]);
    assert(forall|k: int|
        0 < k < actions.len() ==> #[trigger] actions[k] == performed(next, rest)[k - 1]);
    assert(forall|k: int| 0 < k < replies.len() ==> #[trigger] replies[k] == rest[k - 1]);
    if next.stage is Finished {
        finished_operation_is_settled(next, rest);
        assert(now.len() == 7);
        assert(is_released_from(cpusets, at, at as int, actions, all));
    } else if next.replies.len() > 0 {
        assert(next.replies + rest =~= all);
        rest_of_release_succeeds(next, at, errors, rest, all);
        assert forall|place: int| at <= place < cpusets.isolated.len() implies #[trigger]
            is_released_from(cpusets, at, place, actions, all) by {
            assert(is_released_from(next, at, place, performed(next, rest), all));
        }
    } else {
        let failed = errors || reply is Failed || crate::text::trim(
            crate::exchange::text_at(now, 0),
        ).len() > 0;
        assert(next.replies + rest =~= rest);
        rest_of_release_succeeds(next, at + 1, failed, rest, rest);
        assert(now.len() == 7);
        assert(is_released_from(cpusets, at, at as int, actions, all));
        assert forall|place: int| at <= place < cpusets.isolated.len() implies #[trigger]
            is_released_from(cpusets, at, place, actions, all) by {
            if place > at {
                let start = 7 * (place - at);
                let later = 7 * (place - (at + 1));
                assert(is_released_from(next, at + 1, place, performed(next, rest), rest));
                assert(later == start - 7);
                assert(crate::exchange::text_at(all, start) == crate::exchange::text_at(
                    rest,
                    later,
                ));
                assert(crate::exchange::text_at(all, start + 4) == crate::exchange::text_at(
                    rest,
                    later + 4,
                ));
            }
        }
    }
}

/// A release that succeeds has released every isolated CPU, one after the other,
/// and nothing has failed.
pub proof fn successful_release_releases_all(cpusets: CpuSetView, replies: Seq<ReplyView>)
    requires
        accepted(cpusets.releasing(), replies),
        run(cpusets.releasing(), replies).stage == StageView::Finished(Ok(())),
    ensures
        ({
            let actions = performed(cpusets.releasing(), replies);
            &&& actions.len() == 7 * cpusets.isolated.len()
            &&& actions.len() <= replies.len()
            &&& forall|k: int| 0 <= k < actions.len() ==> !(#[trigger] replies[k] is Failed)
            &&& forall|place: int|
                0 <= place < cpusets.isolated.len() ==> #[trigger] is_released(
                    cpusets,
                    place,
                    actions,
                    replies,
                )
        }),
{
    let start = cpusets.releasing();
    if cpusets.isolated.len() == 0 {
        finished_operation_is_settled(start, replies);
    } else {
        crate::cpuset::entered_stage_has_action(cpusets, start.stage);
        assert(start.replies + replies =~= replies);
        rest_of_release_succeeds(start, 0, false, replies, replies);
        let actions = performed(start, replies);
        assert forall|place: int| 0 <= place < cpusets.isolated.len() implies #[trigger] is_released(
            cpusets,
            place,
            actions,
            replies,
        ) by {
            assert(is_released_from(start, 0, place, actions, replies));
        }
    }
}

/// Whether a reply to an action of a release keeps a CPU from being released: the
/// action failed, or a task is still there.
pub open spec fn hinders_release(action: ActionView, reply: ReplyView) -> bool {
    reply is Failed || (action is ReadLine && crate::text::trim(
        crate::exchange::reply_text(reply),
    ).len() > 0)
}

/// The rest of a release that ends with an error had a reason.
#[verifier::spinoff_prover]
#[verifier::rlimit(50)]
proof fn rest_of_release_fails(
    cpusets: CpuSetView,
    at: nat,
    errors: bool,
    replies: Seq<ReplyView>,
)
    requires
        cpusets.wf(),
        accepted(cpusets, replies),
        cpusets.stage == StageView::Releasing(at, errors),
        run(cpusets, replies).stage is Finished,
        run(cpusets, replies).stage->Finished_0 is Err,
    ensures
        performed(cpusets, replies).len() <= replies.len(),
        errors || exists|k: int|
            0 <= k < performed(cpusets, replies).len() && hinders_release(
                #[trigger] performed(cpusets, replies)[k],
                replies[k],
            ),
    decreases replies.len(),
{
    let reply = replies.first();
    let rest = replies.drop_first();
    let next = cpusets.after(reply);
    let actions = performed(cpusets, replies);
    let now = cpusets.replies.push(reply);
    reply_keeps_well_formed(cpusets, reply);
    assert(cpusets.replies.len() > 0 ==> now[0] == cpusets.replies[0]);
    assert(actions[0] == cpusets.script(cpusets.replies)[cpusets.replies.len() as int]);
    if hinders_release(actions[0], reply) {
        assert(replies[0] == reply);
    }
    if next.stage is Finished {
        finished_operation_is_settled(next, rest);
    } else {
        let later = next.stage->Releasing_1;
        rest_of_release_fails(next, next.stage->Releasing_0, later, rest);
        if !later {
            let k = choose|k: int|
                0 <= k < performed(next, rest).len() && hinders_release(
                    #[trigger] performed(next, rest)[k],
                    rest[k],
                );
            assert(actions[k + 1] == performed(next, rest)[k]);
            assert(replies[k + 1] == rest[k]);
        }
    }
}

/// A release ends with an error only if an action failed or a task was still
/// there.
pub proof fn failed_release_had_a_reason(cpusets: CpuSetView, replies: Seq<ReplyView>)
    requires
        accepted(cpusets.releasing(), replies),
        run(cpusets.releasing(), replies).stage is Finished,
        run(cpusets.releasing(), replies).stage->Finished_0 is Err,
    ensures
        ({
            let actions = performed(cpusets.releasing(), replies);
            &&& actions.len() <= replies.len()
            &&& exists|k: int|
                0 <= k < actions.len() && hinders_release(#[trigger] actions[k], replies[k])
        }),
{
    let start = cpusets.releasing();
    if cpusets.isolated.len() == 0 {
        finished_operation_is_settled(start, replies);
    } else {
        crate::cpuset::entered_stage_has_action(cpusets, start.stage);
        rest_of_release_fails(start, 0, false, replies);
    }
}

/// A pinning that ends with an error does so on a failure, and says what it was.
pub proof fn failed_pinning_had_a_reason(cpusets: CpuSetView, replies: Seq<ReplyView>)
    requires
        cpusets.stage is Pinning,
        run(cpusets, replies).stage is Finished,
        run(cpusets, replies).stage->Finished_0 is Err,
    ensures
        exists|k: int| #[trigger]
            ends_pinning(run(cpusets, replies.take(k)), replies[k], run(cpusets, replies)) && 0 <= k
                < replies.len(),
    decreases replies.len(),
{
    let reply = replies.first();
    let rest = replies.drop_first();
    let next = cpusets.after(reply);
    if next.stage is Finished {
        finished_operation_is_settled(next, rest);
        assert(replies.take(0) =~= Seq::<ReplyView>::empty());
        assert(ends_pinning(run(cpusets, replies.take(0)), replies[0], run(cpusets, replies)));
    } else {
        failed_pinning_had_a_reason(next, rest);
        let k = choose|k: int| #[trigger]
            ends_pinning(run(next, rest.take(k)), rest[k], run(next, rest)) && 0 <= k < rest.len();
        assert(replies.take(k + 1).drop_first() =~= rest.take(k));
        assert(replies.take(k + 1).first() == reply);
        assert(ends_pinning(
            run(cpusets, replies.take(k + 1)),
            replies[k + 1],
            run(cpusets, replies),
        ));
    }
}

/// Whether a reply ends a pinning with the error that reports it.
pub open spec fn ends_pinning(before: CpuSetView, reply: ReplyView, end: CpuSetView) -> bool {
    match (before.stage, reply) {
        (
            StageView::Pinning(host, guest, stage),
            ReplyView::Failed(error),
        ) => !crate::cpuset::is_tolerated(stage, error) && end.stage == StageView::Finished(
            Err(before.pin_error(host, guest, stage, before.replies.len() as int, error)),
        ),
        _ => false,
    }
}

/// The cpuset file system is mounted if it is not, and only then.
pub proof fn file_system_is_mounted_if_needed(
    cpusets: CpuSetView,
    host: usize,
    guest: usize,
    created: ReplyView,
    mounted: ReplyView,
)
    requires
        !(created is Failed),
        !(mounted is Failed),
    ensures
        ({
            let start = cpusets.pinning(host, guest);
            let asked = run(start, seq![created, mounted]);
            &&& start.next() == StepView::Perform(ActionView::CreateDirAll(cpusets.mount_path))
            &&& run(start, seq![created]).next() == StepView::Perform(
                ActionView::SourceMountedAt("cgroup"@, cpusets.mount_path),
            )
            &&& mounted == ReplyView::Flag(true) ==> asked == cpusets.entering(
                StageView::Pinning(host, guest, PinStageView::Configuring),
            )
            &&& mounted != ReplyView::Flag(true) ==> asked.next() == StepView::Perform(
                ActionView::Mount(cpusets.mount_path),
            )
        }),
{
    let start = cpusets.pinning(host, guest);
    let one = seq![created];
    let two = seq![created, mounted];
    assert(one.drop_first() =~= Seq::<ReplyView>::empty());
    assert(two.drop_first() =~= seq![mounted]);
    assert(seq![mounted].drop_first() =~= Seq::<ReplyView>::empty());
    reveal_with_fuel(run, 3);
    let after_one = start.after(created);
    assert(after_one.replies =~= seq![created]);
    assert(run(start, one) == after_one);
    assert(run(start, two) == after_one.after(mounted));
    assert(after_one.replies.push(mounted) =~= two);
}

/// A task is moved to the pool if it may run on the CPUs of the pool and on no
/// others; if not, or if that cannot be told, it stays where it is.
pub proof fn task_moves_if_it_belongs_to_pool(
    cpusets: CpuSetView,
    host: usize,
    guest: usize,
    at: nat,
    status: ReplyView,
)
    requires
        cpusets.stage == StageView::Pinning(host, guest, PinStageView::Migrating(at)),
        cpusets.replies.len() == 0,
    ensures
        ({
            let task = cpusets.tasks[at as int];
            let cpus = crate::task_status::allowed_cpus(
                task,
                crate::exchange::reply_text(status),
            );
            let belongs = !(status is Failed) && cpus == Ok::<Seq<usize>, ErrorView>(cpusets.pool);
            let next = cpusets.after(status);
            if belongs {
                next.next() == StepView::Perform(
                    ActionView::Write(
                        crate::path::joined(cpusets.pool_directory(), "tasks"@),
                        task,
                    ),
                )
            } else {
                next == cpusets.after_pin_stage(
                    host,
                    guest,
                    PinStageView::Migrating(at),
                    Seq::<ReplyView>::empty(),
                )
            }
        }),
{
    let replies = cpusets.replies.push(status);
    assert(crate::exchange::text_at(replies, 0) == crate::exchange::reply_text(status));
}

/// A host CPU that the pool lists once, and that is taken out of the pool and
/// later given back, leaves the pool with the same CPUs, each listed as often as
/// before, if nobody else changes the list in between. The list that is written
/// first lacks the CPU. The one that is written last is the first one with the
/// CPU at its end.
///
/// `split` are the replies when the CPU is taken out, and `returned` those when it
/// is given back.
pub proof fn return_undoes_split(
    cpusets: CpuSetView,
    id: usize,
    split: Seq<ReplyView>,
    returned: Seq<ReplyView>,
)
    requires
        crate::cpuset::file_cpus(split, 2).to_multiset().count(id) == 1,
        crate::text::trim(crate::exchange::text_at(returned, 0)).len() == 0,
        cpusets.split_script(id, split)[4] == ActionView::WriteString(
            crate::exchange::text_at(returned, 4),
        ),
    ensures
        ({
            let before = crate::cpuset::file_cpus(split, 2);
            let between = crate::cpuset::file_cpus(returned, 4);
            let last = cpusets.release_script(id, returned)[6];
            let written = last->WriteString_0;
            let after = crate::cpu_list::listed_cpus(crate::text::trim(written));
            &&& between == crate::cpu_list::without_cpu(before, id)
            &&& !between.contains(id)
            &&& last is WriteString
            &&& written == if between.len() == 0 {
                crate::text::decimal(id as nat)
            } else {
                crate::exchange::text_at(returned, 4) + ","@ + crate::text::decimal(id as nat)
            }
            &&& after == Some(between.push(id))
            &&& after->0.to_multiset() == before.to_multiset()
            &&& forall|cpu: usize| #[trigger]
                after->0.contains(cpu) <==> before.contains(cpu)
        }),
{
    let before = crate::cpuset::file_cpus(split, 2);
    let rest = crate::cpu_list::without_cpu(before, id);
    crate::cpu_list::written_file_is_read_back(rest);
    crate::cpu_list::returned_cpu_restores_counts(before, id);
    crate::cpu_list::appended_cpu_is_written_last(rest, id);
    crate::cpu_list::written_file_is_read_back(rest.push(id));
    before.to_multiset_ensures();
    assert(before.contains(id));
    crate::cpu_list::returned_cpu_restores_list(before, id);
}

/// What a failure does to a pinning. A task that cannot be moved to the pool is
/// passed over, and a CPU set of the host CPU that does not exist yet is no
/// obstacle. Any other failure ends the pinning with an error that names the host
/// CPU, or the task and the host CPU once the task is to be moved, and says what
/// failed.
pub proof fn failures_during_pinning(
    cpusets: CpuSetView,
    host: usize,
    guest: usize,
    stage: PinStageView,
    error: ErrorView,
)
    requires
        cpusets.stage == StageView::Pinning(host, guest, stage),
    ensures
        ({
            let after = cpusets.after(ReplyView::Failed(error));
            let goes_on = |next: PinStageView|
                after == cpusets.entering(StageView::Pinning(host, guest, next));
            let ends = |message: Seq<char>|
                after == cpusets.entering(
                    StageView::Finished(
                        Err(ErrorView { kind: crate::error::ErrorKind::Other, message }),
                    ),
                );
            let isolating = "Failed to isolate the host cpu thread `"@ + crate::text::decimal(
                host as nat,
            ) + "` - "@;
            match stage {
                PinStageView::Migrating(at) => if at + 1 < cpusets.tasks.len() {
                    goes_on(PinStageView::Migrating(at + 1))
                } else {
                    goes_on(PinStageView::Checking)
                },
                PinStageView::Checking => if error.kind == crate::error::ErrorKind::NotFound {
                    if cpusets.isolated.contains(host) {
                        goes_on(PinStageView::Attaching)
                    } else {
                        goes_on(PinStageView::Splitting)
                    }
                } else {
                    ends(isolating + error.message)
                },
                PinStageView::Mounting => if cpusets.replies.len() == 1 {
                    ends(
                        isolating + ("An error occurred while reading mounts: "@ + error.message),
                    )
                } else if cpusets.replies.len() == 2 {
                    ends(
                        isolating + ("Failed to mount cpuset to `"@ + cpusets.mount_path + "`: "@
                            + error.message),
                    )
                } else {
                    ends(isolating + error.message)
                },
                PinStageView::Attaching => ends(
                    "Failed to pin the process id `"@ + crate::text::decimal(guest as nat)
                        + "` to the host cpu thread `"@ + crate::text::decimal(host as nat)
                        + "` - "@ + error.message,
                ),
                _ => ends(isolating + error.message),
            }
        }),
{
}

/// CPU sets can be had below an absolute mount point and a prefix that is one
/// component of a path. They start without isolated CPUs. Otherwise the input is
/// refused, the mount point first.
pub proof fn mount_point_and_prefix_are_checked(path: Seq<char>, prefix: Seq<char>)
    ensures
        ({
            let found = crate::cpuset::new_cpuset(path, prefix);
            let refused = |message: Seq<char>|
                found == Err::<CpuSetView, ErrorView>(
                    ErrorView { kind: crate::error::ErrorKind::InvalidInput, message },
                );
            if path.len() == 0 || path[0] != '/' {
                refused("A mount point path must be absolute, got: `"@ + path + "`."@)
            } else if crate::path::component_count(prefix) != 1 {
                refused(
                    "A mount point prefix can not contain path separators, got: `"@ + prefix
                        + "`."@,
                )
            } else {
                &&& found is Ok
                &&& found->Ok_0.mount_path == path
                &&& found->Ok_0.prefix == prefix
                &&& found->Ok_0.isolated.len() == 0
                &&& found->Ok_0.next() == StepView::Finished(Ok(()))
            }
        }),
        path.len() > 0 && path[0] == '/' && prefix.len() > 0 && !prefix.contains('/')
            ==> crate::cpuset::new_cpuset(path, prefix) is Ok,
{
    if prefix.len() > 0 && !prefix.contains('/') {
        crate::path::name_is_one_component(prefix, Seq::<char>::empty());
    }
}

/// The rest of a pinning that has not yet taken the host CPU out of the pool takes
/// it out before it gives the CPU to a CPU set of its own, if it succeeds.
#[verifier::spinoff_prover]
#[verifier::rlimit(50)]
proof fn rest_takes_before_it_gives(
    cpusets: CpuSetView,
    before: Seq<usize>,
    host: usize,
    guest: usize,
    replies: Seq<ReplyView>,
)
    requires
        cpusets.wf(),
        accepted(cpusets, replies),
        is_pinning(cpusets, before, host, guest),
        !before.contains(host),
        stages_left(cpusets.stage) >= 3,
        run(cpusets, replies).stage == StageView::Finished(Ok(())),
    ensures
        exists|i: int, j: int| #[trigger]
            is_taken_and_given(cpusets, performed(cpusets, replies), host, i, j),
    decreases replies.len(),
{
    let next = cpusets.after(replies.first());
    let rest = replies.drop_first();
    let actions = performed(cpusets, replies);
    let later = performed(next, rest);
    reply_keeps_well_formed(cpusets, replies.first());
    reply_keeps_pinning(cpusets, before, host, guest, replies.first());
    if next.stage is Finished {
        finished_operation_is_settled(next, rest);
    } else {
        assert(forall|k: int| 0 <= k < later.len() ==> actions[k + 1] == #[trigger] later[k]);
        if stages_left(next.stage) >= 3 {
            rest_takes_before_it_gives(next, before, host, guest, rest);
            let (i, j) = choose|i: int, j: int| #[trigger]
                is_taken_and_given(next, later, host, i, j);
            assert(actions[i + 1] == later[i]);
            assert(actions[j + 1] == later[j]);
            assert(is_taken_and_given(cpusets, actions, host, i + 1, j + 1));
        } else {
            let cpus = crate::cpuset::file_cpus(cpusets.replies, 2);
            crate::cpu_list::taken_cpu_is_gone(cpus, host);
            assert(actions[0] == ActionView::WriteString(
                crate::cpu_list::cpus_text(crate::cpu_list::without_cpu(cpus, host)),
            ));
            assert(takes_from_pool(actions[0], host));
            rest_assigns_cpu(next, before, host, guest, rest);
            let j = choose|j: int| 0 <= j < later.len() && later[j] == assigning(next, host);
            assert(actions[j + 1] == later[j]);
            assert(is_taken_and_given(cpusets, actions, host, 0, j + 1));
        }
    }
}

/// Whether a host CPU is taken out of the pool at one place and given to its own CPU
/// set at a later one.
pub open spec fn is_taken_and_given(
    cpusets: CpuSetView,
    actions: Seq<ActionView>,
    host: usize,
    i: int,
    j: int,
) -> bool {
    0 <= i < j < actions.len() && takes_from_pool(actions[i], host) && actions[j] == assigning(
        cpusets,
        host,
    )
}

/// A pinning that succeeds on a host CPU that was not isolated takes the CPU out of
/// the pool, gives it to a CPU set of its own, and moves the task there, in this
/// order: two CPU sets cannot have the CPU for themselves at the same time.
pub proof fn cpu_leaves_pool_before_it_is_given(
    cpusets: CpuSetView,
    host: usize,
    guest: usize,
    replies: Seq<ReplyView>,
)
    requires
        !cpusets.isolated.contains(host),
        accepted(cpusets.pinning(host, guest), replies),
        run(cpusets.pinning(host, guest), replies).stage == StageView::Finished(Ok(())),
    ensures
        ({
            let actions = performed(cpusets.pinning(host, guest), replies);
            &&& exists|i: int, j: int| #[trigger]
                is_taken_and_given(cpusets, actions, host, i, j) && j < actions.len() - 1
            &&& actions[actions.len() - 1] == attaching(cpusets, host, guest)
        }),
{
    let start = cpusets.pinning(host, guest);
    let actions = performed(start, replies);
    crate::cpuset::entered_stage_has_action(cpusets, start.stage);
    rest_takes_before_it_gives(start, cpusets.isolated, host, guest, replies);
    pinning_attaches_last(cpusets, host, guest, replies);
    let (i, j) = choose|i: int, j: int| #[trigger] is_taken_and_given(start, actions, host, i, j);
    assert(is_taken_and_given(cpusets, actions, host, i, j));
    let directory = cpusets.thread_directory(host);
    assert(attaching(cpusets, host, guest) != assigning(cpusets, host)) by {
        reveal_strlit("tasks");
        reveal_strlit("cpuset.cpus");
        let tasks = crate::path::joined(directory, "tasks"@);
        let cpus = crate::path::joined(directory, "cpuset.cpus"@);
        assert(tasks[tasks.len() - 2] == 'k');
        assert(cpus[cpus.len() - 2] == 'u');
    }
}

/// A failure during a release is noted, and the next isolated CPU has its turn. When
/// all of them had theirs, none counts as isolated, and the release ends with an
/// error.
pub proof fn failures_during_release(
    cpusets: CpuSetView,
    at: nat,
    errors: bool,
    error: ErrorView,
)
    requires
        cpusets.stage == StageView::Releasing(at, errors),
    ensures
        ({
            let after = cpusets.after(ReplyView::Failed(error));
            if at + 1 < cpusets.isolated.len() {
                after == cpusets.entering(StageView::Releasing(at + 1, true))
            } else {
                &&& after.isolated.len() == 0
                &&& after.next() == StepView::Finished(
                    Err(
                        ErrorView {
                            kind: crate::error::ErrorKind::Other,
                            message: "Failed to release some of the pinned threads."@,
                        },
                    ),
                )
            }
        }),
{
}

/// The only replies that cannot be made use of are lists of CPUs that are malformed,
/// where such a list is read: that of the pool, and that in the status of a task.
pub proof fn malformed_lists_cannot_be_used(cpusets: CpuSetView, reply: ReplyView)
    ensures
        ({
            let n = cpusets.replies.len();
            let text = match reply {
                ReplyView::Text(text) => text,
                _ => Seq::<char>::empty(),
            };
            let pool = crate::cpu_list::listed_cpus(crate::text::trim(text)) is Some;
            cpusets.accepts(reply) <==> match cpusets.stage {
                StageView::Pinning(_, _, PinStageView::Listing) => n != 0 || pool,
                StageView::Pinning(_, _, PinStageView::Splitting) => n != 2 || pool,
                StageView::Releasing(_, _) => n != 4 || pool,
                StageView::Pinning(_, _, PinStageView::Migrating(_)) => n != 0 || match
                    crate::task_status::allowed_list(text) {
                    Ok(list) => crate::cpu_list::listed_cpus(list) is Some,
                    Err(_) => true,
                },
                _ => true,
            }
        }),
{
}

} // verus!
