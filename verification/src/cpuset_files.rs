//! What operations on CPU sets do to the files, if nothing fails and nobody else
//! changes the files meanwhile.
use crate::cpuset::{ActionView, CpuSetView, PinStageView, StageView};
use crate::exchange::ReplyView;
use vstd::prelude::*;

verus! {

/// The files that operations on CPU sets work on.
pub struct World {
    /// The contents of the files, by their paths.
    pub files: Map<Seq<char>, Seq<char>>,
    /// The path of the open file.
    pub open: Seq<char>,
    /// Whether the open file is locked.
    pub locked: bool,
    /// Whether an open file was read or changed that was not locked.
    pub careless: bool,
    /// Where the cpuset file system is mounted.
    pub mounted: Set<Seq<char>>,
    /// The directories that were created.
    pub created: Set<Seq<char>>,
    /// The directories that were removed.
    pub removed: Set<Seq<char>>,
    /// What was written to files by their paths, in this order.
    pub written: Seq<(Seq<char>, Seq<char>)>,
}

/// The text up to the end of its first line.
pub open spec fn first_line(text: Seq<char>) -> Seq<char>
    decreases text.len(),
{
    if text.len() == 0 {
        text
    } else if text.drop_last().contains('\n') {
        first_line(text.drop_last())
    } else {
        text
    }
}

impl World {
    /// The reply to an action.
    pub open spec fn answer(self, action: ActionView) -> ReplyView {
        match action {
            ActionView::ReadToString(path) => ReplyView::Text(self.files[path]),
            ActionView::ReadLine(path) => ReplyView::Text(first_line(self.files[path])),
            ActionView::ReadString => ReplyView::Text(self.files[self.open]),
            ActionView::SourceMountedAt(_, path) => ReplyView::Flag(self.mounted.contains(path)),
            _ => ReplyView::Done,
        }
    }

    /// The files after an action.
    pub open spec fn changed(self, action: ActionView) -> World {
        match action {
            ActionView::CreateDirAll(path) => World { created: self.created.insert(path), ..self },
            ActionView::RemoveDir(path) => World { removed: self.removed.insert(path), ..self },
            ActionView::Write(path, text) => World {
                files: self.files.insert(path, text),
                written: self.written.push((path, text)),
                ..self
            },
            ActionView::Mount(path) => World { mounted: self.mounted.insert(path), ..self },
            ActionView::Open(path) => World { open: path, locked: false, ..self },
            ActionView::Lock => World { locked: true, ..self },
            ActionView::ReadString => World { careless: self.careless || !self.locked, ..self },
            ActionView::Trim => World {
                files: self.files.insert(self.open, Seq::<char>::empty()),
                careless: self.careless || !self.locked,
                ..self
            },
            ActionView::WriteString(text) => World {
                files: self.files.insert(self.open, self.files[self.open] + text),
                careless: self.careless || !self.locked,
                ..self
            },
            _ => self,
        }
    }
}

/// The CPU sets and the files after some actions. A finished operation performs
/// none.
#[verifier::opaque]
pub open spec fn worked(cpusets: CpuSetView, world: World, n: nat) -> (CpuSetView, World)
    decreases n,
{
    if n == 0 || cpusets.stage is Finished {
        (cpusets, world)
    } else {
        let action = cpusets.next()->Perform_0;
        worked(cpusets.after(world.answer(action)), world.changed(action), (n - 1) as nat)
    }
}

/// Work that is interrupted is taken up where it stood.
proof fn work_goes_on(cpusets: CpuSetView, world: World, a: nat, b: nat)
    ensures
        ({
            let (later, changed) = worked(cpusets, world, a);
            worked(cpusets, world, a + b) == worked(later, changed, b)
        }),
    decreases a,
{
    reveal_with_fuel(worked, 1);
    if a > 0 && !(cpusets.stage is Finished) {
        let action = cpusets.next()->Perform_0;
        work_goes_on(
            cpusets.after(world.answer(action)),
            world.changed(action),
            (a - 1) as nat,
            b,
        );
    } else if cpusets.stage is Finished {
        assert(worked(cpusets, world, a + b) == (cpusets, world));
        assert(worked(cpusets, world, b) == (cpusets, world));
    }
}

/// The same CPU sets with other replies.
spec fn with_replies(cpusets: CpuSetView, replies: Seq<ReplyView>) -> CpuSetView {
    CpuSetView { replies, ..cpusets }
}

/// The script of the stage that sets up the prefix and the pool.
#[verifier::opaque]
spec fn setup(cpusets: CpuSetView, replies: Seq<ReplyView>) -> Seq<ActionView> {
    cpusets.configure_script(replies)
}

/// One action in the middle of the stage that sets up the prefix and the pool.
proof fn configuring_goes_on(
    cpusets: CpuSetView,
    replies: Seq<ReplyView>,
    world: World,
    action: ActionView,
)
    requires
        cpusets.stage matches StageView::Pinning(_, _, PinStageView::Configuring),
        replies.len() < setup(cpusets, replies).len(),
        action == setup(cpusets, replies)[replies.len() as int],
        replies.len() + 1 < setup(cpusets, replies.push(world.answer(action))).len(),
    ensures
        worked(with_replies(cpusets, replies), world, 1) == (
            with_replies(cpusets, replies.push(world.answer(action))),
            world.changed(action),
        ),
{
    reveal(setup);
    let now = with_replies(cpusets, replies);
    let reply = world.answer(action);
    assert(now.script(replies) == cpusets.configure_script(replies));
    assert(now.script(replies.push(reply)) == cpusets.configure_script(replies.push(reply)));
    assert(now.after(reply) == with_replies(cpusets, replies.push(reply)));
    reveal_with_fuel(worked, 2);
}

/// Whether a row of actions goes on with others at a place.
spec fn goes_on(script: Seq<ActionView>, at: int, part: Seq<ActionView>) -> bool {
    &&& 0 <= at
    &&& at + part.len() <= script.len()
    &&& forall|i: int| 0 <= i < part.len() ==> script[at + i] == #[trigger] part[i]
}

/// Whether the file that was read at a place is blank.
spec fn is_blank(replies: Seq<ReplyView>, at: int) -> bool {
    crate::text::trim(crate::exchange::text_at(replies, at)).len() == 0
}

/// The parts of the script that sets up the prefix and the pool.
proof fn configuring_in_parts(cpusets: CpuSetView, replies: Seq<ReplyView>)
    ensures
        ({
            let script = setup(cpusets, replies);
            let mems = cpusets.fill_script("cpuset.mems"@, replies, 2);
            let cpus_at = 2int + mems.len();
            let cpus = cpusets.fill_script("cpuset.cpus"@, replies, cpus_at);
            let pool_at = cpus_at + cpus.len();
            let pool_mems_at = pool_at + 2;
            let pool_mems = cpusets.copy_script(
                "cpuset.mems"@,
                crate::cpuset::filled(replies, 2),
                replies,
                pool_mems_at,
            );
            let pool_cpus_at = pool_mems_at + pool_mems.len();
            let pool_cpus = cpusets.copy_script(
                "cpuset.cpus"@,
                crate::cpuset::filled(replies, cpus_at),
                replies,
                pool_cpus_at,
            );
            &&& script[0] == ActionView::CreateDirAll(cpusets.directory())
            &&& script[1] == ActionView::Write(
                crate::path::joined(cpusets.directory(), "cpuset.cpu_exclusive"@),
                "1"@,
            )
            &&& goes_on(script, 2, mems)
            &&& goes_on(script, cpus_at, cpus)
            &&& script[pool_at] == ActionView::CreateDirAll(cpusets.pool_directory())
            &&& script[pool_at + 1] == ActionView::Write(
                crate::path::joined(cpusets.pool_directory(), "cpuset.cpu_exclusive"@),
                "1"@,
            )
            &&& goes_on(script, pool_mems_at, pool_mems)
            &&& goes_on(script, pool_cpus_at, pool_cpus)
            &&& script.len() == pool_cpus_at + pool_cpus.len()
            &&& mems.len() == if is_blank(replies, 2) { 3int } else { 1int }
            &&& cpus.len() == if is_blank(replies, cpus_at) { 3int } else { 1int }
            &&& pool_mems.len() == if is_blank(replies, pool_mems_at) { 2int } else { 1int }
            &&& pool_cpus.len() == if is_blank(replies, pool_cpus_at) { 2int } else { 1int }
        }),
{
    reveal(setup);
}

/// Whether the script that sets up the prefix and the pool fills a file of the
/// prefix at a place, and goes on behind that.
spec fn fills(cpusets: CpuSetView, replies: Seq<ReplyView>, name: Seq<char>, at: int) -> bool {
    let script = setup(cpusets, replies);
    let part = cpusets.fill_script(name, replies, at);
    goes_on(script, at, part) && at + part.len() < script.len()
}

/// Whether the script that sets up the prefix and the pool copies a text to a file
/// of the pool at a place.
spec fn copies(
    cpusets: CpuSetView,
    replies: Seq<ReplyView>,
    name: Seq<char>,
    data: Seq<char>,
    at: int,
) -> bool {
    goes_on(setup(cpusets, replies), at, cpusets.copy_script(name, data, replies, at))
}

/// The files after a file of the prefix was filled if it was blank.
spec fn prefix_filled(cpusets: CpuSetView, world: World, name: Seq<char>) -> World {
    let path = crate::path::joined(cpusets.directory(), name);
    if crate::text::trim(world.files[path]).len() == 0 {
        world.changed(
            ActionView::Write(
                path,
                crate::text::trim(world.files[crate::path::joined(cpusets.mount_path, name)]),
            ),
        )
    } else {
        world
    }
}

/// The replies when a file of the prefix was filled if it was blank.
spec fn fill_replies(
    cpusets: CpuSetView,
    replies: Seq<ReplyView>,
    world: World,
    name: Seq<char>,
) -> Seq<ReplyView> {
    let own = world.files[crate::path::joined(cpusets.directory(), name)];
    let read = replies.push(ReplyView::Text(own));
    if crate::text::trim(own).len() == 0 {
        read.push(
            ReplyView::Text(world.files[crate::path::joined(cpusets.mount_path, name)]),
        ).push(ReplyView::Done)
    } else {
        read
    }
}

/// A file of the prefix is filled if it is blank.
proof fn prefix_is_filled(
    cpusets: CpuSetView,
    replies: Seq<ReplyView>,
    world: World,
    name: Seq<char>,
)
    requires
        cpusets.stage matches StageView::Pinning(_, _, PinStageView::Configuring),
        forall|more: Seq<ReplyView>|
            more.len() >= replies.len() && more.take(replies.len() as int) == replies
                ==> #[trigger] fills(cpusets, more, name, replies.len() as int),
    ensures
        ({
            let end = fill_replies(cpusets, replies, world, name);
            let steps = (end.len() - replies.len()) as nat;
            &&& worked(with_replies(cpusets, replies), world, steps) == (
                with_replies(cpusets, end),
                prefix_filled(cpusets, world, name),
            )
            &&& end.take(replies.len() as int) == replies
        }),
{
    let at = replies.len() as int;
    let path = crate::path::joined(cpusets.directory(), name);
    let source = crate::path::joined(cpusets.mount_path, name);
    let own = ReplyView::Text(world.files[path]);
    let one = replies.push(own);
    assert(replies.take(at) =~= replies);
    assert(one.take(at) =~= replies);
    assert(fills(cpusets, replies, name, at));
    assert(fills(cpusets, one, name, at));
    assert(crate::exchange::text_at(one, at) == world.files[path]);
    assert(cpusets.fill_script(name, replies, at)[0] == ActionView::ReadToString(path));
    assert(cpusets.fill_script(name, one, at).len() >= 1);
    configuring_goes_on(cpusets, replies, world, ActionView::ReadToString(path));
    if crate::text::trim(world.files[path]).len() == 0 {
        let next = ReplyView::Text(world.files[source]);
        let two = one.push(next);
        let three = two.push(ReplyView::Done);
        assert(two.take(at) =~= replies);
        assert(three.take(at) =~= replies);
        assert(fills(cpusets, two, name, at));
        assert(fills(cpusets, three, name, at));
        assert(crate::exchange::text_at(two, at) == world.files[path]);
        assert(crate::exchange::text_at(two, at + 1) == world.files[source]);
        assert(crate::exchange::text_at(three, at) == world.files[path]);
        assert(cpusets.fill_script(name, one, at)[1] == ActionView::ReadToString(source));
        assert(cpusets.fill_script(name, two, at)[2] == ActionView::Write(
            path,
            crate::text::trim(world.files[source]),
        ));
        assert(setup(cpusets, one)[at + 1] == ActionView::ReadToString(source));
        assert(setup(cpusets, two)[at + 2] == ActionView::Write(
            path,
            crate::text::trim(world.files[source]),
        ));
        assert(cpusets.fill_script(name, three, at).len() == 3);
        configuring_goes_on(cpusets, one, world, ActionView::ReadToString(source));
        configuring_goes_on(
            cpusets,
            two,
            world,
            ActionView::Write(path, crate::text::trim(world.files[source])),
        );
        work_goes_on(with_replies(cpusets, replies), world, 1, 1);
        work_goes_on(with_replies(cpusets, replies), world, 2, 1);
    }
}

/// The CPU sets in the stage that sets up the prefix and the pool, or in the next
/// one once all replies are there.
spec fn set_up(
    cpusets: CpuSetView,
    host: usize,
    guest: usize,
    replies: Seq<ReplyView>,
) -> CpuSetView {
    if replies.len() < setup(cpusets, replies).len() {
        with_replies(cpusets, replies)
    } else {
        cpusets.entering(StageView::Pinning(host, guest, PinStageView::Listing))
    }
}

/// One action of the stage that sets up the prefix and the pool.
proof fn configuring_advances(
    cpusets: CpuSetView,
    host: usize,
    guest: usize,
    replies: Seq<ReplyView>,
    world: World,
    action: ActionView,
)
    requires
        cpusets.stage == StageView::Pinning(host, guest, PinStageView::Configuring),
        replies.len() < setup(cpusets, replies).len(),
        action == setup(cpusets, replies)[replies.len() as int],
    ensures
        worked(with_replies(cpusets, replies), world, 1) == (
            set_up(cpusets, host, guest, replies.push(world.answer(action))),
            world.changed(action),
        ),
{
    let reply = world.answer(action);
    let more = replies.push(reply);
    if more.len() < setup(cpusets, more).len() {
        configuring_goes_on(cpusets, replies, world, action);
    } else {
        reveal(setup);
        let now = with_replies(cpusets, replies);
        assert(now.script(replies) == cpusets.configure_script(replies));
        assert(now.script(more) == cpusets.configure_script(more));
        assert(now.after(reply) == now.after_pin_stage(
            host,
            guest,
            PinStageView::Configuring,
            more,
        ));
        assert(now.after(reply) == cpusets.entering(
            StageView::Pinning(host, guest, PinStageView::Listing),
        ));
        reveal_with_fuel(worked, 2);
    }
}

/// The files after a text was copied to a file of the pool if it was blank.
spec fn pool_filled(cpusets: CpuSetView, world: World, name: Seq<char>, data: Seq<char>) -> World {
    let path = crate::path::joined(cpusets.pool_directory(), name);
    if crate::text::trim(world.files[path]).len() == 0 {
        world.changed(ActionView::Write(path, data))
    } else {
        world
    }
}

/// The replies when a text was copied to a file of the pool if it was blank.
spec fn copy_replies(
    cpusets: CpuSetView,
    replies: Seq<ReplyView>,
    world: World,
    name: Seq<char>,
) -> Seq<ReplyView> {
    let own = world.files[crate::path::joined(cpusets.pool_directory(), name)];
    let read = replies.push(ReplyView::Text(own));
    if crate::text::trim(own).len() == 0 {
        read.push(ReplyView::Done)
    } else {
        read
    }
}

/// A text is copied to a file of the pool if it is blank.
proof fn pool_is_filled(
    cpusets: CpuSetView,
    host: usize,
    guest: usize,
    replies: Seq<ReplyView>,
    world: World,
    name: Seq<char>,
    data: Seq<char>,
)
    requires
        cpusets.stage == StageView::Pinning(host, guest, PinStageView::Configuring),
        forall|more: Seq<ReplyView>|
            more.len() >= replies.len() && more.take(replies.len() as int) == replies
                ==> #[trigger] copies(cpusets, more, name, data, replies.len() as int),
    ensures
        ({
            let end = copy_replies(cpusets, replies, world, name);
            let steps = (end.len() - replies.len()) as nat;
            &&& worked(with_replies(cpusets, replies), world, steps) == (
                set_up(cpusets, host, guest, end),
                pool_filled(cpusets, world, name, data),
            )
            &&& end.take(replies.len() as int) == replies
        }),
{
    let at = replies.len() as int;
    let path = crate::path::joined(cpusets.pool_directory(), name);
    let one = replies.push(ReplyView::Text(world.files[path]));
    assert(replies.take(at) =~= replies);
    assert(one.take(at) =~= replies);
    assert(copies(cpusets, replies, name, data, at));
    assert(copies(cpusets, one, name, data, at));
    assert(crate::exchange::text_at(one, at) == world.files[path]);
    assert(cpusets.copy_script(name, data, replies, at)[0] == ActionView::ReadToString(path));
    configuring_advances(cpusets, host, guest, replies, world, ActionView::ReadToString(path));
    if crate::text::trim(world.files[path]).len() == 0 {
        let write = ActionView::Write(path, data);
        let two = one.push(ReplyView::Done);
        assert(two.take(at) =~= replies);
        assert(copies(cpusets, two, name, data, at));
        assert(cpusets.copy_script(name, data, one, at)[1] == write);
        assert(setup(cpusets, one)[at + 1] == write);
        configuring_advances(cpusets, host, guest, one, world, write);
        work_goes_on(with_replies(cpusets, replies), world, 1, 1);
    }
}

/// The files after the prefix and the pool were set up.
spec fn configured(cpusets: CpuSetView, world: World) -> World {
    let started = world.changed(ActionView::CreateDirAll(cpusets.directory())).changed(
        ActionView::Write(
            crate::path::joined(cpusets.directory(), "cpuset.cpu_exclusive"@),
            "1"@,
        ),
    );
    let mems = prefix_filled(cpusets, started, "cpuset.mems"@);
    let cpus = prefix_filled(cpusets, mems, "cpuset.cpus"@);
    let pool = cpus.changed(ActionView::CreateDirAll(cpusets.pool_directory())).changed(
        ActionView::Write(
            crate::path::joined(cpusets.pool_directory(), "cpuset.cpu_exclusive"@),
            "1"@,
        ),
    );
    let pool_mems = pool_filled(
        cpusets,
        pool,
        "cpuset.mems"@,
        held(cpusets, started, "cpuset.mems"@),
    );
    pool_filled(cpusets, pool_mems, "cpuset.cpus"@, held(cpusets, mems, "cpuset.cpus"@))
}

/// What a file of the prefix holds once it has been filled if it was blank, without
/// white space at its ends.
spec fn held(cpusets: CpuSetView, world: World, name: Seq<char>) -> Seq<char> {
    let own = crate::text::trim(world.files[crate::path::joined(cpusets.directory(), name)]);
    if own.len() == 0 {
        crate::text::trim(world.files[crate::path::joined(cpusets.mount_path, name)])
    } else {
        own
    }
}

/// Setting up the prefix and the pool, action by action.
#[verifier::spinoff_prover]
#[verifier::rlimit(60)]
proof fn configuring_works(cpusets: CpuSetView, host: usize, guest: usize, world: World) -> (n: nat)
    requires
        cpusets.stage == StageView::Pinning(host, guest, PinStageView::Configuring),
        cpusets.replies.len() == 0,
    ensures
        worked(cpusets, world, n) == (
            cpusets.entering(StageView::Pinning(host, guest, PinStageView::Listing)),
            configured(cpusets, world),
        ),
{
    let nothing = Seq::<ReplyView>::empty();
    let create = ActionView::CreateDirAll(cpusets.directory());
    let exclusive = ActionView::Write(
        crate::path::joined(cpusets.directory(), "cpuset.cpu_exclusive"@),
        "1"@,
    );
    assert(with_replies(cpusets, nothing) == cpusets) by {
        assert(cpusets.replies =~= nothing);
    }
    let r1 = nothing.push(ReplyView::Done);
    let r2 = r1.push(ReplyView::Done);
    let w1 = world.changed(create);
    let w2 = w1.changed(exclusive);
    configuring_in_parts(cpusets, nothing);
    configuring_in_parts(cpusets, r1);
    configuring_in_parts(cpusets, r2);
    configuring_goes_on(cpusets, nothing, world, create);
    configuring_goes_on(cpusets, r1, w1, exclusive);
    work_goes_on(cpusets, world, 1, 1);
    assert(worked(cpusets, world, 2) == (with_replies(cpusets, r2), w2));

    assert forall|more: Seq<ReplyView>|
        more.len() >= r2.len() && more.take(r2.len() as int) == r2 implies #[trigger] fills(
        cpusets,
        more,
        "cpuset.mems"@,
        r2.len() as int,
    ) by {
        configuring_in_parts(cpusets, more);
    }
    prefix_is_filled(cpusets, r2, w2, "cpuset.mems"@);
    let r3 = fill_replies(cpusets, r2, w2, "cpuset.mems"@);
    let w3 = prefix_filled(cpusets, w2, "cpuset.mems"@);
    let n3: nat = r3.len();
    work_goes_on(cpusets, world, 2, (n3 - 2) as nat);
    assert(worked(cpusets, world, n3) == (with_replies(cpusets, r3), w3));
    assert(crate::cpuset::filled(r3, 2) == held(cpusets, w2, "cpuset.mems"@));
    assert(n3 == 2 + if is_blank(r3, 2) { 3int } else { 1int });

    assert forall|more: Seq<ReplyView>|
        more.len() >= r3.len() && more.take(r3.len() as int) == r3 implies #[trigger] fills(
        cpusets,
        more,
        "cpuset.cpus"@,
        r3.len() as int,
    ) by {
        configuring_in_parts(cpusets, more);
        assert(more[2] == more.take(r3.len() as int)[2]);
    }
    prefix_is_filled(cpusets, r3, w3, "cpuset.cpus"@);
    let r4 = fill_replies(cpusets, r3, w3, "cpuset.cpus"@);
    let w4 = prefix_filled(cpusets, w3, "cpuset.cpus"@);
    let n4: nat = r4.len();
    work_goes_on(cpusets, world, n3, (n4 - n3) as nat);
    assert(worked(cpusets, world, n4) == (with_replies(cpusets, r4), w4));
    assert(crate::cpuset::filled(r4, n3 as int) == held(cpusets, w3, "cpuset.cpus"@));
    assert(n4 == n3 + if is_blank(r4, n3 as int) { 3int } else { 1int });
    assert(crate::cpuset::filled(r4, 2) == crate::cpuset::filled(r3, 2)) by {
        assert(forall|i: int| 0 <= i < n3 ==> r4.take(n3 as int)[i] == #[trigger] r4[i]);
    }
    assert(is_blank(r4, 2) == is_blank(r3, 2)) by {
        assert(r4[2] == r4.take(n3 as int)[2]);
    }

    let create_pool = ActionView::CreateDirAll(cpusets.pool_directory());
    let exclusive_pool = ActionView::Write(
        crate::path::joined(cpusets.pool_directory(), "cpuset.cpu_exclusive"@),
        "1"@,
    );
    let r5 = r4.push(ReplyView::Done);
    let r6 = r5.push(ReplyView::Done);
    let w5 = w4.changed(create_pool);
    let w6 = w5.changed(exclusive_pool);
    configuring_in_parts(cpusets, r4);
    configuring_in_parts(cpusets, r5);
    configuring_in_parts(cpusets, r6);
    configuring_goes_on(cpusets, r4, w4, create_pool);
    configuring_goes_on(cpusets, r5, w5, exclusive_pool);
    let n6: nat = r6.len();
    work_goes_on(cpusets, world, n4, 1);
    work_goes_on(cpusets, world, n4 + 1, 1);
    assert(worked(cpusets, world, n6) == (with_replies(cpusets, r6), w6));
    assert(r6.take(n4 as int) =~= r4);

    let mems = held(cpusets, w2, "cpuset.mems"@);
    let cpus = held(cpusets, w3, "cpuset.cpus"@);
    assert forall|more: Seq<ReplyView>|
        more.len() >= r6.len() && more.take(r6.len() as int) == r6 implies #[trigger] copies(
        cpusets,
        more,
        "cpuset.mems"@,
        mems,
        r6.len() as int,
    ) by {
        configuring_in_parts(cpusets, more);
        assert(forall|i: int| 0 <= i < n6 ==> more.take(n6 as int)[i] == #[trigger] more[i]);
    }
    pool_is_filled(cpusets, host, guest, r6, w6, "cpuset.mems"@, mems);
    let r7 = copy_replies(cpusets, r6, w6, "cpuset.mems"@);
    let w7 = pool_filled(cpusets, w6, "cpuset.mems"@, mems);
    let n7: nat = r7.len();
    work_goes_on(cpusets, world, n6, (n7 - n6) as nat);
    assert(forall|i: int| 0 <= i < n6 ==> r7.take(n6 as int)[i] == #[trigger] r7[i]);
    configuring_in_parts(cpusets, r7);
    assert(n7 == n6 + if is_blank(r7, n6 as int) { 2int } else { 1int });
    assert(worked(cpusets, world, n7) == (with_replies(cpusets, r7), w7));

    assert forall|more: Seq<ReplyView>|
        more.len() >= r7.len() && more.take(r7.len() as int) == r7 implies #[trigger] copies(
        cpusets,
        more,
        "cpuset.cpus"@,
        cpus,
        r7.len() as int,
    ) by {
        configuring_in_parts(cpusets, more);
        assert(forall|i: int| 0 <= i < n7 ==> more.take(n7 as int)[i] == #[trigger] more[i]);
    }
    pool_is_filled(cpusets, host, guest, r7, w7, "cpuset.cpus"@, cpus);
    let r8 = copy_replies(cpusets, r7, w7, "cpuset.cpus"@);
    let n8: nat = r8.len();
    work_goes_on(cpusets, world, n7, (n8 - n7) as nat);
    assert(forall|i: int| 0 <= i < n7 ==> r8.take(n7 as int)[i] == #[trigger] r8[i]);
    configuring_in_parts(cpusets, r8);
    assert(n8 == n7 + if is_blank(r8, n7 as int) { 2int } else { 1int });
    n8
}

/// One action of a pinning. The world never lets an action fail.
proof fn pinning_advances(
    cpusets: CpuSetView,
    host: usize,
    guest: usize,
    stage: PinStageView,
    replies: Seq<ReplyView>,
    world: World,
)
    requires
        cpusets.stage == StageView::Pinning(host, guest, stage),
        replies.len() < cpusets.script(replies).len(),
    ensures
        ({
            let action = cpusets.script(replies)[replies.len() as int];
            let more = replies.push(world.answer(action));
            worked(with_replies(cpusets, replies), world, 1) == (
                if more.len() < cpusets.script(more).len() {
                    with_replies(cpusets, more)
                } else {
                    cpusets.after_pin_stage(host, guest, stage, more)
                },
                world.changed(action),
            )
        }),
{
    let action = cpusets.script(replies)[replies.len() as int];
    let reply = world.answer(action);
    let more = replies.push(reply);
    let now = with_replies(cpusets, replies);
    assert(now.script(replies) == cpusets.script(replies));
    assert(now.script(more) == cpusets.script(more));
    assert(now.after_pin_stage(host, guest, stage, more) == cpusets.after_pin_stage(
        host,
        guest,
        stage,
        more,
    ));
    reveal_with_fuel(worked, 2);
}

/// CPU sets at the start of a stage have no replies.
proof fn stage_starts_without_replies(cpusets: CpuSetView)
    requires
        cpusets.replies.len() == 0,
    ensures
        with_replies(cpusets, Seq::<ReplyView>::empty()) == cpusets,
{
    assert(cpusets.replies =~= Seq::<ReplyView>::empty());
}

/// The files after the file system was mounted.
spec fn mounted(cpusets: CpuSetView, world: World) -> World {
    World {
        mounted: world.mounted.insert(cpusets.mount_path),
        ..world.changed(ActionView::CreateDirAll(cpusets.mount_path))
    }
}

/// Mounting the file system, action by action.
proof fn mounting_works(cpusets: CpuSetView, host: usize, guest: usize, world: World) -> (n: nat)
    requires
        cpusets.stage == StageView::Pinning(host, guest, PinStageView::Mounting),
        cpusets.replies.len() == 0,
    ensures
        worked(cpusets, world, n) == (
            cpusets.entering(StageView::Pinning(host, guest, PinStageView::Configuring)),
            mounted(cpusets, world),
        ),
{
    let stage = PinStageView::Mounting;
    let r0 = Seq::<ReplyView>::empty();
    let r1 = r0.push(ReplyView::Done);
    let known = world.mounted.contains(cpusets.mount_path);
    let r2 = r1.push(ReplyView::Flag(known));
    let create = ActionView::CreateDirAll(cpusets.mount_path);
    let w1 = world.changed(create);
    stage_starts_without_replies(cpusets);
    assert(cpusets.script(r0)[0] == create);
    assert(cpusets.script(r1)[1] == ActionView::SourceMountedAt("cgroup"@, cpusets.mount_path));
    pinning_advances(cpusets, host, guest, stage, r0, world);
    pinning_advances(cpusets, host, guest, stage, r1, w1);
    work_goes_on(cpusets, world, 1, 1);
    if known {
        assert(world.mounted.insert(cpusets.mount_path) =~= world.mounted);
        assert(mounted(cpusets, world) == w1);
        2
    } else {
        assert(cpusets.script(r2)[2] == ActionView::Mount(cpusets.mount_path));
        assert(cpusets.script(r2.push(ReplyView::Done)).len() == 3);
        pinning_advances(cpusets, host, guest, stage, r2, w1);
        work_goes_on(cpusets, world, 2, 1);
        3
    }
}

/// The CPU sets when the CPUs of the pool and the tasks outside it are known.
spec fn listed(cpusets: CpuSetView, host: usize, guest: usize, world: World) -> CpuSetView {
    let pool = crate::path::joined(cpusets.pool_directory(), "cpuset.cpus"@);
    let tasks = crate::text::lines(
        world.files[crate::path::joined(cpusets.mount_path, "tasks"@)],
    );
    let found = CpuSetView {
        pool: crate::cpu_list::listed_cpus(crate::text::trim(world.files[pool]))->0,
        tasks,
        ..cpusets
    };
    found.entering(
        StageView::Pinning(
            host,
            guest,
            if tasks.len() == 0 {
                PinStageView::Checking
            } else {
                PinStageView::Migrating(0)
            },
        ),
    )
}

/// Listing the CPUs of the pool and the tasks outside it, action by action.
proof fn listing_works(cpusets: CpuSetView, host: usize, guest: usize, world: World)
    requires
        cpusets.stage == StageView::Pinning(host, guest, PinStageView::Listing),
        cpusets.replies.len() == 0,
    ensures
        worked(cpusets, world, 2) == (listed(cpusets, host, guest, world), world),
{
    let stage = PinStageView::Listing;
    let pool = crate::path::joined(cpusets.pool_directory(), "cpuset.cpus"@);
    let tasks = crate::path::joined(cpusets.mount_path, "tasks"@);
    let r0 = Seq::<ReplyView>::empty();
    let r1 = r0.push(ReplyView::Text(world.files[pool]));
    let r2 = r1.push(ReplyView::Text(world.files[tasks]));
    stage_starts_without_replies(cpusets);
    assert(cpusets.script(r0)[0] == ActionView::ReadToString(pool));
    assert(cpusets.script(r1)[1] == ActionView::ReadToString(tasks));
    pinning_advances(cpusets, host, guest, stage, r0, world);
    pinning_advances(cpusets, host, guest, stage, r1, world);
    work_goes_on(cpusets, world, 1, 1);
    assert(crate::exchange::text_at(r2, 0) == world.files[pool]);
    assert(crate::exchange::text_at(r2, 1) == world.files[tasks]);
}

/// The path of the status of a task.
spec fn status_path(task: Seq<char>) -> Seq<char> {
    crate::path::joined("/proc"@, crate::path::joined(task, "status"@))
}

/// Whether a task belongs to the pool: it may run on the CPUs of the pool, and on
/// no others.
spec fn belongs(cpusets: CpuSetView, task: Seq<char>, world: World) -> bool {
    crate::task_status::allowed_cpus(task, world.files[status_path(task)]) == Ok::<
        Seq<usize>,
        crate::error::ErrorView,
    >(cpusets.pool)
}

/// The files after the tasks from a place on were moved to the pool if they belong
/// there.
spec fn migrated(cpusets: CpuSetView, world: World, at: nat) -> World
    decreases cpusets.tasks.len() - at,
{
    if at >= cpusets.tasks.len() {
        world
    } else {
        let task = cpusets.tasks[at as int];
        let changed = if belongs(cpusets, task, world) {
            world.changed(
                ActionView::Write(
                    crate::path::joined(cpusets.pool_directory(), "tasks"@),
                    task,
                ),
            )
        } else {
            world
        };
        migrated(cpusets, changed, at + 1)
    }
}

/// Moving the tasks to the pool, action by action.
proof fn migrating_works(
    cpusets: CpuSetView,
    host: usize,
    guest: usize,
    world: World,
    at: nat,
) -> (n: nat)
    requires
        cpusets.stage == StageView::Pinning(host, guest, PinStageView::Migrating(at)),
        cpusets.replies.len() == 0,
        at < cpusets.tasks.len(),
    ensures
        worked(cpusets, world, n) == (
            cpusets.entering(StageView::Pinning(host, guest, PinStageView::Checking)),
            migrated(cpusets, world, at),
        ),
    decreases cpusets.tasks.len() - at,
{
    let stage = PinStageView::Migrating(at);
    let task = cpusets.tasks[at as int];
    let status = status_path(task);
    let write = ActionView::Write(crate::path::joined(cpusets.pool_directory(), "tasks"@), task);
    let r0 = Seq::<ReplyView>::empty();
    let r1 = r0.push(ReplyView::Text(world.files[status]));
    stage_starts_without_replies(cpusets);
    assert(cpusets.script(r0)[0] == ActionView::ReadToString(status));
    assert(crate::exchange::text_at(r1, 0) == world.files[status]);
    pinning_advances(cpusets, host, guest, stage, r0, world);
    let next = cpusets.after_pin_stage(host, guest, stage, r1);
    let moving = belongs(cpusets, task, world);
    let changed = if moving { world.changed(write) } else { world };
    let steps: nat = if moving { 2 } else { 1 };
    if moving {
        let r2 = r1.push(ReplyView::Done);
        assert(crate::exchange::text_at(r2, 0) == world.files[status]);
        assert(cpusets.script(r1)[1] == write);
        assert(cpusets.script(r2).len() == 2);
        pinning_advances(cpusets, host, guest, stage, r1, world);
        work_goes_on(cpusets, world, 1, 1);
    }
    assert(worked(cpusets, world, steps) == (next, changed));
    if at + 1 < cpusets.tasks.len() {
        let n = migrating_works(next, host, guest, changed, at + 1);
        same_migration(next, cpusets, changed, at + 1);
        work_goes_on(cpusets, world, steps, n);
        steps + n
    } else {
        assert(migrated(cpusets, changed, at + 1) == changed);
        steps
    }
}

/// Which stage the CPU sets are in does not matter to what is moved.
proof fn same_migration(a: CpuSetView, b: CpuSetView, world: World, at: nat)
    requires
        a.mount_path == b.mount_path,
        a.prefix == b.prefix,
        a.pool == b.pool,
        a.tasks == b.tasks,
    ensures
        migrated(a, world, at) == migrated(b, world, at),
    decreases a.tasks.len() - at,
{
    if at < a.tasks.len() {
        let task = a.tasks[at as int];
        let changed = if belongs(a, task, world) {
            world.changed(
                ActionView::Write(crate::path::joined(a.pool_directory(), "tasks"@), task),
            )
        } else {
            world
        };
        same_migration(a, b, changed, at + 1);
    }
}

/// The path of the status of a task is not that of a list of tasks.
proof fn status_is_no_task_list(task: Seq<char>, directory: Seq<char>)
    ensures
        status_path(task) != crate::path::joined(directory, "tasks"@),
{
    reveal_strlit("status");
    reveal_strlit("tasks");
    let status = status_path(task);
    let inner = crate::path::joined(task, "status"@);
    let tasks = crate::path::joined(directory, "tasks"@);
    assert(inner[inner.len() - 2] == 'u');
    assert(status[status.len() - 2] == 'u');
    assert(tasks[tasks.len() - 2] == 'k');
}

/// What moving the tasks from a place on changes: the tasks that belong to the
/// pool are written to its list of tasks, and nothing else happens.
proof fn migration_moves_tasks(cpusets: CpuSetView, world: World, at: nat)
    ensures
        ({
            let path = crate::path::joined(cpusets.pool_directory(), "tasks"@);
            let after = migrated(cpusets, world, at);
            &&& after.open == world.open
            &&& after.careless == world.careless
            &&& after.mounted == world.mounted
            &&& after.created == world.created
            &&& after.removed == world.removed
            &&& forall|other: Seq<char>|
                other != path ==> #[trigger] after.files[other] == world.files[other]
            &&& forall|task: Seq<char>| #[trigger]
                after.written.contains((path, task)) <==> world.written.contains((path, task)) || (
                belongs(cpusets, task, world) && exists|i: int|
                    at <= i < cpusets.tasks.len() && #[trigger] cpusets.tasks[i] == task)
        }),
    decreases cpusets.tasks.len() - at,
{
    let path = crate::path::joined(cpusets.pool_directory(), "tasks"@);
    let after = migrated(cpusets, world, at);
    if at < cpusets.tasks.len() {
        let task = cpusets.tasks[at as int];
        let moving = belongs(cpusets, task, world);
        let changed = if moving {
            world.changed(ActionView::Write(path, task))
        } else {
            world
        };
        migration_moves_tasks(cpusets, changed, at + 1);
        assert forall|t: Seq<char>| belongs(cpusets, t, changed) == belongs(cpusets, t, world) by {
            status_is_no_task_list(t, cpusets.pool_directory());
        }
        assert forall|t: Seq<char>| #[trigger] after.written.contains((path, t)) <==> world.written.contains(
            (path, t),
        ) || (belongs(cpusets, t, world) && exists|i: int|
            at <= i < cpusets.tasks.len() && #[trigger] cpusets.tasks[i] == t) by {
            let log = world.written;
            assert(belongs(cpusets, t, changed) == belongs(cpusets, t, world));
            assert(log.push((path, task)).contains((path, t)) <==> log.contains((path, t)) || t
                == task) by {
                let more = log.push((path, task));
                assert(more[log.len() as int] == (path, task));
                assert(forall|k: int| 0 <= k < log.len() ==> more[k] == #[trigger] log[k]);
            }
            if exists|i: int| at <= i < cpusets.tasks.len() && #[trigger] cpusets.tasks[i] == t {
                let i = choose|i: int| at <= i < cpusets.tasks.len() && #[trigger] cpusets.tasks[i] == t;
                if i > at {
                    assert(at + 1 <= i && cpusets.tasks[i] == t);
                }
            }
            assert(cpusets.tasks[at as int] == task);
        }
    }
}

/// Taking the host CPU out of the pool, action by action.
proof fn splitting_works(cpusets: CpuSetView, host: usize, guest: usize, world: World)
    requires
        cpusets.stage == StageView::Pinning(host, guest, PinStageView::Splitting),
        cpusets.replies.len() == 0,
    ensures
        ({
            let path = crate::path::joined(cpusets.pool_directory(), "cpuset.cpus"@);
            let cpus = crate::cpu_list::listed_cpus(crate::text::trim(world.files[path]))->0;
            worked(cpusets, world, 5) == (
                cpusets.entering(StageView::Pinning(host, guest, PinStageView::Preparing)),
                World {
                    open: path,
                    locked: true,
                    files: world.files.insert(
                        path,
                        crate::cpu_list::cpus_text(crate::cpu_list::without_cpu(cpus, host)),
                    ),
                    ..world
                },
            )
        }),
{
    let stage = PinStageView::Splitting;
    let path = crate::path::joined(cpusets.pool_directory(), "cpuset.cpus"@);
    let cpus = crate::cpu_list::listed_cpus(crate::text::trim(world.files[path]))->0;
    let text = crate::cpu_list::cpus_text(crate::cpu_list::without_cpu(cpus, host));
    let r0 = Seq::<ReplyView>::empty();
    let r1 = r0.push(ReplyView::Done);
    let r2 = r1.push(ReplyView::Done);
    let w0 = World { open: path, locked: false, ..world };
    let w1 = World { open: path, locked: true, ..world };
    let r3 = r2.push(ReplyView::Text(w1.files[path]));
    let r4 = r3.push(ReplyView::Done);
    let w2 = w1.changed(ActionView::Trim);
    stage_starts_without_replies(cpusets);
    assert(cpusets.script(r0)[0] == ActionView::Open(path));
    assert(crate::exchange::text_at(r4, 2) == world.files[path]);
    assert(cpusets.script(r4)[4] == ActionView::WriteString(text));
    pinning_advances(cpusets, host, guest, stage, r0, world);
    pinning_advances(cpusets, host, guest, stage, r1, w0);
    pinning_advances(cpusets, host, guest, stage, r2, w1);
    pinning_advances(cpusets, host, guest, stage, r3, w1);
    pinning_advances(cpusets, host, guest, stage, r4, w2);
    work_goes_on(cpusets, world, 1, 1);
    work_goes_on(cpusets, world, 2, 1);
    work_goes_on(cpusets, world, 3, 1);
    work_goes_on(cpusets, world, 4, 1);
    let end = w2.changed(ActionView::WriteString(text));
    assert(Seq::<char>::empty() + text =~= text);
    assert(end.files =~= world.files.insert(path, text));
}

/// The files after the CPU set of a host CPU was set up.
spec fn prepared(cpusets: CpuSetView, host: usize, world: World) -> World {
    let directory = cpusets.thread_directory(host);
    let mems = world.files[crate::path::joined(cpusets.directory(), "cpuset.mems"@)];
    world.changed(ActionView::CreateDirAll(directory)).changed(
        ActionView::Write(crate::path::joined(directory, "cpuset.mems"@), mems),
    ).changed(
        ActionView::Write(crate::path::joined(directory, "cpuset.cpu_exclusive"@), "1"@),
    ).changed(
        ActionView::Write(
            crate::path::joined(directory, "cpuset.cpus"@),
            crate::text::decimal(host as nat),
        ),
    )
}

/// Setting up the CPU set of the host CPU, action by action.
proof fn preparing_works(cpusets: CpuSetView, host: usize, guest: usize, world: World)
    requires
        cpusets.stage == StageView::Pinning(host, guest, PinStageView::Preparing),
        cpusets.replies.len() == 0,
    ensures
        worked(cpusets, world, 5) == (
            CpuSetView { isolated: cpusets.isolated.push(host), ..cpusets }.entering(
                StageView::Pinning(host, guest, PinStageView::Attaching),
            ),
            prepared(cpusets, host, world),
        ),
{
    let stage = PinStageView::Preparing;
    let directory = cpusets.thread_directory(host);
    let source = crate::path::joined(cpusets.directory(), "cpuset.mems"@);
    let r0 = Seq::<ReplyView>::empty();
    let r1 = r0.push(ReplyView::Done);
    let w1 = world.changed(ActionView::CreateDirAll(directory));
    let r2 = r1.push(ReplyView::Text(world.files[source]));
    let r3 = r2.push(ReplyView::Done);
    let r4 = r3.push(ReplyView::Done);
    let mems = ActionView::Write(
        crate::path::joined(directory, "cpuset.mems"@),
        world.files[source],
    );
    let w2 = w1.changed(mems);
    let exclusive = ActionView::Write(
        crate::path::joined(directory, "cpuset.cpu_exclusive"@),
        "1"@,
    );
    let w3 = w2.changed(exclusive);
    stage_starts_without_replies(cpusets);
    assert(cpusets.script(r0)[0] == ActionView::CreateDirAll(directory));
    assert(cpusets.script(r1)[1] == ActionView::ReadToString(source));
    assert(crate::exchange::text_at(r2, 1) == world.files[source]);
    assert(cpusets.script(r2)[2] == mems);
    assert(cpusets.script(r3)[3] == exclusive);
    pinning_advances(cpusets, host, guest, stage, r0, world);
    pinning_advances(cpusets, host, guest, stage, r1, w1);
    pinning_advances(cpusets, host, guest, stage, r2, w1);
    pinning_advances(cpusets, host, guest, stage, r3, w2);
    pinning_advances(cpusets, host, guest, stage, r4, w3);
    work_goes_on(cpusets, world, 1, 1);
    work_goes_on(cpusets, world, 2, 1);
    work_goes_on(cpusets, world, 3, 1);
    work_goes_on(cpusets, world, 4, 1);
}

/// Moving the task to the CPU set of the host CPU.
proof fn attaching_works(cpusets: CpuSetView, host: usize, guest: usize, world: World)
    requires
        cpusets.stage == StageView::Pinning(host, guest, PinStageView::Attaching),
        cpusets.replies.len() == 0,
    ensures
        worked(cpusets, world, 1) == (
            cpusets.entering(StageView::Finished(Ok(()))),
            world.changed(
                ActionView::Write(
                    crate::path::joined(cpusets.thread_directory(host), "tasks"@),
                    crate::text::decimal(guest as nat),
                ),
            ),
        ),
{
    stage_starts_without_replies(cpusets);
    pinning_advances(
        cpusets,
        host,
        guest,
        PinStageView::Attaching,
        Seq::<ReplyView>::empty(),
        world,
    );
}

/// Looking at the tasks on the host CPU.
proof fn checking_works(cpusets: CpuSetView, host: usize, guest: usize, world: World)
    requires
        cpusets.stage == StageView::Pinning(host, guest, PinStageView::Checking),
        cpusets.replies.len() == 0,
    ensures
        worked(cpusets, world, 1) == (
            cpusets.entering(
                StageView::Pinning(
                    host,
                    guest,
                    if cpusets.isolated.contains(host) {
                        PinStageView::Attaching
                    } else {
                        PinStageView::Splitting
                    },
                ),
            ),
            world,
        ),
{
    stage_starts_without_replies(cpusets);
    pinning_advances(
        cpusets,
        host,
        guest,
        PinStageView::Checking,
        Seq::<ReplyView>::empty(),
        world,
    );
}

/// A directory with a slash at its end.
pub open spec fn slashed(directory: Seq<char>) -> Seq<char> {
    if directory.last() == '/' {
        directory
    } else {
        directory.push('/')
    }
}

/// The directory that holds the CPU sets of a prefix, with a slash at its end.
pub open spec fn home(mount_path: Seq<char>, prefix: Seq<char>) -> Seq<char> {
    slashed(mount_path) + prefix + seq!['/']
}

/// Where the files of the CPU sets are.
proof fn paths_below_home(cpusets: CpuSetView, id: usize, name: Seq<char>)
    requires
        cpusets.mount_path.len() > 0,
        cpusets.prefix.len() > 0,
        !cpusets.prefix.contains('/'),
        name.len() > 0,
        name[0] != '/',
    ensures
        ({
            let top = slashed(cpusets.mount_path);
            let own = home(cpusets.mount_path, cpusets.prefix);
            let number = crate::text::decimal(id as nat);
            &&& crate::path::joined(cpusets.mount_path, name) == top + name
            &&& cpusets.directory() == top + cpusets.prefix
            &&& crate::path::joined(cpusets.directory(), name) == own + name
            &&& cpusets.pool_directory() == own + "pool"@
            &&& crate::path::joined(cpusets.pool_directory(), name) == own + ("pool/"@ + name)
            &&& cpusets.thread_directory(id) == own + number
            &&& crate::path::joined(cpusets.thread_directory(id), name) == own + (number
                + seq!['/'] + name)
        }),
{
    let top = slashed(cpusets.mount_path);
    let own = home(cpusets.mount_path, cpusets.prefix);
    let number = crate::text::decimal(id as nat);
    let prefix = cpusets.prefix;
    reveal_strlit("pool");
    reveal_strlit("pool/");
    assert(prefix[0] != '/' && prefix[prefix.len() - 1] != '/') by {
        assert(prefix.contains(prefix[0]));
        assert(prefix.contains(prefix[prefix.len() - 1]));
    }
    crate::text::decimal_is_read_back(id as nat);
    assert(crate::text::is_digit(number[0]));
    assert(crate::text::is_digit(number[number.len() - 1]));
    assert(crate::path::joined(cpusets.mount_path, name) =~= top + name);
    assert(cpusets.directory() =~= top + prefix);
    assert(cpusets.directory().last() == prefix.last());
    assert(crate::path::joined(cpusets.directory(), name) =~= own + name);
    assert(cpusets.pool_directory() =~= own + "pool"@);
    assert(cpusets.pool_directory().last() == 'l');
    assert("pool/"@ =~= "pool"@ + seq!['/']);
    assert(crate::path::joined(cpusets.pool_directory(), name) =~= own + ("pool/"@ + name));
    assert(cpusets.thread_directory(id) =~= own + number);
    assert(cpusets.thread_directory(id).last() == number.last());
    assert(crate::path::joined(cpusets.thread_directory(id), name) =~= own + (number + seq!['/']
        + name));
}

/// Different ends make different paths.
proof fn ends_tell_paths_apart(start: Seq<char>, a: Seq<char>, b: Seq<char>)
    ensures
        start + a == start + b <==> a == b,
{
    assert((start + a).skip(start.len() as int) =~= a);
    assert((start + b).skip(start.len() as int) =~= b);
}

/// A file of the mount point is no file of a CPU set.
proof fn mount_point_is_apart(top: Seq<char>, prefix: Seq<char>, name: Seq<char>, rest: Seq<char>)
    requires
        !name.contains('/'),
    ensures
        top + name != top + prefix + seq!['/'] + rest,
{
    let below = prefix + seq!['/'] + rest;
    assert(top + prefix + seq!['/'] + rest =~= top + below);
    ends_tell_paths_apart(top, name, below);
    assert(below[prefix.len() as int] == '/');
    assert(below.contains('/'));
}

/// The ends of the paths of all files of the CPU sets that a pinning may change.
pub open spec fn changeable(host: usize) -> Seq<Seq<char>> {
    let number = crate::text::decimal(host as nat) + seq!['/'];
    seq![
        "cpuset.cpu_exclusive"@,
        "cpuset.mems"@,
        "cpuset.cpus"@,
        "pool/"@ + "cpuset.cpu_exclusive"@,
        "pool/"@ + "cpuset.mems"@,
        "pool/"@ + "cpuset.cpus"@,
        "pool/"@ + "tasks"@,
        number + "cpuset.cpu_exclusive"@,
        number + "cpuset.mems"@,
        number + "cpuset.cpus"@,
        number + "tasks"@,
    ]
}

/// These ends are all different.
#[verifier::spinoff_prover]
#[verifier::rlimit(50)]
proof fn changeable_files_differ(host: usize)
    ensures
        changeable(host).no_duplicates(),
{
    reveal_strlit("cpuset.cpu_exclusive");
    reveal_strlit("cpuset.mems");
    reveal_strlit("cpuset.cpus");
    reveal_strlit("tasks");
    reveal_strlit("pool/");
    let number = crate::text::decimal(host as nat);
    crate::text::decimal_is_read_back(host as nat);
    assert(crate::text::is_digit(number[0]));
    let own = number + seq!['/'];
    let all = changeable(host);
    assert("cpuset.mems"@[7] == 'm' && "cpuset.cpus"@[7] == 'c');
    ends_tell_paths_apart("pool/"@, "cpuset.mems"@, "cpuset.cpus"@);
    ends_tell_paths_apart(own, "cpuset.mems"@, "cpuset.cpus"@);
    assert forall|i: int| 0 <= i < 3 implies (#[trigger] all[i])[0] == 'c' by {}
    assert forall|i: int| 3 <= i < 7 implies (#[trigger] all[i])[0] == 'p' by {}
    assert forall|i: int| 7 <= i < 11 implies (#[trigger] all[i])[0] == number[0] by {}
    assert(all[0].len() == 20 && all[1].len() == 11 && all[2].len() == 11);
    assert(all[3].len() == 25 && all[4].len() == 16 && all[5].len() == 16 && all[6].len() == 10);
    assert(all[7].len() == own.len() + 20 && all[8].len() == own.len() + 11 && all[9].len()
        == own.len() + 11 && all[10].len() == own.len() + 5);
    assert(all[1] != all[2]);
    assert(all[4] != all[5]);
    assert(all[8] != all[9]);
    assert forall|i: int, j: int| 0 <= i < all.len() && 0 <= j < all.len() && i != j implies all[i]
        != all[j] by {
        if all[i] == all[j] {
            assert(all[i][0] == all[j][0]);
            assert(all[i].len() == all[j].len());
        }
    }
}

/// The contents of a file that takes those of another one if it is blank.
pub open spec fn kept_or_taken(own: Seq<char>, other: Seq<char>) -> Seq<char> {
    if crate::text::trim(own).len() == 0 {
        crate::text::trim(other)
    } else {
        own
    }
}

/// What setting up the prefix and the pool leaves in the files, over the initial
/// contents of the files.
#[verifier::spinoff_prover]
#[verifier::rlimit(50)]
proof fn configured_files(cpusets: CpuSetView, world: World, host: usize)
    requires
        cpusets.mount_path.len() > 0,
        cpusets.prefix.len() > 0,
        !cpusets.prefix.contains('/'),
    ensures
        ({
            let top = slashed(cpusets.mount_path);
            let own = home(cpusets.mount_path, cpusets.prefix);
            let after = configured(cpusets, world);
            let end = changeable(host);
            &&& after.files[own + end[0]] == "1"@
            &&& after.files[own + end[1]] == kept_or_taken(
                world.files[own + end[1]],
                world.files[top + "cpuset.mems"@],
            )
            &&& after.files[own + end[2]] == kept_or_taken(
                world.files[own + end[2]],
                world.files[top + "cpuset.cpus"@],
            )
            &&& after.files[own + end[3]] == "1"@
            &&& after.files[own + end[4]] == kept_or_taken(
                world.files[own + end[4]],
                after.files[own + end[1]],
            )
            &&& after.files[own + end[5]] == kept_or_taken(
                world.files[own + end[5]],
                after.files[own + end[2]],
            )
            &&& forall|path: Seq<char>|
                (forall|i: int| 0 <= i < 6 ==> path != own + #[trigger] end[i])
                    ==> #[trigger] after.files[path] == world.files[path]
            &&& after.created == world.created.insert(top + cpusets.prefix).insert(own + "pool"@)
            &&& after.removed == world.removed
            &&& after.mounted == world.mounted
            &&& after.careless == world.careless
            &&& after.open == world.open
            &&& forall|task: Seq<char>| #[trigger]
                after.written.contains((own + end[6], task)) <==> world.written.contains(
                    (own + end[6], task),
                )
        }),
{
    let top = slashed(cpusets.mount_path);
    let own = home(cpusets.mount_path, cpusets.prefix);
    let end = changeable(host);
    let started = world.changed(ActionView::CreateDirAll(cpusets.directory())).changed(
        ActionView::Write(
            crate::path::joined(cpusets.directory(), "cpuset.cpu_exclusive"@),
            "1"@,
        ),
    );
    let mems = prefix_filled(cpusets, started, "cpuset.mems"@);
    let cpus = prefix_filled(cpusets, mems, "cpuset.cpus"@);
    let pool = cpus.changed(ActionView::CreateDirAll(cpusets.pool_directory())).changed(
        ActionView::Write(
            crate::path::joined(cpusets.pool_directory(), "cpuset.cpu_exclusive"@),
            "1"@,
        ),
    );
    let held_mems = held(cpusets, started, "cpuset.mems"@);
    let held_cpus = held(cpusets, mems, "cpuset.cpus"@);
    let pool_mems = pool_filled(cpusets, pool, "cpuset.mems"@, held_mems);
    let after = pool_filled(cpusets, pool_mems, "cpuset.cpus"@, held_cpus);
    assert(after == configured(cpusets, world));
    changeable_files_differ(host);
    assert forall|i: int, j: int| 0 <= i < 11 && 0 <= j < 11 && i != j implies #[trigger] (own
        + end[i]) != #[trigger] (own + end[j]) by {
        assert(end[i] != end[j]);
        ends_tell_paths_apart(own, end[i], end[j]);
    }
    assert("cpuset.cpu_exclusive"@[0] == 'c' && "cpuset.mems"@[0] == 'c' && "cpuset.cpus"@[0] == 'c'
        && !"cpuset.mems"@.contains('/') && !"cpuset.cpus"@.contains('/')
        && "cpuset.cpu_exclusive"@.len() > 0 && "cpuset.mems"@.len() > 0 && "cpuset.cpus"@.len()
        > 0) by {
        reveal_strlit("cpuset.cpu_exclusive");
        reveal_strlit("cpuset.mems");
        reveal_strlit("cpuset.cpus");
    }
    paths_below_home(cpusets, host, "cpuset.cpu_exclusive"@);
    paths_below_home(cpusets, host, "cpuset.mems"@);
    paths_below_home(cpusets, host, "cpuset.cpus"@);
    assert forall|i: int| 0 <= i < 11 implies top + "cpuset.mems"@ != #[trigger] (own + end[i])
        && top + "cpuset.cpus"@ != own + end[i] by {
        mount_point_is_apart(top, cpusets.prefix, "cpuset.mems"@, end[i]);
        mount_point_is_apart(top, cpusets.prefix, "cpuset.cpus"@, end[i]);
    }
    let h0 = own + end[0];
    let h1 = own + end[1];
    let h2 = own + end[2];
    let h3 = own + end[3];
    let h4 = own + end[4];
    let h5 = own + end[5];
    let h6 = own + end[6];
    crate::text::trimmed_text_stays(world.files[top + "cpuset.mems"@]);
    crate::text::trimmed_text_stays(world.files[top + "cpuset.cpus"@]);
    assert(after.files[h1] == kept_or_taken(world.files[h1], world.files[top + "cpuset.mems"@]));
    assert(after.files[h2] == kept_or_taken(world.files[h2], world.files[top + "cpuset.cpus"@]));
    assert(crate::text::trim(after.files[h1]) == held_mems);
    assert(crate::text::trim(after.files[h2]) == held_cpus);
    assert forall|path: Seq<char>|
        (forall|i: int| 0 <= i < 6 ==> path != own + #[trigger] end[i]) implies #[trigger] after.files[path]
        == world.files[path] by {
        assert(path != own + end[0] && path != own + end[1] && path != own + end[2] && path != own
            + end[3] && path != own + end[4] && path != own + end[5]);
    }
    assert forall|task: Seq<char>| #[trigger] after.written.contains((h6, task)) <==> world.written.contains(
        (h6, task),
    ) by {
        logged(world.written, h0, "1"@, h6, task);
        logged(
            started.written,
            h1,
            crate::text::trim(world.files[top + "cpuset.mems"@]),
            h6,
            task,
        );
        logged(mems.written, h2, crate::text::trim(world.files[top + "cpuset.cpus"@]), h6, task);
        logged(cpus.written, h3, "1"@, h6, task);
        logged(pool.written, h4, held_mems, h6, task);
        logged(pool_mems.written, h5, held_cpus, h6, task);
    }
}

/// A write to one file is no write to another.
proof fn logged(
    log: Seq<(Seq<char>, Seq<char>)>,
    path: Seq<char>,
    text: Seq<char>,
    other: Seq<char>,
    sought: Seq<char>,
)
    ensures
        log.push((path, text)).contains((other, sought)) <==> log.contains((other, sought)) || (path
            == other && text == sought),
{
    let more = log.push((path, text));
    assert(more[log.len() as int] == (path, text));
    assert(forall|k: int| 0 <= k < log.len() ==> more[k] == #[trigger] log[k]);
}

/// The ends of the paths of the files, written out.
proof fn changeable_files_by_name(host: usize)
    ensures
        ({
            let end = changeable(host);
            let number = crate::text::decimal(host as nat);
            &&& end[3] == "pool/cpuset.cpu_exclusive"@
            &&& end[4] == "pool/cpuset.mems"@
            &&& end[5] == "pool/cpuset.cpus"@
            &&& end[6] == "pool/tasks"@
            &&& end[7] == number + "/cpuset.cpu_exclusive"@
            &&& end[8] == number + "/cpuset.mems"@
            &&& end[9] == number + "/cpuset.cpus"@
            &&& end[10] == number + "/tasks"@
        }),
{
    reveal_strlit("pool/");
    reveal_strlit("cpuset.cpu_exclusive");
    reveal_strlit("cpuset.mems");
    reveal_strlit("cpuset.cpus");
    reveal_strlit("tasks");
    reveal_strlit("pool/cpuset.cpu_exclusive");
    reveal_strlit("pool/cpuset.mems");
    reveal_strlit("pool/cpuset.cpus");
    reveal_strlit("pool/tasks");
    reveal_strlit("/cpuset.cpu_exclusive");
    reveal_strlit("/cpuset.mems");
    reveal_strlit("/cpuset.cpus");
    reveal_strlit("/tasks");
    let end = changeable(host);
    let number = crate::text::decimal(host as nat);
    assert(end[3] =~= "pool/cpuset.cpu_exclusive"@);
    assert(end[4] =~= "pool/cpuset.mems"@);
    assert(end[5] =~= "pool/cpuset.cpus"@);
    assert(end[6] =~= "pool/tasks"@);
    assert(end[7] =~= number + "/cpuset.cpu_exclusive"@);
    assert(end[8] =~= number + "/cpuset.mems"@);
    assert(end[9] =~= number + "/cpuset.cpus"@);
    assert(end[10] =~= number + "/tasks"@);
}

/// When a pinning sets up the CPU sets, a file of the prefix that is blank takes
/// what the mount point has, and a file of the pool that is blank takes what the
/// prefix has by then. Files that are not blank keep what they hold. So the pool
/// has CPUs if the mount point has some. Both are for the prefix and the pool
/// alone, and no other file changes.
pub proof fn prefix_and_pool_are_set_up(
    cpusets: CpuSetView,
    host: usize,
    guest: usize,
    world: World,
) -> (n: nat)
    requires
        cpusets.mount_path.len() > 0,
        cpusets.prefix.len() > 0,
        !cpusets.prefix.contains('/'),
    ensures
        ({
            let start = cpusets.entering(
                StageView::Pinning(host, guest, PinStageView::Configuring),
            );
            let (later, after) = worked(start, world, n);
            let top = slashed(cpusets.mount_path);
            let own = home(cpusets.mount_path, cpusets.prefix);
            let before = world.files;
            let files = after.files;
            &&& later == cpusets.entering(
                StageView::Pinning(host, guest, PinStageView::Listing),
            )
            &&& files[own + "cpuset.mems"@] == kept_or_taken(
                before[own + "cpuset.mems"@],
                before[top + "cpuset.mems"@],
            )
            &&& files[own + "cpuset.cpus"@] == kept_or_taken(
                before[own + "cpuset.cpus"@],
                before[top + "cpuset.cpus"@],
            )
            &&& files[own + "pool/cpuset.mems"@] == kept_or_taken(
                before[own + "pool/cpuset.mems"@],
                files[own + "cpuset.mems"@],
            )
            &&& files[own + "pool/cpuset.cpus"@] == kept_or_taken(
                before[own + "pool/cpuset.cpus"@],
                files[own + "cpuset.cpus"@],
            )
            &&& crate::text::trim(before[top + "cpuset.cpus"@]).len() > 0 ==> crate::text::trim(
                files[own + "pool/cpuset.cpus"@],
            ).len() > 0
            &&& files[own + "cpuset.cpu_exclusive"@] == "1"@
            &&& files[own + "pool/cpuset.cpu_exclusive"@] == "1"@
            &&& forall|path: Seq<char>|
                !seq![
                    own + "cpuset.cpu_exclusive"@,
                    own + "cpuset.mems"@,
                    own + "cpuset.cpus"@,
                    own + "pool/cpuset.cpu_exclusive"@,
                    own + "pool/cpuset.mems"@,
                    own + "pool/cpuset.cpus"@,
                ].contains(path) ==> #[trigger] files[path] == before[path]
            &&& after.created == world.created.insert(top + cpusets.prefix).insert(own + "pool"@)
        }),
{
    let start = cpusets.entering(StageView::Pinning(host, guest, PinStageView::Configuring));
    let n = configuring_works(start, host, guest, world);
    configured_files(start, world, host);
    changeable_files_by_name(host);
    let top = slashed(cpusets.mount_path);
    let own = home(cpusets.mount_path, cpusets.prefix);
    let end = changeable(host);
    let files = configured(start, world).files;
    crate::text::trimmed_text_stays(world.files[top + "cpuset.cpus"@]);
    crate::text::trimmed_text_stays(files[own + "cpuset.cpus"@]);
    let touched = seq![
        own + "cpuset.cpu_exclusive"@,
        own + "cpuset.mems"@,
        own + "cpuset.cpus"@,
        own + "pool/cpuset.cpu_exclusive"@,
        own + "pool/cpuset.mems"@,
        own + "pool/cpuset.cpus"@,
    ];
    assert forall|path: Seq<char>| !touched.contains(path) implies #[trigger] files[path]
        == world.files[path] by {
        assert forall|i: int| 0 <= i < 6 implies path != own + #[trigger] end[i] by {
            assert(touched[i] == own + end[i]);
        }
    }
    n
}

/// Reading the status of a task does not meet the files that are set up.
proof fn status_is_apart(task: Seq<char>, own: Seq<char>, host: usize)
    ensures
        forall|i: int| 0 <= i < 6 ==> status_path(task) != own + #[trigger] changeable(host)[i],
{
    reveal_strlit("status");
    reveal_strlit("cpuset.cpu_exclusive");
    reveal_strlit("cpuset.mems");
    reveal_strlit("cpuset.cpus");
    let end = changeable(host);
    let status = status_path(task);
    let inner = crate::path::joined(task, "status"@);
    assert(inner[inner.len() - 2] == 'u' && inner[inner.len() - 3] == 't');
    assert(status[status.len() - 2] == 'u' && status[status.len() - 3] == 't');
    assert forall|i: int| 0 <= i < 6 implies status != own + #[trigger] end[i] by {
        let path = own + end[i];
        let n = end[i].len();
        assert(path[path.len() - 2] == end[i][n - 2] && path[path.len() - 3] == end[i][n - 3]);
    }
}

/// The path of the status of a task by its name.
proof fn status_by_name(task: Seq<char>)
    requires
        task.len() > 0,
        !task.contains('/'),
    ensures
        status_path(task) == "/proc/"@ + task + "/status"@,
{
    reveal_strlit("/proc");
    reveal_strlit("/proc/");
    reveal_strlit("status");
    reveal_strlit("/status");
    assert(task.contains(task[0]));
    assert(task.contains(task[task.len() - 1]));
    let inner = crate::path::joined(task, "status"@);
    assert(inner =~= task + "/status"@);
    assert(status_path(task) =~= "/proc/"@ + task + "/status"@);
}

/// A pinning to a host CPU that nothing hinders succeeds, and leaves this behind:
///
/// - The prefix and the pool are set up.
/// - Every task of the mount point that may run on the CPUs of the pool, and on no
///   others, has been moved to the pool.
/// - If the host CPU was not isolated, the pool has lost it, but no other CPU, and
///   the CPU has a CPU set of its own, with the memory nodes of the prefix.
/// - The task is in the CPU set of the host CPU.
/// - No other file has changed, and none that was open without being locked.
#[verifier::spinoff_prover]
#[verifier::rlimit(80)]
pub proof fn pinning_leaves_behind(
    cpusets: CpuSetView,
    host: usize,
    guest: usize,
    world: World,
) -> (n: nat)
    requires
        cpusets.mount_path.len() > 0,
        cpusets.prefix.len() > 0,
        !cpusets.prefix.contains('/'),
    ensures
        ({
            let (later, after) = worked(cpusets.pinning(host, guest), world, n);
            let top = slashed(cpusets.mount_path);
            let own = home(cpusets.mount_path, cpusets.prefix);
            let number = crate::text::decimal(host as nat);
            let before = world.files;
            let files = after.files;
            let fresh = !cpusets.isolated.contains(host);
            let pool = kept_or_taken(
                before[own + "pool/cpuset.cpus"@],
                files[own + "cpuset.cpus"@],
            );
            let cpus = crate::cpu_list::listed_cpus(crate::text::trim(pool));
            &&& later.stage == StageView::Finished(Ok(()))
            &&& later.isolated == if fresh {
                cpusets.isolated.push(host)
            } else {
                cpusets.isolated
            }
            &&& after.mounted.contains(cpusets.mount_path)
            &&& after.careless == world.careless
            &&& after.created.contains(cpusets.mount_path)
            &&& after.created.contains(top + cpusets.prefix)
            &&& after.created.contains(own + "pool"@)
            &&& fresh ==> after.created.contains(own + number)
            &&& files[own + "cpuset.mems"@] == kept_or_taken(
                before[own + "cpuset.mems"@],
                before[top + "cpuset.mems"@],
            )
            &&& files[own + "cpuset.cpus"@] == kept_or_taken(
                before[own + "cpuset.cpus"@],
                before[top + "cpuset.cpus"@],
            )
            &&& files[own + "pool/cpuset.mems"@] == kept_or_taken(
                before[own + "pool/cpuset.mems"@],
                files[own + "cpuset.mems"@],
            )
            &&& files[own + "cpuset.cpu_exclusive"@] == "1"@
            &&& files[own + "pool/cpuset.cpu_exclusive"@] == "1"@
            &&& !fresh ==> files[own + "pool/cpuset.cpus"@] == pool
            &&& fresh && cpus is Some ==> {
                let rest = crate::cpu_list::listed_cpus(files[own + "pool/cpuset.cpus"@]);
                &&& rest is Some
                &&& !rest->0.contains(host)
                &&& forall|cpu: usize|
                    cpu != host ==> (#[trigger] rest->0.contains(cpu) <==> cpus->0.contains(cpu))
            }
            &&& fresh ==> files[own + (number + "/cpuset.cpus"@)] == number
            &&& fresh ==> files[own + (number + "/cpuset.mems"@)] == files[own + "cpuset.mems"@]
            &&& fresh ==> files[own + (number + "/cpuset.cpu_exclusive"@)] == "1"@
            &&& files[own + (number + "/tasks"@)] == crate::text::decimal(guest as nat)
            &&& forall|task: Seq<char>|
                task.len() > 0 && !task.contains('/') && cpus is Some ==> (
                #[trigger] after.written.contains((own + "pool/tasks"@, task))
                    <==> world.written.contains((own + "pool/tasks"@, task)) || (
                crate::text::lines(before[top + "tasks"@]).contains(task)
                    && crate::task_status::allowed_cpus(
                    task,
                    before["/proc/"@ + task + "/status"@],
                ) == Ok::<Seq<usize>, crate::error::ErrorView>(cpus->0)))
            &&& forall|path: Seq<char>|
                (forall|i: int| 0 <= i < 11 ==> path != own + #[trigger] changeable(host)[i])
                    ==> #[trigger] files[path] == before[path]
        }),
{
    let top = slashed(cpusets.mount_path);
    let own = home(cpusets.mount_path, cpusets.prefix);
    let number = crate::text::decimal(host as nat);
    let end = changeable(host);
    let fresh = !cpusets.isolated.contains(host);
    let start = cpusets.pinning(host, guest);
    let n1 = mounting_works(start, host, guest, world);
    let c1 = start.entering(StageView::Pinning(host, guest, PinStageView::Configuring));
    let w1 = mounted(start, world);
    let n2 = configuring_works(c1, host, guest, w1);
    work_goes_on(start, world, n1, n2);
    let c2 = c1.entering(StageView::Pinning(host, guest, PinStageView::Listing));
    let w2 = configured(c1, w1);
    listing_works(c2, host, guest, w2);
    work_goes_on(start, world, n1 + n2, 2);
    let c3 = listed(c2, host, guest, w2);
    let n3: nat = if c3.tasks.len() == 0 {
        0
    } else {
        migrating_works(c3, host, guest, w2, 0)
    };
    work_goes_on(start, world, n1 + n2 + 2, n3);
    let c4 = c3.entering(StageView::Pinning(host, guest, PinStageView::Checking));
    let w4 = migrated(c3, w2, 0);
    assert(worked(start, world, n1 + n2 + 2 + n3) == (c4, w4)) by {
        if c3.tasks.len() == 0 {
            reveal_with_fuel(worked, 1);
            assert(c4 == c3);
        }
    }
    checking_works(c4, host, guest, w4);
    let n4 = n1 + n2 + 2 + n3;
    work_goes_on(start, world, n4, 1);

    configured_files(c1, w1, host);
    migration_moves_tasks(c3, w2, 0);
    changeable_files_differ(host);
    changeable_files_by_name(host);
    assert forall|i: int, j: int| 0 <= i < 11 && 0 <= j < 11 && i != j implies #[trigger] (own
        + end[i]) != #[trigger] (own + end[j]) by {
        assert(end[i] != end[j]);
        ends_tell_paths_apart(own, end[i], end[j]);
    }
    assert("cpuset.cpu_exclusive"@[0] == 'c' && "cpuset.mems"@[0] == 'c' && "cpuset.cpus"@[0] == 'c'
        && "tasks"@[0] == 't' && !"tasks"@.contains('/') && "cpuset.cpu_exclusive"@.len() > 0
        && "cpuset.mems"@.len() > 0 && "cpuset.cpus"@.len() > 0 && "tasks"@.len() > 0) by {
        reveal_strlit("cpuset.cpu_exclusive");
        reveal_strlit("cpuset.mems");
        reveal_strlit("cpuset.cpus");
        reveal_strlit("tasks");
    }
    paths_below_home(c1, host, "cpuset.cpu_exclusive"@);
    paths_below_home(c1, host, "cpuset.mems"@);
    paths_below_home(c1, host, "cpuset.cpus"@);
    paths_below_home(c1, host, "tasks"@);
    assert forall|i: int| 0 <= i < 6 implies top + "tasks"@ != own + #[trigger] end[i] by {
        mount_point_is_apart(top, cpusets.prefix, "tasks"@, end[i]);
    }
    assert(w2.files[top + "tasks"@] == world.files[top + "tasks"@]);
    let pool = w2.files[own + end[5]];
    let cpus = crate::cpu_list::listed_cpus(crate::text::trim(pool));
    assert(c3.pool == cpus->0);
    assert(w4.files[own + end[5]] == pool);
    assert forall|task: Seq<char>|
        task.len() > 0 && !task.contains('/') && cpus is Some implies (#[trigger] w4.written.contains(
        (own + end[6], task),
    ) <==> world.written.contains((own + end[6], task)) || (crate::text::lines(
        world.files[top + "tasks"@],
    ).contains(task) && crate::task_status::allowed_cpus(
        task,
        world.files["/proc/"@ + task + "/status"@],
    ) == Ok::<Seq<usize>, crate::error::ErrorView>(cpus->0))) by {
        status_by_name(task);
        status_is_apart(task, own, host);
        assert(w2.files[status_path(task)] == world.files[status_path(task)]);
        assert(c3.tasks == crate::text::lines(world.files[top + "tasks"@]));
        assert(c3.tasks.contains(task) <==> exists|i: int|
            0 <= i < c3.tasks.len() && #[trigger] c3.tasks[i] == task);
        assert(w2.written.contains((own + end[6], task)) <==> world.written.contains(
            (own + end[6], task),
        ));
    }
    let attach = ActionView::Write(own + end[10], crate::text::decimal(guest as nat));
    if fresh {
        let c5 = c4.entering(StageView::Pinning(host, guest, PinStageView::Splitting));
        splitting_works(c5, host, guest, w4);
        work_goes_on(start, world, n4 + 1, 5);
        let c6 = c5.entering(StageView::Pinning(host, guest, PinStageView::Preparing));
        let rest = crate::cpu_list::without_cpu(cpus->0, host);
        let w6 = World {
            open: own + end[5],
            locked: true,
            files: w4.files.insert(own + end[5], crate::cpu_list::cpus_text(rest)),
            ..w4
        };
        preparing_works(c6, host, guest, w6);
        work_goes_on(start, world, n4 + 6, 5);
        let c7 = CpuSetView { isolated: c6.isolated.push(host), ..c6 }.entering(
            StageView::Pinning(host, guest, PinStageView::Attaching),
        );
        let w7 = prepared(c6, host, w6);
        attaching_works(c7, host, guest, w7);
        work_goes_on(start, world, n4 + 11, 1);
        let after = w7.changed(attach);
        assert(worked(start, world, n4 + 12) == (
            c7.entering(StageView::Finished(Ok(()))),
            after,
        ));
        crate::cpu_list::written_cpus_are_read_back(rest);
        crate::cpu_list::taken_cpu_is_gone(cpus->0, host);
        assert(after.files[own + end[5]] == crate::cpu_list::cpus_text(rest));
        assert(after.files[own + end[9]] == number);
        assert(after.files[own + end[8]] == w2.files[own + end[1]]);
        assert(after.files[own + end[7]] == "1"@);
        assert(after.files[own + end[10]] == crate::text::decimal(guest as nat));
        assert forall|i: int| 0 <= i < 5 implies #[trigger] after.files[own + end[i]] == w2.files[own
            + end[i]] by {
            assert(own + end[i] != own + end[6]);
            assert(own + end[i] != own + end[5]);
            assert(own + end[i] != own + end[7]);
            assert(own + end[i] != own + end[8]);
            assert(own + end[i] != own + end[9]);
            assert(own + end[i] != own + end[10]);
        }
        let made = w6.changed(ActionView::CreateDirAll(own + number));
        let m1 = made.changed(ActionView::Write(own + end[8], w6.files[own + end[1]]));
        let m2 = m1.changed(ActionView::Write(own + end[7], "1"@));
        assert forall|task: Seq<char>| #[trigger] after.written.contains((own + end[6], task))
            <==> w4.written.contains((own + end[6], task)) by {
            logged(made.written, own + end[8], w6.files[own + end[1]], own + end[6], task);
            logged(m1.written, own + end[7], "1"@, own + end[6], task);
            logged(m2.written, own + end[9], number, own + end[6], task);
            logged(
                w7.written,
                own + end[10],
                crate::text::decimal(guest as nat),
                own + end[6],
                task,
            );
        }
        assert forall|path: Seq<char>|
            (forall|i: int| 0 <= i < 11 ==> path != own + #[trigger] changeable(host)[i]) implies #[trigger] after.files[path]
            == world.files[path] by {
            assert(path != own + end[5] && path != own + end[6] && path != own + end[7] && path
                != own + end[8] && path != own + end[9] && path != own + end[10]);
            assert(forall|i: int| 0 <= i < 6 ==> path != own + #[trigger] end[i]);
        }
        n4 + 12
    } else {
        let c5 = c4.entering(StageView::Pinning(host, guest, PinStageView::Attaching));
        attaching_works(c5, host, guest, w4);
        work_goes_on(start, world, n4 + 1, 1);
        let after = w4.changed(attach);
        assert(worked(start, world, n4 + 2) == (c5.entering(StageView::Finished(Ok(()))), after));
        assert forall|i: int| 0 <= i < 6 implies #[trigger] after.files[own + end[i]] == w2.files[own
            + end[i]] by {
            assert(own + end[i] != own + end[6]);
            assert(own + end[i] != own + end[10]);
        }
        assert forall|task: Seq<char>| #[trigger] after.written.contains((own + end[6], task))
            <==> w4.written.contains((own + end[6], task)) by {
            logged(
                w4.written,
                own + end[10],
                crate::text::decimal(guest as nat),
                own + end[6],
                task,
            );
        }
        assert forall|path: Seq<char>|
            (forall|i: int| 0 <= i < 11 ==> path != own + #[trigger] changeable(host)[i]) implies #[trigger] after.files[path]
            == world.files[path] by {
            assert(path != own + end[6] && path != own + end[10]);
            assert(forall|i: int| 0 <= i < 6 ==> path != own + #[trigger] end[i]);
        }
        n4 + 2
    }
}

/// One action of a release.
proof fn releasing_advances(
    cpusets: CpuSetView,
    at: nat,
    errors: bool,
    replies: Seq<ReplyView>,
    world: World,
)
    requires
        cpusets.stage == StageView::Releasing(at, errors),
        replies.len() < cpusets.script(replies).len(),
    ensures
        ({
            let action = cpusets.script(replies)[replies.len() as int];
            let more = replies.push(world.answer(action));
            worked(with_replies(cpusets, replies), world, 1) == (
                if more.len() < cpusets.script(more).len() {
                    with_replies(cpusets, more)
                } else {
                    cpusets.after_release(
                        at,
                        errors || crate::text::trim(crate::exchange::text_at(more, 0)).len() > 0,
                    )
                },
                world.changed(action),
            )
        }),
{
    let action = cpusets.script(replies)[replies.len() as int];
    let reply = world.answer(action);
    let more = replies.push(reply);
    let now = with_replies(cpusets, replies);
    assert(now.script(replies) == cpusets.script(replies));
    assert(now.script(more) == cpusets.script(more));
    reveal_with_fuel(worked, 2);
}

/// The path of the list of tasks on a host CPU.
spec fn tasks_path(cpusets: CpuSetView, id: usize) -> Seq<char> {
    crate::path::joined(cpusets.thread_directory(id), "tasks"@)
}

/// The path of the list of the CPUs of the pool.
spec fn pool_path(cpusets: CpuSetView) -> Seq<char> {
    crate::path::joined(cpusets.pool_directory(), "cpuset.cpus"@)
}

/// Whether no task is on a host CPU.
spec fn is_free(cpusets: CpuSetView, world: World, id: usize) -> bool {
    crate::text::trim(first_line(world.files[tasks_path(cpusets, id)])).len() == 0
}

/// The files after a host CPU was released.
spec fn freed(cpusets: CpuSetView, world: World, id: usize) -> World {
    let pool = pool_path(cpusets);
    let cpus = crate::cpu_list::listed_cpus(crate::text::trim(world.files[pool]))->0;
    if is_free(cpusets, world, id) {
        World {
            removed: world.removed.insert(cpusets.thread_directory(id)),
            open: pool,
            locked: true,
            files: world.files.insert(pool, crate::cpu_list::cpus_text(cpus.push(id))),
            ..world
        }
    } else {
        world
    }
}

/// Releasing a host CPU, action by action.
#[verifier::spinoff_prover]
#[verifier::rlimit(50)]
proof fn releasing_works(cpusets: CpuSetView, at: nat, errors: bool, world: World) -> (n: nat)
    requires
        cpusets.stage == StageView::Releasing(at, errors),
        cpusets.replies.len() == 0,
        at < cpusets.isolated.len(),
    ensures
        ({
            let id = cpusets.isolated[at as int];
            worked(cpusets, world, n) == (
                cpusets.after_release(at, errors || !is_free(cpusets, world, id)),
                freed(cpusets, world, id),
            )
        }),
{
    let id = cpusets.isolated[at as int];
    let line = first_line(world.files[tasks_path(cpusets, id)]);
    let pool = pool_path(cpusets);
    let directory = cpusets.thread_directory(id);
    let r0 = Seq::<ReplyView>::empty();
    let r1 = r0.push(ReplyView::Text(line));
    stage_starts_without_replies(cpusets);
    assert(cpusets.script(r0)[0] == ActionView::ReadLine(tasks_path(cpusets, id)));
    assert(crate::exchange::text_at(r1, 0) == line);
    releasing_advances(cpusets, at, errors, r0, world);
    if is_free(cpusets, world, id) {
        let cpus = crate::cpu_list::listed_cpus(crate::text::trim(world.files[pool]))->0;
        let text = crate::cpu_list::cpus_text(cpus.push(id));
        let r2 = r1.push(ReplyView::Done);
        let w2 = world.changed(ActionView::RemoveDir(directory));
        let r3 = r2.push(ReplyView::Done);
        let w3 = w2.changed(ActionView::Open(pool));
        let w4 = w3.changed(ActionView::Lock);
        let r4 = r3.push(ReplyView::Done);
        let r5 = r4.push(ReplyView::Text(world.files[pool]));
        let r6 = r5.push(ReplyView::Done);
        let w6 = w4.changed(ActionView::Trim);
        let r7 = r6.push(ReplyView::Done);
        assert(crate::exchange::text_at(r2, 0) == line);
        assert(crate::exchange::text_at(r3, 0) == line);
        assert(crate::exchange::text_at(r4, 0) == line);
        assert(crate::exchange::text_at(r5, 0) == line);
        assert(crate::exchange::text_at(r6, 0) == line);
        assert(crate::exchange::text_at(r7, 0) == line);
        assert(crate::exchange::text_at(r6, 4) == world.files[pool]);
        assert(cpusets.script(r1)[1] == ActionView::RemoveDir(directory));
        assert(cpusets.script(r2)[2] == ActionView::Open(pool));
        assert(cpusets.script(r3)[3] == ActionView::Lock);
        assert(cpusets.script(r4)[4] == ActionView::ReadString);
        assert(cpusets.script(r5)[5] == ActionView::Trim);
        assert(cpusets.script(r6)[6] == ActionView::WriteString(text));
        assert(cpusets.script(r7).len() == 7);
        releasing_advances(cpusets, at, errors, r1, world);
        releasing_advances(cpusets, at, errors, r2, w2);
        releasing_advances(cpusets, at, errors, r3, w3);
        releasing_advances(cpusets, at, errors, r4, w4);
        releasing_advances(cpusets, at, errors, r5, w4);
        releasing_advances(cpusets, at, errors, r6, w6);
        work_goes_on(cpusets, world, 1, 1);
        work_goes_on(cpusets, world, 2, 1);
        work_goes_on(cpusets, world, 3, 1);
        work_goes_on(cpusets, world, 4, 1);
        work_goes_on(cpusets, world, 5, 1);
        work_goes_on(cpusets, world, 6, 1);
        let end = w6.changed(ActionView::WriteString(text));
        assert(Seq::<char>::empty() + text =~= text);
        assert(end.files =~= world.files.insert(pool, text));
        7
    } else {
        1
    }
}

/// What a release has changed when the first few isolated CPUs have had their turn.
spec fn is_freed(
    cpusets: CpuSetView,
    before: World,
    cpus: Seq<usize>,
    k: int,
    errors: bool,
    world: World,
) -> bool {
    let free = cpusets.isolated.take(k).filter(|id: usize| is_free(cpusets, before, id));
    &&& world.careless == before.careless
    &&& crate::cpu_list::listed_cpus(crate::text::trim(world.files[pool_path(cpusets)])) == Some(
        cpus + free,
    )
    &&& forall|path: Seq<char>|
        path != pool_path(cpusets) ==> #[trigger] world.files[path] == before.files[path]
    &&& forall|path: Seq<char>| #[trigger]
        world.removed.contains(path) <==> before.removed.contains(path) || exists|i: int|
            0 <= i < k && is_free(cpusets, before, #[trigger] cpusets.isolated[i]) && path
                == cpusets.thread_directory(cpusets.isolated[i])
    &&& errors <==> exists|i: int|
        0 <= i < k && !is_free(cpusets, before, #[trigger] cpusets.isolated[i])
}

/// The lists of tasks are no list of the CPUs of the pool.
proof fn tasks_are_no_cpus(cpusets: CpuSetView, id: usize)
    ensures
        tasks_path(cpusets, id) != pool_path(cpusets),
{
    reveal_strlit("tasks");
    reveal_strlit("cpuset.cpus");
    let tasks = tasks_path(cpusets, id);
    let pool = pool_path(cpusets);
    assert(tasks[tasks.len() - 2] == 'k');
    assert(pool[pool.len() - 2] == 'u');
}

/// One more isolated CPU has its turn.
#[verifier::spinoff_prover]
#[verifier::rlimit(50)]
proof fn one_more_is_freed(
    cpusets: CpuSetView,
    before: World,
    cpus: Seq<usize>,
    k: int,
    errors: bool,
    world: World,
)
    requires
        0 <= k < cpusets.isolated.len(),
        is_freed(cpusets, before, cpus, k, errors, world),
    ensures
        is_free(cpusets, world, cpusets.isolated[k]) == is_free(
            cpusets,
            before,
            cpusets.isolated[k],
        ),
        is_freed(
            cpusets,
            before,
            cpus,
            k + 1,
            errors || !is_free(cpusets, before, cpusets.isolated[k]),
            freed(cpusets, world, cpusets.isolated[k]),
        ),
{
    let id = cpusets.isolated[k];
    let keep = |id: usize| is_free(cpusets, before, id);
    let free = cpusets.isolated.take(k).filter(keep);
    let more = cpusets.isolated.take(k + 1).filter(keep);
    let after = freed(cpusets, world, id);
    tasks_are_no_cpus(cpusets, id);
    assert(cpusets.isolated.take(k + 1).drop_last() =~= cpusets.isolated.take(k));
    assert(cpusets.isolated.take(k + 1).last() == id);
    assert(more == if keep(id) { free.push(id) } else { free }) by {
        reveal(Seq::filter);
    }
    let grown = (cpus + free).push(id);
    crate::cpu_list::written_file_is_read_back(grown);
    assert(grown =~= cpus + free.push(id));
    assert forall|path: Seq<char>| #[trigger] after.removed.contains(path) <==> before.removed.contains(
        path,
    ) || exists|i: int|
        0 <= i < k + 1 && is_free(cpusets, before, #[trigger] cpusets.isolated[i]) && path
            == cpusets.thread_directory(cpusets.isolated[i]) by {
        assert(world.removed.contains(path) <==> before.removed.contains(path) || exists|i: int|
            0 <= i < k && is_free(cpusets, before, #[trigger] cpusets.isolated[i]) && path
                == cpusets.thread_directory(cpusets.isolated[i]));
        if exists|i: int|
            0 <= i < k && is_free(cpusets, before, #[trigger] cpusets.isolated[i]) && path
                == cpusets.thread_directory(cpusets.isolated[i]) {
            let i = choose|i: int|
                0 <= i < k && is_free(cpusets, before, #[trigger] cpusets.isolated[i]) && path
                    == cpusets.thread_directory(cpusets.isolated[i]);
            assert(0 <= i < k + 1);
        }
        assert(cpusets.isolated[k] == id);
    }
    let failed = errors || !is_free(cpusets, before, id);
    assert(failed <==> exists|i: int|
        0 <= i < k + 1 && !is_free(cpusets, before, #[trigger] cpusets.isolated[i])) by {
        if errors {
            let i = choose|i: int|
                0 <= i < k && !is_free(cpusets, before, #[trigger] cpusets.isolated[i]);
            assert(0 <= i < k + 1);
        }
        assert(cpusets.isolated[k] == id);
    }
}

/// The rest of a release, from an isolated CPU on.
proof fn rest_is_freed(
    cpusets: CpuSetView,
    before: World,
    cpus: Seq<usize>,
    at: nat,
    errors: bool,
    world: World,
) -> (n: nat)
    requires
        cpusets.stage == StageView::Releasing(at, errors),
        cpusets.replies.len() == 0,
        at < cpusets.isolated.len(),
        is_freed(cpusets, before, cpus, at as int, errors, world),
    ensures
        ({
            let (later, after) = worked(cpusets, world, n);
            let errors = exists|i: int|
                0 <= i < cpusets.isolated.len() && !is_free(
                    cpusets,
                    before,
                    #[trigger] cpusets.isolated[i],
                );
            &&& later.stage == StageView::Finished(crate::cpuset::release_result(errors))
            &&& later.isolated.len() == 0
            &&& is_freed(
                cpusets,
                before,
                cpus,
                cpusets.isolated.len() as int,
                errors,
                after,
            )
        }),
    decreases cpusets.isolated.len() - at,
{
    let id = cpusets.isolated[at as int];
    let steps = releasing_works(cpusets, at, errors, world);
    one_more_is_freed(cpusets, before, cpus, at as int, errors, world);
    let failed = errors || !is_free(cpusets, before, id);
    let changed = freed(cpusets, world, id);
    let next = cpusets.after_release(at, failed);
    if at + 1 < cpusets.isolated.len() {
        same_freeing(next, cpusets, before, cpus, (at + 1) as int, failed, changed);
        let n = rest_is_freed(next, before, cpus, at + 1, failed, changed);
        let (later, after) = worked(next, changed, n);
        let whole = exists|i: int|
            0 <= i < next.isolated.len() && !is_free(next, before, #[trigger] next.isolated[i]);
        same_freeing(
            next,
            cpusets,
            before,
            cpus,
            cpusets.isolated.len() as int,
            whole,
            after,
        );
        assert(forall|i: usize| is_free(next, before, i) == is_free(cpusets, before, i));
        work_goes_on(cpusets, world, steps, n);
        steps + n
    } else {
        steps
    }
}

/// Which stage the CPU sets are in does not matter to what is released.
proof fn same_freeing(
    a: CpuSetView,
    b: CpuSetView,
    before: World,
    cpus: Seq<usize>,
    k: int,
    errors: bool,
    world: World,
)
    requires
        a.mount_path == b.mount_path,
        a.prefix == b.prefix,
        a.isolated == b.isolated,
    ensures
        is_freed(a, before, cpus, k, errors, world) == is_freed(
            b,
            before,
            cpus,
            k,
            errors,
            world,
        ),
{
    assert(forall|id: usize| is_free(a, before, id) == is_free(b, before, id));
    assert((|id: usize| is_free(a, before, id)) =~= (|id: usize| is_free(b, before, id)));
    assert(forall|id: usize| a.thread_directory(id) == b.thread_directory(id));
}

/// A release that nothing hinders gives the isolated CPUs that no task is on back
/// to the pool, behind the CPUs that the pool has, and removes their CPU sets. A
/// CPU that a task is on stays as it is, and the release ends with an error then,
/// but not otherwise. No other file changes, and none that is open without being
/// locked. No CPU counts as isolated any more.
pub proof fn release_leaves_behind(
    cpusets: CpuSetView,
    world: World,
    cpus: Seq<usize>,
) -> (n: nat)
    requires
        cpusets.mount_path.len() > 0,
        cpusets.prefix.len() > 0,
        !cpusets.prefix.contains('/'),
        crate::cpu_list::listed_cpus(
            crate::text::trim(
                world.files[home(cpusets.mount_path, cpusets.prefix) + "pool/cpuset.cpus"@],
            ),
        ) == Some(cpus),
    ensures
        ({
            let (later, after) = worked(cpusets.releasing(), world, n);
            let own = home(cpusets.mount_path, cpusets.prefix);
            let path = own + "pool/cpuset.cpus"@;
            let directory = |id: usize| own + crate::text::decimal(id as nat);
            let is_left = |id: usize|
                crate::text::trim(first_line(world.files[directory(id) + "/tasks"@])).len() == 0;
            let ids = cpusets.isolated;
            &&& after.careless == world.careless
            &&& later.isolated.len() == 0
            &&& later.stage is Finished
            &&& later.stage->Finished_0 is Ok <==> forall|i: int|
                0 <= i < ids.len() ==> is_left(#[trigger] ids[i])
            &&& later.stage->Finished_0 is Err ==> later.stage->Finished_0->Err_0
                == (crate::error::ErrorView {
                kind: crate::error::ErrorKind::Other,
                message: "Failed to release some of the pinned threads."@,
            })
            &&& crate::cpu_list::listed_cpus(crate::text::trim(after.files[path])) == Some(
                cpus + ids.filter(is_left),
            )
            &&& forall|other: Seq<char>|
                other != path ==> #[trigger] after.files[other] == world.files[other]
            &&& forall|gone: Seq<char>| #[trigger]
                after.removed.contains(gone) <==> world.removed.contains(gone) || exists|i: int|
                    0 <= i < ids.len() && is_left(#[trigger] ids[i]) && gone == directory(ids[i])
        }),
{
    let own = home(cpusets.mount_path, cpusets.prefix);
    let path = own + "pool/cpuset.cpus"@;
    let directory = |id: usize| own + crate::text::decimal(id as nat);
    let is_left = |id: usize|
        crate::text::trim(first_line(world.files[directory(id) + "/tasks"@])).len() == 0;
    let ids = cpusets.isolated;
    let start = cpusets.releasing();
    let keep = |id: usize| is_free(start, world, id);
    reveal_strlit("tasks");
    reveal_strlit("cpuset.cpus");
    changeable_files_by_name(0);
    paths_below_home(start, 0, "cpuset.cpus"@);
    assert(pool_path(start) == path);
    assert forall|id: usize| #[trigger] is_free(start, world, id) == is_left(id) && start.thread_directory(
        id,
    ) == directory(id) by {
        paths_below_home(start, id, "tasks"@);
        changeable_files_by_name(id);
        let number = crate::text::decimal(id as nat);
        assert(tasks_path(start, id) == own + (number + seq!['/'] + "tasks"@));
        assert(own + (number + "/tasks"@) =~= own + number + "/tasks"@);
    }
    assert forall|id: usize| #[trigger] keep(id) == is_left(id) by {
        assert(is_free(start, world, id) == is_left(id));
    }
    assert(keep =~= is_left);
    assert(ids.take(0) =~= Seq::<usize>::empty());
    assert(ids.take(0).filter(keep) =~= Seq::<usize>::empty()) by {
        reveal(Seq::filter);
    }
    assert(cpus + Seq::<usize>::empty() =~= cpus);
    assert(is_freed(start, world, cpus, 0, false, world));
    assert(ids.take(ids.len() as int) =~= ids);
    if ids.len() == 0 {
        reveal_with_fuel(worked, 1);
        assert(ids =~= ids.take(0));
        0
    } else {
        let n = rest_is_freed(start, world, cpus, 0, false, world);
        let after = worked(start, world, n).1;
        let later = worked(start, world, n).0;
        let errors = exists|i: int|
            0 <= i < ids.len() && !is_free(start, world, #[trigger] ids[i]);
        assert(errors <==> !(forall|i: int| 0 <= i < ids.len() ==> is_left(#[trigger] ids[i]))) by {
            if errors {
                let i = choose|i: int|
                    0 <= i < ids.len() && !is_free(start, world, #[trigger] ids[i]);
                assert(!is_left(ids[i]));
            }
        }
        assert forall|gone: Seq<char>| #[trigger] after.removed.contains(gone) <==> world.removed.contains(
            gone,
        ) || exists|i: int|
            0 <= i < ids.len() && is_left(#[trigger] ids[i]) && gone == directory(ids[i]) by {
            assert(after.removed.contains(gone) <==> world.removed.contains(gone) || exists|i: int|
                0 <= i < ids.len() && is_free(start, world, #[trigger] start.isolated[i]) && gone
                    == start.thread_directory(start.isolated[i]));
            if exists|i: int|
                0 <= i < ids.len() && is_left(#[trigger] ids[i]) && gone == directory(ids[i]) {
                let i = choose|i: int|
                    0 <= i < ids.len() && is_left(#[trigger] ids[i]) && gone == directory(ids[i]);
                assert(is_free(start, world, start.isolated[i]));
            }
            if exists|i: int|
                0 <= i < ids.len() && is_free(start, world, #[trigger] start.isolated[i]) && gone
                    == start.thread_directory(start.isolated[i]) {
                let i = choose|i: int|
                    0 <= i < ids.len() && is_free(start, world, #[trigger] start.isolated[i])
                        && gone == start.thread_directory(start.isolated[i]);
                assert(is_left(ids[i]) && gone == directory(ids[i]));
            }
        }
        n
    }
}

} // verus!
