//! Which task runs which vCPU.
use crate::error::{Error, ErrorView};
use crate::json_value::{Json, JsonView};
use crate::text::usize_text;
use vstd::prelude::*;

verus! {

/// A vCPU by its socket, core and thread.
pub type VcpuId = (usize, usize, usize);

/// The tasks of the vCPUs.
#[derive(Debug)]
pub struct Topology {
    tasks: Vec<(VcpuId, usize)>,
}

impl View for Topology {
    type V = Map<VcpuId, usize>;

    closed spec fn view(&self) -> Map<VcpuId, usize> {
        crate::pairs::by_key(self.tasks@)
    }
}

/// Whether a row lists the values of a map: the value of each key once, in some
/// order.
pub open spec fn lists_values(row: Seq<usize>, map: Map<VcpuId, usize>) -> bool {
    exists|keys: Seq<VcpuId>| #[trigger] are_keys(keys, map) && row == keys.map_values(|key: VcpuId| map[key])
}

/// Whether a row lists the keys of a map, each of them once.
pub open spec fn are_keys(keys: Seq<VcpuId>, map: Map<VcpuId, usize>) -> bool {
    keys.no_duplicates() && forall|key: VcpuId| #[trigger] keys.contains(key) <==> map.dom().contains(key)
}

impl Topology {
    #[verifier::type_invariant]
    spec fn has_distinct_vcpus(&self) -> bool {
        crate::pairs::are_distinct(self.tasks@)
    }

    /// No tasks.
    pub fn new() -> (r: Topology)
        ensures
            r@ == Map::<VcpuId, usize>::empty(),
    {
        Topology { tasks: Vec::new() }
    }

    /// The place of a vCPU.
    fn find(&self, vcpu: VcpuId) -> (r: Option<usize>)
        ensures
            match r {
                Some(at) => at < self.tasks@.len() && self.tasks@[at as int].0 == vcpu
                    && self@.dom().contains(vcpu) && self@[vcpu] == self.tasks@[at as int].1,
                None => !self@.dom().contains(vcpu) && forall|i: int|
                    0 <= i < self.tasks@.len() ==> (#[trigger] self.tasks@[i]).0 != vcpu,
            },
    {
        let ghost all = self.tasks@;
        proof {
            use_type_invariant(self);
            crate::pairs::keys_are_known(all);
        }
        let mut i: usize = 0;
        while i < self.tasks.len()
            invariant
                i <= self.tasks@.len(),
                all == self.tasks@,
                self@ == crate::pairs::by_key(all),
                crate::pairs::by_key(all).dom().contains(vcpu) <==> exists|i: int|
                    0 <= i < all.len() && (#[trigger] all[i]).0 == vcpu,
                forall|i: int|
                    0 <= i < all.len() ==> crate::pairs::by_key(all)[(#[trigger] all[i]).0]
                        == all[i].1,
                forall|j: int| 0 <= j < i ==> (#[trigger] all[j]).0 != vcpu,
            decreases self.tasks@.len() - i,
        {
            let found = self.tasks[i].0;
            if found.0 == vcpu.0 && found.1 == vcpu.1 && found.2 == vcpu.2 {
                assert(all[i as int].0 == vcpu);
                return Some(i);
            }
            i = i + 1;
        }
        None
    }

    /// Sets the task of a vCPU.
    pub fn insert(&mut self, vcpu: VcpuId, task: usize)
        ensures
            final(self)@ == old(self)@.insert(vcpu, task),
    {
        proof {
            use_type_invariant(&*self);
        }
        let place = self.find(vcpu);
        let ghost before = self.tasks@;
        let mut tasks: Vec<(VcpuId, usize)> = Vec::new();
        std::mem::swap(&mut tasks, &mut self.tasks);
        match place {
            Some(at) => {
                proof {
                    crate::pairs::changed_value(before, at as int, task);
                }
                tasks.set(at, (vcpu, task));
            },
            None => {
                tasks.push((vcpu, task));
                assert(tasks@.drop_last() =~= before);
            },
        }
        self.tasks = tasks;
    }

    /// The task of a vCPU.
    pub fn get_thread_id(&self, socket_id: usize, core_id: usize, thread_id: usize) -> (r: Option<
        usize,
    >)
        ensures
            r == if self@.dom().contains((socket_id, core_id, thread_id)) {
                Some(self@[(socket_id, core_id, thread_id)])
            } else {
                None::<usize>
            },
    {
        match self.find((socket_id, core_id, thread_id)) {
            Some(at) => Some(self.tasks[at].1),
            None => None,
        }
    }

    /// The tasks of all vCPUs, in no particular order.
    pub fn get_task_ids(&self) -> (r: Vec<usize>)
        ensures
            lists_values(r@, self@),
    {
        let ghost all = self.tasks@;
        proof {
            use_type_invariant(self);
            crate::pairs::keys_are_known(all);
        }
        let mut task_ids: Vec<usize> = Vec::new();
        let mut i: usize = 0;
        while i < self.tasks.len()
            invariant
                i <= self.tasks@.len(),
                task_ids@ =~= Seq::new(i as nat, |j: int| self.tasks@[j].1),
            decreases self.tasks@.len() - i,
        {
            task_ids.push(self.tasks[i].1);
            i = i + 1;
        }
        proof {
            let keys = Seq::new(all.len(), |j: int| all[j].0);
            assert(forall|j: int| 0 <= j < all.len() ==> keys[j] == (#[trigger] all[j]).0);
            assert forall|key: VcpuId| #[trigger] keys.contains(key) <==> self@.dom().contains(key) by {
                if self@.dom().contains(key) {
                    let j = choose|j: int| 0 <= j < all.len() && (#[trigger] all[j]).0 == key;
                    assert(keys[j] == key);
                }
                if keys.contains(key) {
                    let j = choose|j: int| 0 <= j < keys.len() && keys[j] == key;
                    assert(all[j].0 == key);
                    assert(crate::pairs::by_key(all).dom().contains(key));
                }
            }
            assert forall|i: int, j: int| 0 <= i < keys.len() && 0 <= j < keys.len() && i != j implies keys[i]
                != keys[j] by {
                if i < j {
                    assert(all[i].0 != all[j].0);
                } else {
                    assert(all[j].0 != all[i].0);
                }
            }
            assert(are_keys(keys, self@));
            assert forall|j: int| 0 <= j < all.len() implies task_ids@[j] == self@[#[trigger] keys[j]] by {
                assert(all[j].0 == keys[j]);
            }
            assert(task_ids@ =~= keys.map_values(|key: VcpuId| self@[key]));
        }
        task_ids
    }
}

/// The error for a field of a vCPU that is not a number.
pub open spec fn field_error(id: nat, field: Seq<char>, value: JsonView) -> ErrorView {
    crate::error::other_error(
        "`return."@ + crate::text::decimal(id) + "."@ + field
            + "` is invalid, a positive number is expected, but got: `"@ + value.text() + "`."@,
    )
}

/// A field of a vCPU: a number.
pub open spec fn field(id: nat, name: Seq<char>, value: JsonView) -> Result<usize, ErrorView> {
    match value.number() {
        Some(number) => Ok(number),
        None => Err(field_error(id, name, value)),
    }
}

/// One vCPU and its task. `id` is the place in the list.
pub open spec fn vcpu(id: nat, cpu: JsonView) -> Result<(VcpuId, usize), ErrorView> {
    let props = cpu.member("props"@);
    match field(id, "thread-id"@, cpu.member("thread-id"@)) {
        Err(error) => Err(error),
        Ok(task) => if !(props is Object) {
            Err(
                crate::error::other_error(
                    "Invalid vCPU info, expected `props` to be an object, but got: `"@
                        + props.text() + "`."@,
                ),
            )
        } else {
            match field(id, "props.core-id"@, props.member("core-id"@)) {
                Err(error) => Err(error),
                Ok(core) => match field(id, "props.thread-id"@, props.member("thread-id"@)) {
                    Err(error) => Err(error),
                    Ok(thread) => match field(
                        id,
                        "props.socket-id"@,
                        props.member("socket-id"@),
                    ) {
                        Err(error) => Err(error),
                        Ok(socket) => Ok(((socket, core, thread), task)),
                    },
                },
            }
        },
    }
}

/// The tasks of the vCPUs in a list. The last task of a vCPU counts if there are
/// several.
pub open spec fn topology_of(cpus: Seq<JsonView>) -> Result<Map<VcpuId, usize>, ErrorView> {
    match crate::error::gather(Seq::new(cpus.len(), |i: int| vcpu(i as nat, cpus[i]))) {
        Ok(tasks) => Ok(crate::pairs::by_key(tasks)),
        Err(error) => Err(error),
    }
}

/// Whether a result of reading the tasks of the vCPUs is the expected one.
pub open spec fn gives_topology(
    result: Result<Topology, Error>,
    expected: Result<Map<VcpuId, usize>, ErrorView>,
) -> bool {
    match result {
        Ok(topology) => expected == Ok::<Map<VcpuId, usize>, ErrorView>(topology@),
        Err(error) => expected == Err::<Map<VcpuId, usize>, ErrorView>(error@),
    }
}

/// Reads a field of a vCPU.
fn read_field(id: usize, name: &str, value: &Json) -> (r: Result<usize, Error>)
    ensures
        crate::error::outcome(r) == field(id as nat, name@, value.value()),
{
    match value.as_usize() {
        Some(number) => Ok(number),
        None => Err(
            Error::other(
                "`return.".to_owned().concat(usize_text(id).as_str()).concat(".").concat(
                    name,
                ).concat("` is invalid, a positive number is expected, but got: `").concat(
                    value.text().as_str(),
                ).concat("`."),
            ),
        ),
    }
}

/// Reads one vCPU and its task.
fn read_vcpu(id: usize, cpu: &Json) -> (r: Result<(VcpuId, usize), Error>)
    ensures
        crate::error::outcome(r) == vcpu(id as nat, cpu.value()),
{
    let task_id = read_field(id, "thread-id", cpu.member("thread-id"))?;
    let props = cpu.member("props");
    match props {
        Json::Object(_, _) => {
            let core_id = read_field(id, "props.core-id", props.member("core-id"))?;
            let thread_id = read_field(id, "props.thread-id", props.member("thread-id"))?;
            let socket_id = read_field(id, "props.socket-id", props.member("socket-id"))?;
            Ok(((socket_id, core_id, thread_id), task_id))
        },
        _ => Err(
            Error::other(
                "Invalid vCPU info, expected `props` to be an object, but got: `".to_owned().concat(
                    props.text().as_str(),
                ).concat("`."),
            ),
        ),
    }
}

/// Reads the tasks of the vCPUs in a list.
pub fn transform_vcpu_info(json_response: &Vec<Json>) -> (r: Result<Topology, Error>)
    ensures
        gives_topology(r, topology_of(crate::json_value::values(json_response@))),
{
    let ghost cpus = crate::json_value::values(json_response@);
    let ghost results = Seq::new(cpus.len(), |i: int| vcpu(i as nat, cpus[i]));
    let ghost mut tasks = Seq::<(VcpuId, usize)>::empty();
    let mut topology = Topology::new();
    let mut i: usize = 0;
    assert(results.take(0) =~= Seq::empty());
    while i < json_response.len()
        invariant
            i <= json_response@.len(),
            cpus == crate::json_value::values(json_response@),
            results == Seq::new(cpus.len(), |i: int| vcpu(i as nat, cpus[i])),
            crate::error::gather(results.take(i as int)) == Ok::<
                Seq<(VcpuId, usize)>,
                ErrorView,
            >(tasks),
            topology@ == crate::pairs::by_key(tasks),
        decreases json_response@.len() - i,
    {
        assert(results.take(i + 1).drop_last() =~= results.take(i as int));
        assert(results.take(i + 1).last() == vcpu(i as nat, cpus[i as int]));
        match read_vcpu(i, &json_response[i]) {
            Ok((vcpu, task)) => {
                proof {
                    assert(tasks.push((vcpu, task)).drop_last() =~= tasks);
                    tasks = tasks.push((vcpu, task));
                }
                topology.insert(vcpu, task);
            },
            Err(error) => {
                proof {
                    crate::error::gather_stops_at_error(results, i + 1);
                }
                return Err(error);
            },
        }
        i = i + 1;
    }
    assert(results.take(i as int) =~= results);
    Ok(topology)
}

/// Each vCPU in a list that can be read has its task, and no other vCPU has one.
/// The last entry of a vCPU counts.
pub proof fn listed_vcpus_have_their_tasks(cpus: Seq<JsonView>, at: int)
    requires
        topology_of(cpus) is Ok,
        0 <= at < cpus.len(),
        forall|i: int|
            at < i < cpus.len() ==> vcpu(i as nat, #[trigger] cpus[i])->Ok_0.0 != vcpu(
                at as nat,
                cpus[at],
            )->Ok_0.0,
    ensures
        ({
            let tasks = topology_of(cpus)->Ok_0;
            let found = vcpu(at as nat, cpus[at]);
            &&& found is Ok
            &&& tasks.dom().contains(found->Ok_0.0)
            &&& tasks[found->Ok_0.0] == found->Ok_0.1
            &&& forall|id: VcpuId| #[trigger]
                tasks.dom().contains(id) ==> exists|i: int|
                    0 <= i < cpus.len() && vcpu(i as nat, #[trigger] cpus[i])->Ok_0.0 == id
        }),
{
    let results = Seq::new(cpus.len(), |i: int| vcpu(i as nat, cpus[i]));
    let found = crate::error::gather(results)->Ok_0;
    crate::error::gathered_values(results);
    assert forall|i: int| 0 <= i < cpus.len() implies vcpu(i as nat, #[trigger] cpus[i]) == Ok::<
        (VcpuId, usize),
        ErrorView,
    >(found[i]) by {
        assert(results[i] == Ok::<(VcpuId, usize), ErrorView>(found[i]));
    }
    assert forall|i: int| at < i < found.len() implies (#[trigger] found[i]).0 != found[at].0 by {
        assert(vcpu(i as nat, cpus[i])->Ok_0.0 != vcpu(at as nat, cpus[at])->Ok_0.0);
    }
    crate::pairs::last_value_counts(found, at);
    crate::pairs::keys_are_known(found);
    let tasks = topology_of(cpus)->Ok_0;
    assert forall|id: VcpuId| #[trigger] tasks.dom().contains(id) implies exists|i: int|
        0 <= i < cpus.len() && vcpu(i as nat, #[trigger] cpus[i])->Ok_0.0 == id by {
        let i = choose|i: int| 0 <= i < found.len() && (#[trigger] found[i]).0 == id;
        assert(vcpu(i as nat, cpus[i])->Ok_0.0 == id);
    }
}

/// Whether an entry of a list of vCPUs names a socket, a core, a thread and a task
/// by numbers.
pub open spec fn names_vcpu(cpu: JsonView, id: VcpuId, task: usize) -> bool {
    let props = cpu.member("props"@);
    &&& cpu.member("thread-id"@) matches JsonView::Number(_, Some(n)) && n == task
    &&& props is Object
    &&& props.member("socket-id"@) matches JsonView::Number(_, Some(n)) && n == id.0
    &&& props.member("core-id"@) matches JsonView::Number(_, Some(n)) && n == id.1
    &&& props.member("thread-id"@) matches JsonView::Number(_, Some(n)) && n == id.2
}

/// An entry whose members are numbers gives the vCPU with the socket, the core and
/// the thread of its properties the task of its own, and nothing else.
pub proof fn entry_gives_vcpu_its_task(
    cpu: JsonView,
    task: usize,
    socket: usize,
    core: usize,
    thread: usize,
)
    requires
        cpu.member("thread-id"@) matches JsonView::Number(_, Some(n)) && n == task,
        cpu.member("props"@) is Object,
        cpu.member("props"@).member("socket-id"@) matches JsonView::Number(_, Some(n)) && n
            == socket,
        cpu.member("props"@).member("core-id"@) matches JsonView::Number(_, Some(n)) && n == core,
        cpu.member("props"@).member("thread-id"@) matches JsonView::Number(_, Some(n)) && n
            == thread,
    ensures
        topology_of(seq![cpu]) == Ok::<Map<VcpuId, usize>, ErrorView>(
            Map::<VcpuId, usize>::empty().insert((socket, core, thread), task),
        ),
{
    let entries = seq![((socket, core, thread), task)];
    assert forall|i: int| 0 <= i < 1 implies names_vcpu(
        #[trigger] seq![cpu][i],
        entries[i].0,
        entries[i].1,
    ) by {}
    entries_give_vcpus_their_tasks(seq![cpu], entries);
    assert(entries.drop_last() =~= Seq::empty());
    assert(crate::pairs::by_key(entries.drop_last()) =~= Map::<VcpuId, usize>::empty());
    assert(crate::pairs::by_key(entries) =~= Map::<VcpuId, usize>::empty().insert(
        (socket, core, thread),
        task,
    ));
}

/// A list whose entries name vCPUs and tasks gives each of these vCPUs the task of
/// its last entry. Other vCPUs have no task.
pub proof fn entries_give_vcpus_their_tasks(cpus: Seq<JsonView>, entries: Seq<(VcpuId, usize)>)
    requires
        cpus.len() == entries.len(),
        forall|i: int|
            0 <= i < cpus.len() ==> names_vcpu(#[trigger] cpus[i], entries[i].0, entries[i].1),
    ensures
        topology_of(cpus) == Ok::<Map<VcpuId, usize>, ErrorView>(crate::pairs::by_key(entries)),
        forall|id: VcpuId| #[trigger]
            topology_of(cpus)->Ok_0.dom().contains(id) <==> exists|i: int|
                0 <= i < entries.len() && (#[trigger] entries[i]).0 == id,
        forall|at: int|
            0 <= at < entries.len() && (forall|i: int|
                at < i < entries.len() ==> (#[trigger] entries[i]).0 != entries[at].0)
                ==> topology_of(cpus)->Ok_0[(#[trigger] entries[at]).0] == entries[at].1,
{
    let results = Seq::new(cpus.len(), |i: int| vcpu(i as nat, cpus[i]));
    assert forall|i: int| 0 <= i < results.len() implies #[trigger] results[i] == Ok::<
        (VcpuId, usize),
        ErrorView,
    >(entries[i]) by {
        assert(names_vcpu(cpus[i], entries[i].0, entries[i].1));
    }
    crate::error::gathering_gives_values_or_first_error(results, results.len() as int);
    assert(Seq::new(results.len(), |i: int| results[i]->Ok_0) =~= entries);
    crate::pairs::keys_are_known(entries);
    assert forall|at: int| 0 <= at < entries.len() && (forall|i: int|
        at < i < entries.len() ==> (#[trigger] entries[i]).0 != entries[at].0) implies topology_of(
        cpus,
    )->Ok_0[(#[trigger] entries[at]).0] == entries[at].1 by {
        crate::pairs::last_value_counts(entries, at);
    }
}

/// What is wrong with an entry of a list of vCPUs, if anything is: a number is
/// missing, or the properties are.
pub open spec fn complaint(place: nat, cpu: JsonView) -> Option<Seq<char>> {
    let props = cpu.member("props"@);
    let wrong = |name: Seq<char>, value: JsonView|
        Some(
            "`return."@ + crate::text::decimal(place) + "."@ + name
                + "` is invalid, a positive number is expected, but got: `"@ + value.text() + "`."@,
        );
    let lacks = |value: JsonView| !(value matches JsonView::Number(_, Some(_)));
    if lacks(cpu.member("thread-id"@)) {
        wrong("thread-id"@, cpu.member("thread-id"@))
    } else if !(props is Object) {
        Some(
            "Invalid vCPU info, expected `props` to be an object, but got: `"@ + props.text()
                + "`."@,
        )
    } else if lacks(props.member("core-id"@)) {
        wrong("props.core-id"@, props.member("core-id"@))
    } else if lacks(props.member("thread-id"@)) {
        wrong("props.thread-id"@, props.member("thread-id"@))
    } else if lacks(props.member("socket-id"@)) {
        wrong("props.socket-id"@, props.member("socket-id"@))
    } else {
        None
    }
}

/// A list of vCPUs can be read unless something is wrong with an entry. The first
/// such entry is complained of.
pub proof fn first_broken_entry_is_complained_of(cpus: Seq<JsonView>, at: int)
    requires
        0 <= at < cpus.len(),
        forall|i: int| 0 <= i < at ==> complaint(i as nat, #[trigger] cpus[i]) is None,
        complaint(at as nat, cpus[at]) is Some,
    ensures
        topology_of(cpus) == Err::<Map<VcpuId, usize>, ErrorView>(
            ErrorView {
                kind: crate::error::ErrorKind::Other,
                message: complaint(at as nat, cpus[at])->0,
            },
        ),
{
    let results = Seq::new(cpus.len(), |i: int| vcpu(i as nat, cpus[i]));
    assert forall|i: int| 0 <= i < at implies (#[trigger] results[i]) is Ok by {
        assert(complaint(i as nat, cpus[i]) is None);
    }
    crate::error::gathering_gives_values_or_first_error(results, at);
}

/// The task that an entry of a list gives is found by the socket, the core and the
/// thread of the entry, in this order, and it is among all tasks, if no later entry
/// is for the same vCPU. Other vCPUs are not found.
pub proof fn listed_task_is_found(
    list: &Vec<Json>,
    topology: Topology,
    entries: Seq<(VcpuId, usize)>,
    at: int,
    known: &Topology,
    socket: usize,
    core: usize,
    thread: usize,
    task: Option<usize>,
    tasks: Vec<usize>,
)
    requires
        call_ensures(transform_vcpu_info, (list,), Ok(topology)),
        *known == topology,
        entries.len() == list@.len(),
        forall|i: int|
            0 <= i < list@.len() ==> names_vcpu(
                (#[trigger] list@[i]).value(),
                entries[i].0,
                entries[i].1,
            ),
        call_ensures(Topology::get_thread_id, (known, socket, core, thread), task),
        call_ensures(Topology::get_task_ids, (known,), tasks),
        0 <= at < entries.len(),
        forall|i: int| at < i < entries.len() ==> (#[trigger] entries[i]).0 != entries[at].0,
    ensures
        entries[at].0 == (socket, core, thread) ==> task == Some(entries[at].1),
        (forall|i: int| 0 <= i < entries.len() ==> (#[trigger] entries[i]).0 != (socket, core, thread))
            ==> task is None,
        tasks@.contains(entries[at].1),
        tasks@.len() <= entries.len(),
        forall|number: usize| #[trigger]
            tasks@.contains(number) ==> exists|i: int|
                0 <= i < entries.len() && (#[trigger] entries[i]).1 == number,
{
    let cpus = crate::json_value::values(list@);
    assert forall|i: int| 0 <= i < cpus.len() implies names_vcpu(
        #[trigger] cpus[i],
        entries[i].0,
        entries[i].1,
    ) by {
        assert(cpus[i] == list@[i].value());
    }
    entries_give_vcpus_their_tasks(cpus, entries);
    let map = topology@;
    assert(map == crate::pairs::by_key(entries));
    crate::pairs::keys_are_known(entries);
    crate::pairs::last_value_counts(entries, at);
    if entries[at].0 == (socket, core, thread) {
        assert(map.dom().contains((socket, core, thread)));
    }
    let keys = choose|keys: Seq<VcpuId>| #[trigger]
        are_keys(keys, map) && tasks@ == keys.map_values(|key: VcpuId| map[key]);
    assert(keys.contains(entries[at].0));
    let k = choose|k: int| 0 <= k < keys.len() && keys[k] == entries[at].0;
    assert(tasks@[k] == entries[at].1);
    values_are_those_of_pairs(entries);
    assert forall|number: usize| #[trigger] tasks@.contains(number) implies exists|i: int|
        0 <= i < entries.len() && (#[trigger] entries[i]).1 == number by {
        let k = choose|k: int| 0 <= k < tasks@.len() && tasks@[k] == number;
        assert(keys.contains(keys[k]));
        assert(map.dom().contains(keys[k]));
        assert(map[keys[k]] == number);
    }
    keys_are_no_more_than_pairs(keys, entries);
}

/// The values of a map are those of the pairs that it stands for.
proof fn values_are_those_of_pairs(pairs: Seq<(VcpuId, usize)>)
    ensures
        forall|key: VcpuId| #[trigger]
            crate::pairs::by_key(pairs).dom().contains(key) ==> exists|i: int|
                0 <= i < pairs.len() && (#[trigger] pairs[i]).1 == crate::pairs::by_key(pairs)[key],
    decreases pairs.len(),
{
    if pairs.len() > 0 {
        let front = pairs.drop_last();
        values_are_those_of_pairs(front);
        assert forall|key: VcpuId| #[trigger] crate::pairs::by_key(pairs).dom().contains(
            key,
        ) implies exists|i: int|
            0 <= i < pairs.len() && (#[trigger] pairs[i]).1 == crate::pairs::by_key(pairs)[key] by {
            if pairs.last().0 == key {
                assert(pairs[pairs.len() - 1].1 == crate::pairs::by_key(pairs)[key]);
            } else {
                assert(crate::pairs::by_key(front).dom().contains(key));
                let i = choose|i: int|
                    0 <= i < front.len() && (#[trigger] front[i]).1 == crate::pairs::by_key(
                        front,
                    )[key];
                assert(pairs[i] == front[i]);
            }
        }
    }
}

/// Different keys are no more than the pairs that they stand in.
proof fn keys_are_no_more_than_pairs(keys: Seq<VcpuId>, pairs: Seq<(VcpuId, usize)>)
    requires
        are_keys(keys, crate::pairs::by_key(pairs)),
    ensures
        keys.len() <= pairs.len(),
{
    let all = Seq::new(pairs.len(), |i: int| pairs[i].0);
    crate::pairs::keys_are_known(pairs);
    keys.unique_seq_to_set();
    all.lemma_cardinality_of_set();
    assert(keys.to_set().subset_of(all.to_set())) by {
        assert forall|key: VcpuId| keys.to_set().contains(key) implies all.to_set().contains(
            key,
        ) by {
            assert(keys.contains(key));
            assert(crate::pairs::by_key(pairs).dom().contains(key));
            let i = choose|i: int| 0 <= i < pairs.len() && (#[trigger] pairs[i]).0 == key;
            assert(all[i] == key);
        }
    }
    vstd::set_lib::lemma_len_subset(keys.to_set(), all.to_set());
}

} // verus!
