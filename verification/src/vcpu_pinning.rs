//! Which vCPU is pinned to which host CPU: the `launcher.vcpu_pinning` option.
use crate::error::{Error, ErrorKind, ErrorView};
use crate::launcher_options::find_launcher_option;
use crate::text::usize_text;
use crate::yaml::{Node, Value};
use vstd::prelude::*;

verus! {

/// A vCPU by its socket, core and thread, and the host CPU that it is pinned to.
pub type Pin = (usize, usize, usize, usize);

/// The ID that a value stands for: an integer that is not negative.
pub open spec fn id_of(value: Value) -> Option<usize> {
    match value {
        Value::Integer(number) => if 0 <= number <= usize::MAX {
            Some(number as usize)
        } else {
            None
        },
        _ => None,
    }
}

/// Reads an ID.
fn as_u64(id: &Node) -> (r: Option<usize>)
    ensures
        r == id_of(id.value()),
{
    match id {
        Node::Integer(number) => {
            if 0 <= *number && *number as u64 <= usize::MAX as u64 {
                Some(*number as usize)
            } else {
                None
            }
        },
        _ => None,
    }
}

/// The start of the messages about a part of the option.
pub open spec fn failed_at(part: Seq<char>) -> Seq<char> {
    "Failed to parse `launcher.vcpu_pinning"@ + part + "`: "@
}

/// The name of a part of the option: IDs, each with a dot before it.
pub open spec fn part_name(ids: Seq<usize>) -> Seq<char>
    decreases ids.len(),
{
    if ids.len() == 0 {
        Seq::<char>::empty()
    } else {
        part_name(ids.drop_last()) + "."@ + crate::text::decimal(ids.last() as nat)
    }
}

/// The error for a part of the option that a rule forbids.
pub open spec fn pinning_error(ids: Seq<usize>, rule: Seq<char>) -> ErrorView {
    crate::error::data_error(failed_at(part_name(ids)) + rule)
}

/// Makes the error for a part of the option.
fn make_error(ids: &Vec<usize>, rule: &str) -> (r: Error)
    ensures
        r@ == pinning_error(ids@, rule@),
{
    let mut name = String::new();
    let mut i: usize = 0;
    assert(ids@.take(0) =~= Seq::<usize>::empty());
    while i < ids.len()
        invariant
            i <= ids@.len(),
            name@ == part_name(ids@.take(i as int)),
        decreases ids@.len() - i,
    {
        assert(ids@.take(i + 1).drop_last() =~= ids@.take(i as int));
        name = name.concat(".").concat(usize_text(ids[i]).as_str());
        i = i + 1;
    }
    assert(ids@.take(i as int) =~= ids@);
    Error::invalid_data(
        "Failed to parse `launcher.vcpu_pinning".to_owned().concat(name.as_str()).concat(
            "`: ",
        ).concat(rule),
    )
}

/// The pinning of one thread of a core.
pub open spec fn thread_pin(socket: usize, core: usize, entry: (Value, Value)) -> Result<
    Pin,
    ErrorView,
> {
    match id_of(entry.0) {
        None => Err(
            pinning_error(seq![socket, core], "the thread ID must be a positive integer."@),
        ),
        Some(thread) => match id_of(entry.1) {
            None => Err(
                pinning_error(
                    seq![socket, core, thread],
                    "the host core ID must be an integer greater or equal to zero."@,
                ),
            ),
            Some(host) => Ok((socket, core, thread, host)),
        },
    }
}

/// The pinnings of the threads of a core.
pub open spec fn thread_pins(
    socket: usize,
    core: usize,
    threads: Seq<(Value, Value)>,
) -> Result<Seq<Pin>, ErrorView> {
    crate::error::gather(Seq::new(threads.len(), |i: int| thread_pin(socket, core, threads[i])))
}

/// The pinnings of one core of a socket.
pub open spec fn core_pins(socket: usize, entry: (Value, Value)) -> Result<Seq<Pin>, ErrorView> {
    match id_of(entry.0) {
        None => Err(
            pinning_error(
                seq![socket],
                "the core ID must be an integer greater or equal to zero."@,
            ),
        ),
        Some(core) => match entry.1 {
            Value::Hash(threads) => thread_pins(socket, core, threads),
            _ => Err(pinning_error(seq![socket, core], "a hash expected."@)),
        },
    }
}

/// The pinnings of the cores of a socket.
pub open spec fn cores_pins(socket: usize, cores: Seq<(Value, Value)>) -> Result<
    Seq<Pin>,
    ErrorView,
> {
    crate::error::gather_rows(Seq::new(cores.len(), |i: int| core_pins(socket, cores[i])))
}

/// The pinnings of one socket.
pub open spec fn socket_pins(entry: (Value, Value)) -> Result<Seq<Pin>, ErrorView> {
    match id_of(entry.0) {
        None => Err(
            pinning_error(
                Seq::<usize>::empty(),
                "the socket ID must be an integer greater or equal to zero."@,
            ),
        ),
        Some(socket) => match entry.1 {
            Value::Hash(cores) => cores_pins(socket, cores),
            _ => Err(pinning_error(seq![socket], "a hash expected."@)),
        },
    }
}

/// The pinnings of all sockets.
pub open spec fn sockets_pins(sockets: Seq<(Value, Value)>) -> Result<Seq<Pin>, ErrorView> {
    crate::error::gather_rows(Seq::new(sockets.len(), |i: int| socket_pins(sockets[i])))
}

/// The pinnings, in the order in which they are written. There are none if the
/// option is missing.
pub open spec fn pinning_value(config: Value) -> Result<Seq<Pin>, ErrorView> {
    match crate::launcher_options::launcher_value(config, "vcpu_pinning"@) {
        Value::Hash(sockets) => sockets_pins(sockets),
        Value::BadValue => Ok(Seq::<Pin>::empty()),
        _ => Err(
            crate::error::data_error(
                "Failed to parse `launcher.vcpu_pinning` configuration: a hash is expected."@,
            ),
        ),
    }
}

/// Whether a result of reading pinnings is the expected one.
pub open spec fn gives_pins(
    result: Result<Vec<Pin>, Error>,
    expected: Result<Seq<Pin>, ErrorView>,
) -> bool {
    match result {
        Ok(pins) => expected == Ok::<Seq<Pin>, ErrorView>(pins@),
        Err(error) => expected == Err::<Seq<Pin>, ErrorView>(error@),
    }
}

/// Reads the pinning of one thread of a core.
fn parse_thread(socket_id: usize, core_id: usize, thread: &Node, host: &Node) -> (r: Result<
    Pin,
    Error,
>)
    ensures
        crate::error::outcome(r) == thread_pin(
            socket_id,
            core_id,
            (thread.value(), host.value()),
        ),
{
    let thread_id = match as_u64(thread) {
        Some(id) => id,
        None => {
            let at = vec![socket_id, core_id];
            assert(at@ =~= seq![socket_id, core_id]);
            return Err(make_error(&at, "the thread ID must be a positive integer."));
        },
    };
    match as_u64(host) {
        Some(host_id) => Ok((socket_id, core_id, thread_id, host_id)),
        None => {
            let at = vec![socket_id, core_id, thread_id];
            assert(at@ =~= seq![socket_id, core_id, thread_id]);
            Err(
                make_error(&at, "the host core ID must be an integer greater or equal to zero."),
            )
        },
    }
}

/// Reads the pinnings of the threads of a core.
fn parse_cpu_pinning_threads(
    socket_id: usize,
    core_id: usize,
    threads: &Vec<(Node, Node)>,
) -> (r: Result<Vec<Pin>, Error>)
    ensures
        gives_pins(r, thread_pins(socket_id, core_id, crate::yaml::entries(threads@))),
{
    let ghost entries = crate::yaml::entries(threads@);
    let ghost results = Seq::new(
        entries.len(),
        |i: int| thread_pin(socket_id, core_id, entries[i]),
    );
    let mut cpu_pinning: Vec<Pin> = Vec::new();
    let mut i: usize = 0;
    assert(results.take(0) =~= Seq::empty());
    while i < threads.len()
        invariant
            i <= threads@.len(),
            entries == crate::yaml::entries(threads@),
            results == Seq::new(
                entries.len(),
                |i: int| thread_pin(socket_id, core_id, entries[i]),
            ),
            crate::error::gather(results.take(i as int)) == Ok::<Seq<Pin>, ErrorView>(
                cpu_pinning@,
            ),
        decreases threads@.len() - i,
    {
        assert(results.take(i + 1).drop_last() =~= results.take(i as int));
        assert(results.take(i + 1).last() == thread_pin(socket_id, core_id, entries[i as int]));
        match parse_thread(socket_id, core_id, &threads[i].0, &threads[i].1) {
            Ok(pin) => cpu_pinning.push(pin),
            Err(error) => {
                proof {
                    crate::error::gather_stops_at_error(results, i + 1);
                }
                return Err(error);
            },
        }
        i = i + 1;
    }
    assert(results.take(i as int) =~= results);
    Ok(cpu_pinning)
}

/// Reads the pinnings of one core of a socket.
fn parse_core(socket_id: usize, core: &Node, threads: &Node) -> (r: Result<Vec<Pin>, Error>)
    ensures
        gives_pins(r, core_pins(socket_id, (core.value(), threads.value()))),
{
    let core_id = match as_u64(core) {
        Some(id) => id,
        None => {
            let at = vec![socket_id];
            assert(at@ =~= seq![socket_id]);
            return Err(
                make_error(&at, "the core ID must be an integer greater or equal to zero."),
            );
        },
    };
    match threads {
        Node::Hash(threads) => {
            proof {
                crate::yaml::hash_value(*threads);
            }
            parse_cpu_pinning_threads(socket_id, core_id, threads)
        },
        _ => {
            let at = vec![socket_id, core_id];
            assert(at@ =~= seq![socket_id, core_id]);
            Err(make_error(&at, "a hash expected."))
        },
    }
}

/// Reads the pinnings of the cores of a socket.
fn parse_cpu_pinning_cores(
    socket_id: usize,
    cores: &Vec<(Node, Node)>,
) -> (r: Result<Vec<Pin>, Error>)
    ensures
        gives_pins(r, cores_pins(socket_id, crate::yaml::entries(cores@))),
{
    let ghost entries = crate::yaml::entries(cores@);
    let ghost results = Seq::new(entries.len(), |i: int| core_pins(socket_id, entries[i]));
    let mut cpu_pinning: Vec<Pin> = Vec::new();
    let mut i: usize = 0;
    assert(results.take(0) =~= Seq::empty());
    while i < cores.len()
        invariant
            i <= cores@.len(),
            entries == crate::yaml::entries(cores@),
            results == Seq::new(entries.len(), |i: int| core_pins(socket_id, entries[i])),
            crate::error::gather_rows(results.take(i as int)) == Ok::<Seq<Pin>, ErrorView>(
                cpu_pinning@,
            ),
        decreases cores@.len() - i,
    {
        assert(results.take(i + 1).drop_last() =~= results.take(i as int));
        assert(results.take(i + 1).last() == core_pins(socket_id, entries[i as int]));
        match parse_core(socket_id, &cores[i].0, &cores[i].1) {
            Ok(pins) => {
                let mut pins = pins;
                cpu_pinning.append(&mut pins);
            },
            Err(error) => {
                proof {
                    crate::error::gather_rows_stops_at_error(results, i + 1);
                }
                return Err(error);
            },
        }
        i = i + 1;
    }
    assert(results.take(i as int) =~= results);
    Ok(cpu_pinning)
}

/// Reads the pinnings of one socket.
fn parse_socket(socket: &Node, cores: &Node) -> (r: Result<Vec<Pin>, Error>)
    ensures
        gives_pins(r, socket_pins((socket.value(), cores.value()))),
{
    let socket_id = match as_u64(socket) {
        Some(id) => id,
        None => {
            let at: Vec<usize> = Vec::new();
            return Err(
                make_error(&at, "the socket ID must be an integer greater or equal to zero."),
            );
        },
    };
    match cores {
        Node::Hash(cores) => {
            proof {
                crate::yaml::hash_value(*cores);
            }
            parse_cpu_pinning_cores(socket_id, cores)
        },
        _ => {
            let at = vec![socket_id];
            assert(at@ =~= seq![socket_id]);
            Err(make_error(&at, "a hash expected."))
        },
    }
}

/// Reads the pinnings of all sockets.
fn parse_cpu_pinning_sockets(sockets: &Vec<(Node, Node)>) -> (r: Result<Vec<Pin>, Error>)
    ensures
        gives_pins(r, sockets_pins(crate::yaml::entries(sockets@))),
{
    let ghost entries = crate::yaml::entries(sockets@);
    let ghost results = Seq::new(entries.len(), |i: int| socket_pins(entries[i]));
    let mut cpu_pinning: Vec<Pin> = Vec::new();
    let mut i: usize = 0;
    assert(results.take(0) =~= Seq::empty());
    while i < sockets.len()
        invariant
            i <= sockets@.len(),
            entries == crate::yaml::entries(sockets@),
            results == Seq::new(entries.len(), |i: int| socket_pins(entries[i])),
            crate::error::gather_rows(results.take(i as int)) == Ok::<Seq<Pin>, ErrorView>(
                cpu_pinning@,
            ),
        decreases sockets@.len() - i,
    {
        assert(results.take(i + 1).drop_last() =~= results.take(i as int));
        assert(results.take(i + 1).last() == socket_pins(entries[i as int]));
        match parse_socket(&sockets[i].0, &sockets[i].1) {
            Ok(pins) => {
                let mut pins = pins;
                cpu_pinning.append(&mut pins);
            },
            Err(error) => {
                proof {
                    crate::error::gather_rows_stops_at_error(results, i + 1);
                }
                return Err(error);
            },
        }
        i = i + 1;
    }
    assert(results.take(i as int) =~= results);
    Ok(cpu_pinning)
}

/// Reads the pinnings.
pub fn parse_cpu_pinning(config: &Node) -> (r: Result<Vec<Pin>, Error>)
    ensures
        gives_pins(r, pinning_value(config.value())),
{
    match find_launcher_option(config, "vcpu_pinning") {
        None | Some(Node::BadValue) => Ok(Vec::new()),
        Some(Node::Hash(sockets)) => {
            proof {
                crate::yaml::hash_value(*sockets);
            }
            parse_cpu_pinning_sockets(sockets)
        },
        _ => Err(
            Error::invalid_data(
                "Failed to parse `launcher.vcpu_pinning` configuration: a hash is expected.".to_owned(),
            ),
        ),
    }
}

/// Whatever is wrong with pinnings is reported as invalid data.
pub proof fn pinning_errors_are_invalid_data(sockets: Seq<(Value, Value)>)
    ensures
        sockets_pins(sockets) is Err ==> sockets_pins(sockets)->Err_0.kind == ErrorKind::InvalidData,
{
    let kind = ErrorKind::InvalidData;
    let results = Seq::new(sockets.len(), |i: int| socket_pins(sockets[i]));
    assert forall|i: int| 0 <= i < results.len() && (#[trigger] results[i]) is Err implies results[
        i
    ]->Err_0.kind == kind by {
        if let (Some(socket), Value::Hash(cores)) = (id_of(sockets[i].0), sockets[i].1) {
            let rows = Seq::new(cores.len(), |j: int| core_pins(socket, cores[j]));
            assert forall|j: int| 0 <= j < rows.len() && (#[trigger] rows[j]) is Err implies rows[
                j
            ]->Err_0.kind == kind by {
                if let (Some(core), Value::Hash(threads)) = (id_of(cores[j].0), cores[j].1) {
                    let pins = Seq::new(
                        threads.len(),
                        |k: int| thread_pin(socket, core, threads[k]),
                    );
                    crate::error::gather_keeps_kind(pins, kind);
                }
            }
            crate::error::gather_rows_keeps_kind(rows, kind);
        }
    }
    crate::error::gather_rows_keeps_kind(results, kind);
}

/// Whether a pinning is written at a place among the threads of a core.
pub open spec fn is_thread_at(threads: Seq<(Value, Value)>, k: int, pin: Pin) -> bool {
    0 <= k < threads.len() && id_of(threads[k].0) == Some(pin.2) && id_of(threads[k].1) == Some(
        pin.3,
    )
}

/// Whether a pinning is written at a place among the cores of a socket.
pub open spec fn is_core_at(cores: Seq<(Value, Value)>, j: int, k: int, pin: Pin) -> bool {
    0 <= j < cores.len() && id_of(cores[j].0) == Some(pin.1) && (cores[j].1 matches Value::Hash(
        threads,
    ) && is_thread_at(threads, k, pin))
}

/// Whether a pinning is written at a place among the sockets.
pub open spec fn is_pin_at(sockets: Seq<(Value, Value)>, i: int, j: int, k: int, pin: Pin) -> bool {
    0 <= i < sockets.len() && id_of(sockets[i].0) == Some(pin.0) && (sockets[i].1 matches Value::Hash(
        cores,
    ) && is_core_at(cores, j, k, pin))
}

/// The pinnings of the threads of a core are those written there.
proof fn thread_pins_are_written(
    socket: usize,
    core: usize,
    threads: Seq<(Value, Value)>,
    pin: Pin,
)
    requires
        thread_pins(socket, core, threads) is Ok,
    ensures
        thread_pins(socket, core, threads)->Ok_0.contains(pin) <==> pin.0 == socket && pin.1 == core
            && exists|k: int| is_thread_at(threads, k, pin),
{
    let results = Seq::new(threads.len(), |k: int| thread_pin(socket, core, threads[k]));
    let pins = crate::error::gather(results)->Ok_0;
    crate::error::gathered_values(results);
    if pins.contains(pin) {
        let k = choose|k: int| 0 <= k < pins.len() && pins[k] == pin;
        assert(results[k] == thread_pin(socket, core, threads[k]));
        assert(is_thread_at(threads, k, pin));
    }
    if pin.0 == socket && pin.1 == core && exists|k: int| is_thread_at(threads, k, pin) {
        let k = choose|k: int| is_thread_at(threads, k, pin);
        assert(results[k] == thread_pin(socket, core, threads[k]));
        assert(pins[k] == pin);
    }
}

/// The pinnings of the cores of a socket are those written there.
proof fn cores_pins_are_written(socket: usize, cores: Seq<(Value, Value)>, pin: Pin)
    requires
        cores_pins(socket, cores) is Ok,
    ensures
        cores_pins(socket, cores)->Ok_0.contains(pin) <==> pin.0 == socket && exists|j: int, k: int|
            is_core_at(cores, j, k, pin),
{
    let results = Seq::new(cores.len(), |j: int| core_pins(socket, cores[j]));
    let pins = crate::error::gather_rows(results)->Ok_0;
    crate::error::gathered_rows(results);
    assert forall|j: int| 0 <= j < cores.len() implies {
        let core = id_of(cores[j].0);
        &&& core is Some
        &&& cores[j].1 is Hash
        &&& #[trigger] results[j] == thread_pins(socket, core->0, cores[j].1->Hash_0)
        &&& results[j] is Ok
    } by {
        assert(results[j] is Ok);
    }
    if pins.contains(pin) {
        let j = choose|j: int| 0 <= j < results.len() && (#[trigger] results[j])->Ok_0.contains(pin);
        let threads = cores[j].1->Hash_0;
        thread_pins_are_written(socket, id_of(cores[j].0)->0, threads, pin);
        let k = choose|k: int| is_thread_at(threads, k, pin);
        assert(is_core_at(cores, j, k, pin));
    }
    if pin.0 == socket && exists|j: int, k: int| is_core_at(cores, j, k, pin) {
        let (j, k) = choose|j: int, k: int| is_core_at(cores, j, k, pin);
        let threads = cores[j].1->Hash_0;
        assert(is_thread_at(threads, k, pin));
        assert(results[j] is Ok);
        thread_pins_are_written(socket, id_of(cores[j].0)->0, threads, pin);
        assert(results[j]->Ok_0.contains(pin));
    }
}

/// The pinnings of a configuration are those that are written in it, all of them
/// and no others.
pub proof fn pins_are_written(sockets: Seq<(Value, Value)>, pin: Pin)
    requires
        sockets_pins(sockets) is Ok,
    ensures
        sockets_pins(sockets)->Ok_0.contains(pin) <==> exists|i: int, j: int, k: int|
            is_pin_at(sockets, i, j, k, pin),
{
    let results = Seq::new(sockets.len(), |i: int| socket_pins(sockets[i]));
    let pins = crate::error::gather_rows(results)->Ok_0;
    crate::error::gathered_rows(results);
    assert forall|i: int| 0 <= i < sockets.len() implies {
        let socket = id_of(sockets[i].0);
        &&& socket is Some
        &&& sockets[i].1 is Hash
        &&& #[trigger] results[i] == cores_pins(socket->0, sockets[i].1->Hash_0)
        &&& results[i] is Ok
    } by {
        assert(results[i] is Ok);
    }
    if pins.contains(pin) {
        let i = choose|i: int| 0 <= i < results.len() && (#[trigger] results[i])->Ok_0.contains(pin);
        let cores = sockets[i].1->Hash_0;
        cores_pins_are_written(id_of(sockets[i].0)->0, cores, pin);
        let (j, k) = choose|j: int, k: int| is_core_at(cores, j, k, pin);
        assert(is_pin_at(sockets, i, j, k, pin));
    }
    if exists|i: int, j: int, k: int| is_pin_at(sockets, i, j, k, pin) {
        let (i, j, k) = choose|i: int, j: int, k: int| is_pin_at(sockets, i, j, k, pin);
        let cores = sockets[i].1->Hash_0;
        assert(is_core_at(cores, j, k, pin));
        assert(results[i] is Ok);
        cores_pins_are_written(id_of(sockets[i].0)->0, cores, pin);
        assert(results[i]->Ok_0.contains(pin));
    }
}

/// A row of one result.
proof fn single_row<T>(result: Result<Seq<T>, ErrorView>)
    ensures
        crate::error::gather_rows(seq![result]) == result,
{
    let none = Seq::<Result<Seq<T>, ErrorView>>::empty();
    crate::error::gathering_rows_joins_them(none, result);
    assert(none.push(result) =~= seq![result]);
    if result is Ok {
        assert(Seq::<T>::empty() + result->Ok_0 =~= result->Ok_0);
    }
}

/// The pinnings of a socket alone.
proof fn single_socket(entry: (Value, Value))
    ensures
        sockets_pins(seq![entry]) == socket_pins(entry),
{
    single_row(socket_pins(entry));
    let entries = seq![entry];
    assert(Seq::new(entries.len(), |i: int| socket_pins(entries[i])) =~= seq![
        socket_pins(entry),
    ]);
}

/// The pinnings of a core alone.
proof fn single_core(socket: usize, entry: (Value, Value))
    ensures
        cores_pins(socket, seq![entry]) == core_pins(socket, entry),
{
    single_row(core_pins(socket, entry));
    let entries = seq![entry];
    assert(Seq::new(entries.len(), |i: int| core_pins(socket, entries[i])) =~= seq![
        core_pins(socket, entry),
    ]);
}

/// The pinnings of a thread alone.
proof fn single_thread(socket: usize, core: usize, entry: (Value, Value))
    ensures
        thread_pins(socket, core, seq![entry]) == match thread_pin(socket, core, entry) {
            Ok(pin) => Ok::<Seq<Pin>, ErrorView>(seq![pin]),
            Err(error) => Err(error),
        },
{
    let entries = seq![entry];
    let results = Seq::new(entries.len(), |i: int| thread_pin(socket, core, entries[i]));
    if results[0] is Ok {
        crate::error::gathering_gives_values_or_first_error(results, 1);
        assert(Seq::new(results.len(), |i: int| results[i]->Ok_0) =~= seq![
            thread_pin(socket, core, entry)->Ok_0,
        ]);
    } else {
        crate::error::gathering_gives_values_or_first_error(results, 0);
    }
}

/// A socket, a core, a thread and a host CPU that are written below each other, as
/// integers that are not negative, pin the vCPU of this socket, core and thread to
/// this host CPU.
pub proof fn numbers_are_pinned_as_written(
    socket: i64,
    core: i64,
    thread: i64,
    host: i64,
)
    requires
        0 <= socket <= usize::MAX,
        0 <= core <= usize::MAX,
        0 <= thread <= usize::MAX,
        0 <= host <= usize::MAX,
    ensures
        ({
            let threads = seq![(Value::Integer(thread), Value::Integer(host))];
            let cores = seq![(Value::Integer(core), Value::Hash(threads))];
            let found = sockets_pins(seq![(Value::Integer(socket), Value::Hash(cores))]);
            &&& found is Ok
            &&& found->Ok_0.len() == 1
            &&& found->Ok_0[0].0 == socket
            &&& found->Ok_0[0].1 == core
            &&& found->Ok_0[0].2 == thread
            &&& found->Ok_0[0].3 == host
        }),
{
    let threads = seq![(Value::Integer(thread), Value::Integer(host))];
    let cores = seq![(Value::Integer(core), Value::Hash(threads))];
    single_socket((Value::Integer(socket), Value::Hash(cores)));
    single_core(socket as usize, cores[0]);
    single_thread(socket as usize, core as usize, threads[0]);
}

/// Pinnings come in the order in which they are written. Those of two rows of
/// sockets are those of the first and then those of the second. Writing the cores
/// of a socket, or the threads of a core, in two places one after the other makes
/// no difference. Nothing written pins nothing.
pub proof fn pinnings_keep_their_order(
    a: Seq<(Value, Value)>,
    b: Seq<(Value, Value)>,
    socket: Value,
    core: Value,
)
    ensures
        sockets_pins(Seq::<(Value, Value)>::empty()) == Ok::<Seq<Pin>, ErrorView>(
            Seq::<Pin>::empty(),
        ),
        sockets_pins(a) is Err ==> sockets_pins(a + b) == sockets_pins(a),
        sockets_pins(a) is Ok && sockets_pins(b) is Err ==> sockets_pins(a + b) == sockets_pins(b),
        sockets_pins(a) is Ok && sockets_pins(b) is Ok ==> sockets_pins(a + b) == Ok::<
            Seq<Pin>,
            ErrorView,
        >(sockets_pins(a)->Ok_0 + sockets_pins(b)->Ok_0),
        sockets_pins(seq![(socket, Value::Hash(a + b))]) == sockets_pins(
            seq![(socket, Value::Hash(a)), (socket, Value::Hash(b))],
        ),
        sockets_pins(seq![(socket, Value::Hash(seq![(core, Value::Hash(a + b))]))])
            == sockets_pins(
            seq![
                (socket, Value::Hash(seq![(core, Value::Hash(a))])),
                (socket, Value::Hash(seq![(core, Value::Hash(b))])),
            ],
        ),
{
    let none = Seq::<(Value, Value)>::empty();
    assert(Seq::new(none.len(), |i: int| socket_pins(none[i])) =~= Seq::empty());
    let x = Seq::new(a.len(), |i: int| socket_pins(a[i]));
    let y = Seq::new(b.len(), |i: int| socket_pins(b[i]));
    let ab = a + b;
    assert(Seq::new(ab.len(), |i: int| socket_pins(ab[i])) =~= x + y);
    crate::error::rows_are_gathered_in_turn(x, y);
    // The cores of a socket.
    let first = seq![(socket, Value::Hash(a))];
    let second = seq![(socket, Value::Hash(b))];
    let both = seq![(socket, Value::Hash(a)), (socket, Value::Hash(b))];
    two_sockets(first[0], second[0]);
    single_socket(first[0]);
    single_socket(second[0]);
    single_socket((socket, Value::Hash(ab)));
    if let Some(id) = id_of(socket) {
        let p = Seq::new(a.len(), |i: int| core_pins(id, a[i]));
        let q = Seq::new(b.len(), |i: int| core_pins(id, b[i]));
        assert(Seq::new(ab.len(), |i: int| core_pins(id, ab[i])) =~= p + q);
        crate::error::rows_are_gathered_in_turn(p, q);
        // The threads of a core.
        let one = (core, Value::Hash(a));
        let two = (core, Value::Hash(b));
        let all = (core, Value::Hash(ab));
        single_core(id, one);
        single_core(id, two);
        single_core(id, all);
        if let Some(number) = id_of(core) {
            let s = Seq::new(a.len(), |i: int| thread_pin(id, number, a[i]));
            let t = Seq::new(b.len(), |i: int| thread_pin(id, number, b[i]));
            assert(Seq::new(ab.len(), |i: int| thread_pin(id, number, ab[i])) =~= s + t);
            crate::error::values_are_gathered_in_turn(s, t);
        }
    }
    two_sockets(
        (socket, Value::Hash(seq![(core, Value::Hash(a))])),
        (socket, Value::Hash(seq![(core, Value::Hash(b))])),
    );
    single_socket((socket, Value::Hash(seq![(core, Value::Hash(ab))])));
}

/// The pinnings of two sockets.
proof fn two_sockets(a: (Value, Value), b: (Value, Value))
    ensures
        sockets_pins(seq![a, b]) == match (socket_pins(a), socket_pins(b)) {
            (Ok(x), Ok(y)) => Ok::<Seq<Pin>, ErrorView>(x + y),
            (Ok(_), Err(error)) => Err(error),
            (Err(error), _) => Err(error),
        },
{
    let entries = seq![a, b];
    let results = Seq::new(entries.len(), |i: int| socket_pins(entries[i]));
    assert(results =~= seq![socket_pins(a)] + seq![socket_pins(b)]);
    crate::error::rows_are_gathered_in_turn(seq![socket_pins(a)], seq![socket_pins(b)]);
    single_row(socket_pins(a));
    single_row(socket_pins(b));
}

/// Whether a value can be the number of a socket, a core, a thread or a host CPU.
pub open spec fn is_number(value: Value) -> bool {
    value matches Value::Integer(n) && 0 <= n <= usize::MAX
}

/// What is complained of where a pinning is not written as numbers and hashes below
/// each other.
pub proof fn broken_pinnings_are_complained_of(
    socket: Value,
    core: Value,
    thread: Value,
    host: Value,
    other: Value,
)
    ensures
        ({
            let fails = |sockets: Seq<(Value, Value)>, message: Seq<char>|
                sockets_pins(sockets) == Err::<Seq<Pin>, ErrorView>(
                    ErrorView { kind: ErrorKind::InvalidData, message },
                );
            let number = |value: Value| "."@ + crate::text::decimal(value->Integer_0 as nat);
            let start = "Failed to parse `launcher.vcpu_pinning"@;
            let below = |value: Value| seq![(socket, Value::Hash(seq![(core, value)]))];
            let pinned = Value::Hash(seq![(thread, host)]);
            &&& !is_number(socket) ==> fails(
                seq![(socket, other)],
                start + Seq::<char>::empty() + "`: "@
                    + "the socket ID must be an integer greater or equal to zero."@,
            )
            &&& is_number(socket) && !(other is Hash) ==> fails(
                seq![(socket, other)],
                start + (Seq::<char>::empty() + number(socket)) + "`: "@ + "a hash expected."@,
            )
            &&& is_number(socket) && !is_number(core) ==> fails(
                below(other),
                start + (Seq::<char>::empty() + number(socket)) + "`: "@
                    + "the core ID must be an integer greater or equal to zero."@,
            )
            &&& is_number(socket) && is_number(core) && !(other is Hash) ==> fails(
                below(other),
                start + (Seq::<char>::empty() + number(socket) + number(core)) + "`: "@
                    + "a hash expected."@,
            )
            &&& is_number(socket) && is_number(core) && !is_number(thread) ==> fails(
                below(pinned),
                start + (Seq::<char>::empty() + number(socket) + number(core)) + "`: "@
                    + "the thread ID must be a positive integer."@,
            )
            &&& is_number(socket) && is_number(core) && is_number(thread) && !is_number(host)
                ==> fails(
                below(pinned),
                start + (Seq::<char>::empty() + number(socket) + number(core) + number(thread))
                    + "`: "@ + "the host core ID must be an integer greater or equal to zero."@,
            )
        }),
{
    let number = |value: Value| "."@ + crate::text::decimal(value->Integer_0 as nat);
    let empty = Seq::<char>::empty();
    let pinned = Value::Hash(seq![(thread, host)]);
    single_socket((socket, other));
    single_socket((socket, Value::Hash(seq![(core, other)])));
    single_socket((socket, Value::Hash(seq![(core, pinned)])));
    part_name_grows(Seq::<usize>::empty(), 0);
    if let Some(s) = id_of(socket) {
        let none = Seq::<usize>::empty();
        assert(none.push(s) =~= seq![s]);
        part_name_grows(none, s);
        assert(part_name(seq![s]) =~= empty + number(socket));
        single_core(s, (core, other));
        single_core(s, (core, pinned));
        if let Some(c) = id_of(core) {
            assert(seq![s].push(c) =~= seq![s, c]);
            part_name_grows(seq![s], c);
            assert(part_name(seq![s, c]) =~= empty + number(socket) + number(core));
            single_thread(s, c, (thread, host));
            if let Some(t) = id_of(thread) {
                assert(seq![s, c].push(t) =~= seq![s, c, t]);
                part_name_grows(seq![s, c], t);
                assert(part_name(seq![s, c, t]) =~= empty + number(socket) + number(core) + number(
                    thread,
                ));
            }
        }
    }
}

/// The name of a part of the option with one more number.
proof fn part_name_grows(ids: Seq<usize>, id: usize)
    ensures
        part_name(Seq::<usize>::empty()) == Seq::<char>::empty(),
        part_name(ids.push(id)) == part_name(ids) + "."@ + crate::text::decimal(id as nat),
{
    assert(ids.push(id).drop_last() =~= ids);
}

} // verus!
