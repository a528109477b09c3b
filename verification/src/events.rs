//! Events, and who listens to them.
//!
//! Listeners are known by numbers. The dispatcher says who has to be told of an
//! event, and in which order.
use std::any::TypeId;
use vstd::prelude::*;

verus! {

/// The standard library's `TypeId`: what tells a type from all others.
#[verifier::external_type_specification]
#[verifier::external_body]
pub struct ExTypeId(TypeId);

/// `TypeId::of`. It can be called for every type. Nothing is claimed of its
/// result here: see `type_id`.
pub assume_specification<T: ?Sized + 'static>[ TypeId::of::<T> ]() -> (r: TypeId)
;

/// The id of a type: what `TypeId::of` returns for it. The standard library
/// documents it as a globally unique identifier, so the ids of two types differ.
/// That is not stated here: no formula ranges over types.
pub open spec fn id_of<T: ?Sized + 'static>() -> TypeId {
    choose|id: TypeId| call_ensures(TypeId::of::<T>, (), id)
}

/// Calls `TypeId::of`. The contract claims that the result is one that
/// `TypeId::of` returns for this type, and that it returns no other: all calls for
/// one type agree.
#[verifier::external_body]
fn type_id<T: ?Sized + 'static>() -> (r: TypeId)
    ensures
        call_ensures(TypeId::of::<T>, (), r),
        forall|id: TypeId| call_ensures(TypeId::of::<T>, (), id) ==> id == r,
{
    TypeId::of::<T>()
}

/// Calls `==` on two ids. The contract claims that it is `true` for equal ids and
/// `false` for others.
#[verifier::external_body]
fn same_type(a: &TypeId, b: &TypeId) -> (r: bool)
    ensures
        r == (*a == *b),
{
    a == b
}

/// An event. It is its type, and nothing else, that says who listens to it.
pub trait Event<EventData: ?Sized>: 'static {
}

/// Something that tells listeners of events.
pub trait EventEmitter {
    /// The listeners with the id of the type of event that each of them listens to,
    /// in the order in which they were added.
    spec fn listening(&self) -> Seq<(TypeId, usize)>;

    /// The listeners that have to be told of an event, in the order in which they
    /// were added: those that listen to events of this type. They go on listening.
    fn trigger<E: Event<X>, X: ?Sized>(&mut self, event: &E) -> (r: Vec<usize>)
        ensures
            r@ == listeners_of(old(self).listening(), id_of::<E>()),
            final(self).listening() == old(self).listening(),
    ;
}

/// The listeners to events of the type with this id.
pub open spec fn listeners_of(listening: Seq<(TypeId, usize)>, id: TypeId) -> Seq<usize>
    decreases listening.len(),
{
    if listening.len() == 0 {
        Seq::<usize>::empty()
    } else if listening.last().0 == id {
        listeners_of(listening.drop_last(), id).push(listening.last().1)
    } else {
        listeners_of(listening.drop_last(), id)
    }
}

/// Keeps the listeners.
#[derive(Debug)]
pub struct EventDispatcher {
    listeners: Vec<(TypeId, usize)>,
}

impl EventDispatcher {
    /// A dispatcher without listeners.
    pub fn new() -> (r: EventDispatcher)
        ensures
            r.listening() == Seq::<(TypeId, usize)>::empty(),
    {
        EventDispatcher { listeners: Vec::new() }
    }

    /// Adds a listener to events of a type, behind those that are there.
    pub fn add_listener<E: Event<X>, X: ?Sized>(&mut self, listener: usize)
        ensures
            final(self).listening() == old(self).listening().push((id_of::<E>(), listener)),
    {
        self.listeners.push((type_id::<E>(), listener));
    }
}

impl EventEmitter for EventDispatcher {
    closed spec fn listening(&self) -> Seq<(TypeId, usize)> {
        self.listeners@
    }

    fn trigger<E: Event<X>, X: ?Sized>(&mut self, event: &E) -> (r: Vec<usize>) {
        let id: TypeId = type_id::<E>();
        let mut told: Vec<usize> = Vec::new();
        let mut i: usize = 0;
        assert(self.listeners@.take(0) =~= Seq::<(TypeId, usize)>::empty());
        while i < self.listeners.len()
            invariant
                i <= self.listeners@.len(),
                told@ == listeners_of(self.listeners@.take(i as int), id),
            decreases self.listeners@.len() - i,
        {
            assert(self.listeners@.take(i + 1).drop_last() =~= self.listeners@.take(i as int));
            if same_type(&self.listeners[i].0, &id) {
                told.push(self.listeners[i].1);
            }
            i = i + 1;
        }
        assert(self.listeners@.take(i as int) =~= self.listeners@);
        told
    }
}

/// A new listener is told of events of its type after the others, and of events of
/// no other type.
pub proof fn added_listener_is_told_last(
    listening: Seq<(TypeId, usize)>,
    id: TypeId,
    listener: usize,
    other: TypeId,
)
    requires
        other != id,
    ensures
        listeners_of(listening.push((id, listener)), id) == listeners_of(listening, id).push(
            listener,
        ),
        listeners_of(listening.push((id, listener)), other) == listeners_of(listening, other),
{
    assert(listening.push((id, listener)).drop_last() =~= listening);
}

/// Something that happens to a dispatcher: a listener to events of a type is
/// added, or an event of a type is triggered. The type is given by its id.
pub enum Happening {
    Added(TypeId, usize),
    Triggered(TypeId),
}

/// Who listens after all that happened to a new dispatcher.
pub open spec fn listening_after(happenings: Seq<Happening>) -> Seq<(TypeId, usize)>
    decreases happenings.len(),
{
    if happenings.len() == 0 {
        Seq::<(TypeId, usize)>::empty()
    } else {
        let before = listening_after(happenings.drop_last());
        match happenings.last() {
            Happening::Added(id, listener) => before.push((id, listener)),
            Happening::Triggered(_) => before,
        }
    }
}

/// The listeners to events of a type that were added, in this order.
pub open spec fn added_to(happenings: Seq<Happening>, id: TypeId) -> Seq<usize>
    decreases happenings.len(),
{
    if happenings.len() == 0 {
        Seq::<usize>::empty()
    } else {
        let before = added_to(happenings.drop_last(), id);
        match happenings.last() {
            Happening::Added(other, listener) if other == id => before.push(listener),
            _ => before,
        }
    }
}

/// Whatever happened before, an event is told to the listeners that were added to
/// events of its type, to each of them once for each time it was added, in the
/// order in which they were added, and to no others. The same listeners are told of
/// the next event of the type.
pub proof fn event_is_told_to_its_listeners(happenings: Seq<Happening>, id: TypeId)
    ensures
        listeners_of(listening_after(happenings), id) == added_to(happenings, id),
        listeners_of(listening_after(happenings.push(Happening::Triggered(id))), id)
            == added_to(happenings, id),
    decreases happenings.len(),
{
    let more = happenings.push(Happening::Triggered(id));
    assert(more.drop_last() =~= happenings);
    assert(more.last() == Happening::Triggered(id));
    assert(listening_after(more) == listening_after(happenings));
    if happenings.len() > 0 {
        let front = happenings.drop_last();
        event_is_told_to_its_listeners(front, id);
        if let Happening::Added(other, listener) = happenings.last() {
            let before = listening_after(front);
            assert(before.push((other, listener)).drop_last() =~= before);
        }
    }
}

/// Where listeners were added one row after another, those of the first row that
/// listen to events of a type are told first, and those of the second row then. A
/// listener alone is told of events of its own type only.
pub proof fn rows_of_listeners_are_told_in_turn(
    a: Seq<(TypeId, usize)>,
    b: Seq<(TypeId, usize)>,
    own: TypeId,
    listener: usize,
    id: TypeId,
)
    ensures
        listeners_of(Seq::<(TypeId, usize)>::empty(), id) == Seq::<usize>::empty(),
        listeners_of(seq![(own, listener)], id) == if own == id {
            seq![listener]
        } else {
            Seq::<usize>::empty()
        },
        listeners_of(a + b, id) == listeners_of(a, id) + listeners_of(b, id),
    decreases b.len(),
{
    let one = seq![(own, listener)];
    reveal_with_fuel(listeners_of, 2);
    assert(one.drop_last() =~= Seq::<(TypeId, usize)>::empty());
    assert(Seq::<usize>::empty().push(listener) =~= seq![listener]);
    if b.len() == 0 {
        assert(a + b =~= a);
        assert(listeners_of(a, id) + listeners_of(b, id) =~= listeners_of(a, id));
    } else {
        assert((a + b).drop_last() =~= a + b.drop_last());
        assert((a + b).last() == b.last());
        rows_of_listeners_are_told_in_turn(a, b.drop_last(), own, listener, id);
        assert(listeners_of(a + b, id) =~= listeners_of(a, id) + listeners_of(b, id));
    }
}

} // verus!
