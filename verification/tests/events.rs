use qemu_launcher::events::{Event, EventDispatcher, EventEmitter};

struct TestEvent {}
impl Event<TestEvent> for TestEvent {}

struct EventWithNoListeners {}
impl Event<EventWithNoListeners> for EventWithNoListeners {}

struct OtherEvent {}
impl Event<OtherEvent> for OtherEvent {}

struct EventOf<T> {
    _subject: T,
}
impl Event<str> for EventOf<u8> {}
impl Event<str> for EventOf<u16> {}

#[test]
fn event_dispatcher_notifies_appropriate_event_listeners() {
    let mut event_dispatcher = EventDispatcher::new();
    let mut test_event_count = 0;

    event_dispatcher.add_listener::<TestEvent, _>(0);

    for _ in event_dispatcher.trigger(&TestEvent {}) {
        test_event_count += 1;
    }
    for _ in event_dispatcher.trigger(&EventWithNoListeners {}) {
        test_event_count += 1;
    }

    assert_eq!(1, test_event_count);
}

#[test]
fn listeners_are_told_in_the_order_in_which_they_were_added() {
    let mut event_dispatcher = EventDispatcher::new();
    event_dispatcher.add_listener::<TestEvent, _>(7);
    event_dispatcher.add_listener::<OtherEvent, _>(8);
    assert_eq!(vec![7], event_dispatcher.trigger(&TestEvent {}));
    event_dispatcher.add_listener::<TestEvent, _>(3);

    assert_eq!(vec![7, 3], event_dispatcher.trigger(&TestEvent {}));
    assert_eq!(vec![7, 3], event_dispatcher.trigger(&TestEvent {}));
    assert_eq!(vec![8], event_dispatcher.trigger(&OtherEvent {}));
    assert_eq!(Vec::<usize>::new(), event_dispatcher.trigger(&EventWithNoListeners {}));
}

#[test]
fn types_that_differ_in_a_parameter_have_listeners_of_their_own() {
    let mut event_dispatcher = EventDispatcher::new();
    event_dispatcher.add_listener::<EventOf<u8>, _>(1);
    event_dispatcher.add_listener::<EventOf<u16>, _>(2);

    assert_eq!(vec![1], event_dispatcher.trigger(&EventOf { _subject: 5u8 }));
    assert_eq!(vec![2], event_dispatcher.trigger(&EventOf { _subject: 5u16 }));
}
