use nextest_runner::signal::{
    SignalEvent, SignalHandler, SignalRegistrationError, SignalRegistry,
};

#[test]
fn a_second_handler_cannot_be_registered() {
    let mut registry = SignalRegistry::new();
    assert!(!registry.registered());
    let first = SignalHandler::new(&mut registry);
    assert!(first.is_ok());
    assert!(registry.registered());
    let second = SignalHandler::new(&mut registry);
    assert_eq!(second.err(), Some(SignalRegistrationError::AlreadyRegistered));
    assert!(registry.registered());
    // It stays that way.
    assert!(SignalHandler::new(&mut registry).is_err());
}

#[test]
fn a_registered_handler_queues_one_event_for_each_interrupt() {
    let mut registry = SignalRegistry::new();
    let mut handler = SignalHandler::new(&mut registry).expect("no handler yet");
    assert!(handler.is_registered());
    assert_eq!(handler.try_recv(), None);
    handler.interrupt();
    handler.interrupt();
    assert_eq!(handler.try_recv(), Some(SignalEvent::Interrupted));
    assert_eq!(handler.try_recv(), Some(SignalEvent::Interrupted));
    assert_eq!(handler.try_recv(), None);
    handler.interrupt();
    assert_eq!(handler.try_recv(), Some(SignalEvent::Interrupted));
    assert_eq!(handler.try_recv(), None);
}

#[test]
fn a_noop_handler_never_yields_an_event() {
    let mut handler = SignalHandler::noop();
    assert!(!handler.is_registered());
    assert_eq!(handler.try_recv(), None);
    for _ in 0..10 {
        handler.interrupt();
        assert_eq!(handler.try_recv(), None);
    }
}

#[test]
fn a_noop_handler_takes_no_ones_place() {
    let mut registry = SignalRegistry::new();
    let mut noop = SignalHandler::noop();
    let mut handler = SignalHandler::new(&mut registry).expect("no handler yet");
    noop.interrupt();
    handler.interrupt();
    assert_eq!(noop.try_recv(), None);
    assert_eq!(handler.try_recv(), Some(SignalEvent::Interrupted));
    let another = SignalHandler::noop();
    assert!(!another.is_registered());
}
