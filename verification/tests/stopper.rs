use liveness::stopper::Stopper;

#[test]
fn receiver_is_yielded_exactly_once() {
    let mut s = Stopper::new();
    let first = s.get_receiver();
    assert!(first.is_some());
    let second = s.get_receiver();
    assert!(second.is_none());
    let third = s.get_receiver();
    assert!(third.is_none());
}

#[test]
fn stop_signals_the_held_receiver() {
    // the full one-shot scenario: take the receiver once, stop, and observe
    // the closure of the channel from the receiver's side
    let mut s = Stopper::new();
    let rx = s.get_receiver().expect("first take must yield the receiver");
    assert!(s.get_receiver().is_none());
    s.stop();
    // the sender was dropped without sending, so the receiver resolves
    // with a closed-channel error: the cooperative stop signal
    assert!(rx.blocking_recv().is_err());
}

#[test]
fn stop_is_idempotent() {
    let mut s = Stopper::new();
    let rx = s.get_receiver().expect("first take must yield the receiver");
    s.stop();
    s.stop();
    s.stop();
    // repeated stops are silent no-ops; the signal still arrives once
    assert!(rx.blocking_recv().is_err());
}

#[test]
fn stop_does_not_disturb_the_receiver_slot() {
    let mut s = Stopper::new();
    s.stop();
    // the receiver slot is independent of the sender slot
    let rx = s.get_receiver();
    assert!(rx.is_some());
    assert!(s.get_receiver().is_none());
}

#[test]
fn receiver_pends_while_sender_is_held() {
    let mut s = Stopper::new();
    let mut rx = s.get_receiver().expect("first take must yield the receiver");
    // no stop yet: the channel is neither closed nor carrying a value
    assert!(rx.try_recv().is_err());
    s.stop();
    assert!(rx.blocking_recv().is_err());
}
