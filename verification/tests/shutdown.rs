use swb::shutdown::{
    interrupt_all, Interrupt, SignalAction, SignalPolicy, SourceLife, FORCE_EXIT_CODE,
};

#[test]
fn interrupt_is_idempotent() {
    let mut i = Interrupt::new();
    assert!(!i.is_raised());
    i.trigger();
    assert!(i.is_raised());
    // raising it again is no error and changes nothing
    i.trigger();
    assert!(i.is_raised());
}

#[test]
fn source_ends_exactly_once() {
    let mut life = SourceLife::new();
    assert!(!life.poll(false));
    // the interrupt is seen: the source ends at this very poll
    assert!(life.poll(true));
    // and never reports ending again, however often it is polled
    assert!(!life.poll(true));
    assert!(!life.poll(true));
    assert!(!life.poll(false));
}

#[test]
fn relay_close_cascades_to_every_source() {
    let mut interrupts: Vec<Interrupt> = (0..4).map(|_| Interrupt::new()).collect();
    interrupts[2].trigger(); // one may already be raised
    interrupt_all(&mut interrupts);
    let raised = interrupts.iter().filter(|i| i.is_raised()).count();
    assert_eq!(raised, 4);
}

#[test]
fn first_signal_is_graceful_second_forces_exit() {
    let mut policy = SignalPolicy::new();
    assert_eq!(policy.on_signal(), SignalAction::GracefulShutdown);
    assert_eq!(policy.on_signal(), SignalAction::ForceExit);
    assert_eq!(policy.on_signal(), SignalAction::ForceExit);
    assert_eq!(FORCE_EXIT_CODE, 2);
}
