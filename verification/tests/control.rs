use minifilter::control::{ControlError, Directive, Lifecycle, Phase, Signal};

const WAIT: u64 = 100;

fn intercepting(in_flight: u64) -> Lifecycle {
    Lifecycle { phase: Phase::Intercepting, in_flight, deadline: 0 }
}

#[test]
fn lifecycle_starts_unregistered() {
    let s = Lifecycle::new();
    assert_eq!(s, Lifecycle { phase: Phase::Unregistered, in_flight: 0, deadline: 0 });
}

#[test]
fn start_registers_then_intercepts() {
    let (s, d) = Lifecycle::new().step(Signal::Start, WAIT);
    assert_eq!(s.phase, Phase::Registered);
    assert_eq!(d, Directive::Register);
    let (s, d) = s.step(Signal::Registration(true), WAIT);
    assert_eq!(s.phase, Phase::Intercepting);
    assert_eq!(d, Directive::Nothing);
}

#[test]
fn refused_registration_returns_to_unregistered() {
    let (s, _) = Lifecycle::new().step(Signal::Start, WAIT);
    let (s, d) = s.step(Signal::Registration(false), WAIT);
    assert_eq!(s, Lifecycle::new());
    assert_eq!(d, Directive::Reject(ControlError::RegistrationFailure));
}

#[test]
fn start_twice_is_rejected() {
    let (s, _) = Lifecycle::new().step(Signal::Start, WAIT);
    let (t, d) = s.step(Signal::Start, WAIT);
    assert_eq!(t, s);
    assert_eq!(d, Directive::Reject(ControlError::InvalidState));
    let (t, d) = intercepting(0).step(Signal::Start, WAIT);
    assert_eq!(t, intercepting(0));
    assert_eq!(d, Directive::Reject(ControlError::InvalidState));
}

#[test]
fn stop_while_unregistered_is_rejected() {
    let (s, d) = Lifecycle::new().step(Signal::Stop(5), WAIT);
    assert_eq!(s, Lifecycle::new());
    assert_eq!(d, Directive::Reject(ControlError::InvalidState));
}

#[test]
fn stop_while_registered_deregisters() {
    let (s, _) = Lifecycle::new().step(Signal::Start, WAIT);
    let (s, d) = s.step(Signal::Stop(5), WAIT);
    assert_eq!(s.phase, Phase::Unregistered);
    assert_eq!(d, Directive::Deregister(0));
}

#[test]
fn stray_registration_answer_is_ignored() {
    let (s, d) = intercepting(2).step(Signal::Registration(false), WAIT);
    assert_eq!(s, intercepting(2));
    assert_eq!(d, Directive::Nothing);
}

#[test]
fn arrival_is_evaluated_only_while_intercepting() {
    let (s, d) = intercepting(0).step(Signal::Arrive, WAIT);
    assert_eq!(s, intercepting(1));
    assert_eq!(d, Directive::Evaluate);
    let (s, d) = Lifecycle::new().step(Signal::Arrive, WAIT);
    assert_eq!(s, Lifecycle::new());
    assert_eq!(d, Directive::Bypass);
    let draining = Lifecycle { phase: Phase::Draining, in_flight: 1, deadline: 50 };
    let (s, d) = draining.step(Signal::Arrive, WAIT);
    assert_eq!(s, draining);
    assert_eq!(d, Directive::Bypass);
}

#[test]
fn arrival_beyond_the_counter_bypasses() {
    let (s, d) = intercepting(u64::MAX).step(Signal::Arrive, WAIT);
    assert_eq!(s, intercepting(u64::MAX));
    assert_eq!(d, Directive::Bypass);
}

#[test]
fn completion_delivers_while_intercepting() {
    let (s, d) = intercepting(2).step(Signal::Complete(9), WAIT);
    assert_eq!(s, intercepting(1));
    assert_eq!(d, Directive::Deliver);
    let (s, d) = intercepting(0).step(Signal::Complete(9), WAIT);
    assert_eq!(s, intercepting(0));
    assert_eq!(d, Directive::Nothing);
}

#[test]
fn stop_sets_the_drain_deadline() {
    let (s, d) = intercepting(3).step(Signal::Stop(40), WAIT);
    assert_eq!(s, Lifecycle { phase: Phase::Draining, in_flight: 3, deadline: 140 });
    assert_eq!(d, Directive::Nothing);
}

#[test]
fn drain_deadline_saturates() {
    let (s, _) = intercepting(1).step(Signal::Stop(u64::MAX - 1), WAIT);
    assert_eq!(s.deadline, u64::MAX);
    let (s, _) = intercepting(1).step(Signal::Stop(u64::MAX - 100), WAIT);
    assert_eq!(s.deadline, u64::MAX);
    let (s, _) = intercepting(1).step(Signal::Stop(u64::MAX - 101), WAIT);
    assert_eq!(s.deadline, u64::MAX - 1);
}

#[test]
fn draining_delivers_until_the_deadline() {
    let draining = Lifecycle { phase: Phase::Draining, in_flight: 2, deadline: 140 };
    let (s, d) = draining.step(Signal::Complete(140), WAIT);
    assert_eq!(d, Directive::Deliver);
    assert_eq!(s.in_flight, 1);
    let (s, d) = s.step(Signal::Complete(141), WAIT);
    assert_eq!(d, Directive::Expire);
    assert_eq!(s, Lifecycle { phase: Phase::Draining, in_flight: 0, deadline: 140 });
}

#[test]
fn tick_ends_the_drain() {
    let draining = Lifecycle { phase: Phase::Draining, in_flight: 2, deadline: 140 };
    let (s, d) = draining.step(Signal::Tick(140), WAIT);
    assert_eq!(s, draining);
    assert_eq!(d, Directive::Nothing);
    let (s, d) = draining.step(Signal::Tick(141), WAIT);
    assert_eq!(s, Lifecycle { phase: Phase::Unregistered, in_flight: 0, deadline: 140 });
    assert_eq!(d, Directive::Deregister(2));
    let idle = Lifecycle { phase: Phase::Draining, in_flight: 0, deadline: 140 };
    let (s, d) = idle.step(Signal::Tick(1), WAIT);
    assert_eq!(s.phase, Phase::Unregistered);
    assert_eq!(d, Directive::Deregister(0));
}

#[test]
fn tick_outside_drain_does_nothing() {
    let (s, d) = intercepting(1).step(Signal::Tick(u64::MAX), WAIT);
    assert_eq!(s, intercepting(1));
    assert_eq!(d, Directive::Nothing);
}

#[test]
fn nothing_is_decided_after_the_drain() {
    let (s, _) = intercepting(1).step(Signal::Stop(10), WAIT);
    let (s, _) = s.step(Signal::Tick(111), WAIT);
    assert_eq!(s.phase, Phase::Unregistered);
    let (s, d) = s.step(Signal::Arrive, WAIT);
    assert_eq!(d, Directive::Bypass);
    let (_, d) = s.step(Signal::Complete(112), WAIT);
    assert_eq!(d, Directive::Nothing);
}
