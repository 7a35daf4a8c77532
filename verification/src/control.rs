//! The driver lifecycle as a finite state machine: one step takes the state
//! and a signal, and gives the next state and what the driver must do.

use vstd::prelude::*;

verus! {

/// Where the driver stands.
#[derive(Clone, Copy, Debug, PartialEq, Eq, Structural)]
pub enum Phase {
    /// No callback is registered; operations never reach the filter.
    Unregistered,
    /// Registration has been asked of the operating system.
    Registered,
    /// Operations are evaluated.
    Intercepting,
    /// A stop was asked for; decisions in flight may still come back.
    Draining,
}

/// What reaches the state machine.
#[derive(Clone, Copy, Debug, PartialEq, Eq, Structural)]
pub enum Signal {
    /// The command to start.
    Start,
    /// The operating system's answer to a registration.
    Registration(bool),
    /// The command to stop, with the time it came at.
    Stop(u64),
    /// An operation reached the callback.
    Arrive,
    /// A decision in flight is ready to be handed back, at this time.
    Complete(u64),
    /// Time has passed; it is now this.
    Tick(u64),
}

/// Why a signal was refused.
#[derive(Clone, Copy, Debug, PartialEq, Eq, Structural)]
pub enum ControlError {
    /// The command does not apply in the present phase.
    InvalidState,
    /// The operating system refused the callback.
    RegistrationFailure,
}

/// What the driver must do after a step.
#[derive(Clone, Copy, Debug, PartialEq, Eq, Structural)]
pub enum Directive {
    /// Nothing.
    Nothing,
    /// Register the callback and report the answer.
    Register,
    /// Evaluate the operation and hand its verdict back.
    Evaluate,
    /// Let the operation through unseen.
    Bypass,
    /// Hand the finished decision back.
    Deliver,
    /// The decision came too late: allow its operation and audit it.
    Expire,
    /// Remove the callback; allow and audit this many decisions still in flight.
    Deregister(u64),
    /// Report the error to whoever sent the command.
    Reject(ControlError),
}

/// The state of the lifecycle.
#[derive(Clone, Copy, Debug, PartialEq, Eq, Structural)]
pub struct Lifecycle {
    pub phase: Phase,
    /// Decisions begun and not yet handed back.
    pub in_flight: u64,
    /// While draining: the last moment at which a decision may be handed back.
    pub deadline: u64,
}

/// The sum of a time and a span; it stops at the largest value.
pub open spec fn time_after(now: u64, span: u64) -> u64 {
    if now + span > u64::MAX {
        u64::MAX
    } else {
        (now + span) as u64
    }
}

/// Outside `Intercepting` and `Draining` nothing is in flight.
pub open spec fn lifecycle_wf(s: Lifecycle) -> bool {
    (s.phase == Phase::Unregistered || s.phase == Phase::Registered) ==> s.in_flight == 0
}

/// The state before the first start.
pub open spec fn initial() -> Lifecycle {
    Lifecycle { phase: Phase::Unregistered, in_flight: 0, deadline: 0 }
}

/// One step of the lifecycle. `drain_timeout` is how long a stop waits for
/// decisions in flight.
pub open spec fn step_spec(s: Lifecycle, signal: Signal, drain_timeout: u64) -> (Lifecycle, Directive) {
    match signal {
        Signal::Start => if s.phase == Phase::Unregistered {
            (Lifecycle { phase: Phase::Registered, ..s }, Directive::Register)
        } else {
            (s, Directive::Reject(ControlError::InvalidState))
        },
        Signal::Registration(granted) => if s.phase != Phase::Registered {
            (s, Directive::Nothing)
        } else if granted {
            (Lifecycle { phase: Phase::Intercepting, ..s }, Directive::Nothing)
        } else {
            (
                Lifecycle { phase: Phase::Unregistered, ..s },
                Directive::Reject(ControlError::RegistrationFailure),
            )
        },
        Signal::Stop(now) => match s.phase {
            Phase::Registered => (
                Lifecycle { phase: Phase::Unregistered, ..s },
                Directive::Deregister(0),
            ),
            Phase::Intercepting => (
                Lifecycle {
                    phase: Phase::Draining,
                    deadline: time_after(now, drain_timeout),
                    ..s
                },
                Directive::Nothing,
            ),
            _ => (s, Directive::Reject(ControlError::InvalidState)),
        },
        Signal::Arrive => if s.phase == Phase::Intercepting && s.in_flight < u64::MAX {
            (Lifecycle { in_flight: (s.in_flight + 1) as u64, ..s }, Directive::Evaluate)
        } else {
            (s, Directive::Bypass)
        },
        Signal::Complete(now) => if s.in_flight == 0 {
            (s, Directive::Nothing)
        } else if s.phase == Phase::Intercepting || (s.phase == Phase::Draining && now
            <= s.deadline) {
            (Lifecycle { in_flight: (s.in_flight - 1) as u64, ..s }, Directive::Deliver)
        } else {
            (Lifecycle { in_flight: (s.in_flight - 1) as u64, ..s }, Directive::Expire)
        },
        Signal::Tick(now) => if s.phase == Phase::Draining && (s.in_flight == 0 || now
            > s.deadline) {
            (
                Lifecycle { phase: Phase::Unregistered, in_flight: 0, ..s },
                Directive::Deregister(s.in_flight),
            )
        } else {
            (s, Directive::Nothing)
        },
    }
}

impl Lifecycle {
    /// The state before the first start.
    pub fn new() -> (s: Lifecycle)
        ensures
            s == initial(),
            lifecycle_wf(s),
    {
        Lifecycle { phase: Phase::Unregistered, in_flight: 0, deadline: 0 }
    }

    /// Takes one step.
    pub fn step(self, signal: Signal, drain_timeout: u64) -> (out: (Lifecycle, Directive))
        ensures
            out == step_spec(self, signal, drain_timeout),
            lifecycle_wf(self) ==> lifecycle_wf(out.0),
    {
        let s = self;
        match signal {
            Signal::Start => match s.phase {
                Phase::Unregistered => (
                    Lifecycle { phase: Phase::Registered, in_flight: s.in_flight, deadline: s.deadline },
                    Directive::Register,
                ),
                _ => (s, Directive::Reject(ControlError::InvalidState)),
            },
            Signal::Registration(granted) => match s.phase {
                Phase::Registered => if granted {
                    (
                        Lifecycle {
                            phase: Phase::Intercepting,
                            in_flight: s.in_flight,
                            deadline: s.deadline,
                        },
                        Directive::Nothing,
                    )
                } else {
                    (
                        Lifecycle {
                            phase: Phase::Unregistered,
                            in_flight: s.in_flight,
                            deadline: s.deadline,
                        },
                        Directive::Reject(ControlError::RegistrationFailure),
                    )
                },
                _ => (s, Directive::Nothing),
            },
            Signal::Stop(now) => match s.phase {
                Phase::Registered => (
                    Lifecycle {
                        phase: Phase::Unregistered,
                        in_flight: s.in_flight,
                        deadline: s.deadline,
                    },
                    Directive::Deregister(0),
                ),
                Phase::Intercepting => {
                    let deadline: u64 = if drain_timeout > u64::MAX - now {
                        u64::MAX
                    } else {
                        now + drain_timeout
                    };
                    (
                        Lifecycle { phase: Phase::Draining, in_flight: s.in_flight, deadline },
                        Directive::Nothing,
                    )
                },
                _ => (s, Directive::Reject(ControlError::InvalidState)),
            },
            Signal::Arrive => match s.phase {
                Phase::Intercepting => if s.in_flight < u64::MAX {
                    (
                        Lifecycle {
                            phase: s.phase,
                            in_flight: s.in_flight + 1,
                            deadline: s.deadline,
                        },
                        Directive::Evaluate,
                    )
                } else {
                    (s, Directive::Bypass)
                },
                _ => (s, Directive::Bypass),
            },
            Signal::Complete(now) => {
                if s.in_flight == 0 {
                    (s, Directive::Nothing)
                } else {
                    let rest = Lifecycle {
                        phase: s.phase,
                        in_flight: s.in_flight - 1,
                        deadline: s.deadline,
                    };
                    match s.phase {
                        Phase::Intercepting => (rest, Directive::Deliver),
                        Phase::Draining => if now <= s.deadline {
                            (rest, Directive::Deliver)
                        } else {
                            (rest, Directive::Expire)
                        },
                        _ => (rest, Directive::Expire),
                    }
                }
            },
            Signal::Tick(now) => match s.phase {
                Phase::Draining => if s.in_flight == 0 || now > s.deadline {
                    (
                        Lifecycle { phase: Phase::Unregistered, in_flight: 0, deadline: s.deadline },
                        Directive::Deregister(s.in_flight),
                    )
                } else {
                    (s, Directive::Nothing)
                },
                _ => (s, Directive::Nothing),
            },
        }
    }
}

/// The time that a signal carries, if it carries one.
pub open spec fn signal_time(signal: Signal) -> Option<u64> {
    match signal {
        Signal::Stop(now) => Some(now),
        Signal::Complete(now) => Some(now),
        Signal::Tick(now) => Some(now),
        _ => None,
    }
}

/// Once a stop has been taken, no operation is evaluated any more, and past
/// the drain deadline no decision is handed back: a step from `Draining`
/// never asks to evaluate, and one at a time after the deadline never asks to
/// deliver.
pub proof fn lemma_drain_is_final(s: Lifecycle, signal: Signal, drain_timeout: u64)
    requires
        s.phase == Phase::Draining,
    ensures
        step_spec(s, signal, drain_timeout).1 != Directive::Evaluate,
        match signal_time(signal) {
            Some(now) => now > s.deadline ==> step_spec(s, signal, drain_timeout).1
                != Directive::Deliver,
            None => step_spec(s, signal, drain_timeout).1 != Directive::Deliver,
        },
        step_spec(s, signal, drain_timeout).0.phase == Phase::Draining || step_spec(
            s,
            signal,
            drain_timeout,
        ).0.phase == Phase::Unregistered,
        step_spec(s, signal, drain_timeout).0.in_flight <= s.in_flight,
        step_spec(s, signal, drain_timeout).0.deadline == s.deadline,
{
}

/// While no callback is registered, every operation bypasses the filter and
/// no decision is handed back, whatever the signal.
pub proof fn lemma_unregistered_bypasses(s: Lifecycle, signal: Signal, drain_timeout: u64)
    requires
        lifecycle_wf(s),
        s.phase == Phase::Unregistered,
    ensures
        signal == Signal::Arrive ==> step_spec(s, signal, drain_timeout) == (s, Directive::Bypass),
        step_spec(s, signal, drain_timeout).1 != Directive::Evaluate,
        step_spec(s, signal, drain_timeout).1 != Directive::Deliver,
{
}

/// A stop while intercepting sets the deadline to the time of the stop plus
/// the drain timeout, and a tick after that deadline ends the drain.
pub proof fn lemma_stop_then_deadline(s: Lifecycle, now: u64, later: u64, drain_timeout: u64)
    requires
        s.phase == Phase::Intercepting,
        later > time_after(now, drain_timeout),
    ensures
        step_spec(s, Signal::Stop(now), drain_timeout).0.phase == Phase::Draining,
        step_spec(
            step_spec(s, Signal::Stop(now), drain_timeout).0,
            Signal::Tick(later),
            drain_timeout,
        ) == (
            Lifecycle {
                phase: Phase::Unregistered,
                in_flight: 0,
                deadline: time_after(now, drain_timeout),
            },
            Directive::Deregister(s.in_flight),
        ),
{
}

/// The state after the signals of `signals` were taken, first to last.
pub open spec fn run(s: Lifecycle, signals: Seq<Signal>, drain_timeout: u64) -> Lifecycle
    decreases signals.len(),
{
    if signals.len() == 0 {
        s
    } else {
        step_spec(run(s, signals.drop_last(), drain_timeout), signals.last(), drain_timeout).0
    }
}

/// The driver is draining towards `deadline`, or has finished doing so.
pub open spec fn winding_down(s: Lifecycle, deadline: u64) -> bool {
    ||| s.phase == Phase::Draining && s.deadline == deadline
    ||| s.phase == Phase::Unregistered && s.in_flight == 0
}

/// None of the signals is a start.
pub open spec fn no_restart(signals: Seq<Signal>) -> bool {
    forall|k: int| 0 <= k < signals.len() ==> #[trigger] signals[k] != Signal::Start
}

/// A driver that winds down keeps doing so until it is started again.
pub proof fn lemma_winding_down_lasts(
    s: Lifecycle,
    deadline: u64,
    signals: Seq<Signal>,
    drain_timeout: u64,
)
    requires
        winding_down(s, deadline),
        no_restart(signals),
    ensures
        winding_down(run(s, signals, drain_timeout), deadline),
    decreases signals.len(),
{
    if signals.len() > 0 {
        let before = signals.drop_last();
        assert forall|k: int| 0 <= k < before.len() implies #[trigger] before[k]
            != Signal::Start by {
            assert(before[k] == signals[k]);
        }
        lemma_winding_down_lasts(s, deadline, before, drain_timeout);
        assert(signals.last() == signals[signals.len() - 1]);
    }
}

/// After a stop, whatever signals follow short of a new start, no operation
/// is evaluated, and a decision is handed back only at a time up to the
/// drain deadline: so it is for the signal at every place `k`.
pub proof fn lemma_no_decision_after_drain(
    s: Lifecycle,
    now: u64,
    signals: Seq<Signal>,
    k: int,
    drain_timeout: u64,
)
    requires
        s.phase == Phase::Intercepting,
        no_restart(signals),
        0 <= k < signals.len(),
    ensures
        ({
            let stopped = step_spec(s, Signal::Stop(now), drain_timeout).0;
            let at = run(stopped, signals.take(k), drain_timeout);
            let directive = step_spec(at, signals[k], drain_timeout).1;
            &&& stopped.deadline == time_after(now, drain_timeout)
            &&& directive != Directive::Evaluate
            &&& directive == Directive::Deliver ==> signal_time(signals[k]) is Some
                && signal_time(signals[k]).unwrap() <= stopped.deadline
        }),
{
    let stopped = step_spec(s, Signal::Stop(now), drain_timeout).0;
    let before = signals.take(k);
    assert forall|m: int| 0 <= m < before.len() implies #[trigger] before[m] != Signal::Start by {
        assert(before[m] == signals[m]);
    }
    lemma_winding_down_lasts(stopped, stopped.deadline, before, drain_timeout);
}

} // verus!
