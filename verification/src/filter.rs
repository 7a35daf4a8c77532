//! The interception layer and the control channel around the engine: one
//! value that holds the policy store, the event queue, the lifecycle and the
//! counters, and the functions that the driver's callbacks call.

use vstd::prelude::*;
use crate::control::{Directive, Lifecycle, Phase, Signal, initial, lifecycle_wf, step_spec};
use crate::engine::{
    Decision,
    OperationDescriptor,
    ReevalToken,
    Verdict,
    decide,
    decide_spec,
    decision_at,
    reevaluate,
};
use crate::events::{EventQueue, EventRecord, QueueView, bump, bump_counter, push_spec};
use crate::policy::{
    PolicyError,
    PolicyRule,
    PolicyStore,
    SnapshotView,
    StoreView,
    next_version,
    rules_view,
    validation_error,
};

verus! {

/// What the callback hands back to the operating system.
#[derive(Clone, Copy, Debug, PartialEq, Eq, Structural)]
pub enum OsCode {
    Allow,
    Deny,
    Pend,
}

/// The settings of a filter.
#[derive(Clone, Copy, Debug, PartialEq, Eq, Structural)]
pub struct FilterConfig {
    /// Time that one decision may take, in microseconds.
    pub budget_us: u64,
    /// What becomes of a `Delay` once the budget is spent: `Allow` when set,
    /// `Block` when not.
    pub fail_open: bool,
    /// How long a stop waits for decisions in flight.
    pub drain_timeout: u64,
    /// How many event records the queue holds.
    pub queue_capacity: usize,
    /// Whether a reload may install an empty rule list.
    pub allow_empty_policy: bool,
}

impl Default for FilterConfig {
    /// Two milliseconds per decision, failing open; five thousand time units
    /// to drain; a queue of 1024 records; empty policies allowed.
    fn default() -> (c: FilterConfig)
        ensures
            c == (FilterConfig {
                budget_us: 2000,
                fail_open: true,
                drain_timeout: 5000,
                queue_capacity: 1024,
                allow_empty_policy: true,
            }),
    {
        FilterConfig {
            budget_us: 2000,
            fail_open: true,
            drain_timeout: 5000,
            queue_capacity: 1024,
            allow_empty_policy: true,
        }
    }
}

/// What the callback learns of one operation.
#[derive(Clone, Copy, Debug, PartialEq, Eq, Structural)]
pub struct Outcome {
    pub verdict: Verdict,
    /// Present exactly when the verdict is a `Delay`.
    pub token: Option<ReevalToken>,
    pub code: OsCode,
    /// The decision overran its time budget, or came back after the drain
    /// deadline.
    pub warning: bool,
}

/// Counts of what the filter has seen; each stops at the largest value.
#[derive(Clone, Copy, Debug, PartialEq, Eq, Structural)]
pub struct Counters {
    pub seen: u64,
    pub blocked: u64,
    pub delayed: u64,
}

/// The answer to a status query.
#[derive(Clone, Copy, Debug, PartialEq, Eq, Structural)]
pub struct Status {
    pub phase: Phase,
    pub seen: u64,
    pub blocked: u64,
    pub delayed: u64,
    pub dropped_events: u64,
    pub policy_version: u64,
}

/// A command of the management side.
#[derive(Clone, Debug, PartialEq, Eq)]
pub enum Command {
    Start,
    Stop,
    ReloadPolicy(Vec<PolicyRule>),
    QueryStatus,
}

/// The answer to a command.
#[derive(Clone, Copy, Debug, PartialEq, Eq, Structural)]
pub enum Reply {
    /// The lifecycle took the command; the driver must do this.
    Lifecycle(Directive),
    /// The new policy is active, at this version.
    Reloaded(u64),
    /// The rule list was refused and the old policy stays.
    Refused(PolicyError),
    Status(Status),
}

/// The code that stands for a verdict.
pub open spec fn code_of(v: Verdict) -> OsCode {
    match v {
        Verdict::Allow => OsCode::Allow,
        Verdict::Block => OsCode::Deny,
        Verdict::Delay(_) => OsCode::Pend,
    }
}

/// The verdict that stands in for one that could not be waited for.
pub open spec fn fallback(fail_open: bool) -> Verdict {
    if fail_open {
        Verdict::Allow
    } else {
        Verdict::Block
    }
}

/// What is handed back for a decision that took `elapsed_us`. A decision
/// that overran the budget carries a warning; a `Delay` that did so becomes
/// the configured fallback and loses its token.
pub open spec fn resolve_spec(d: Decision, elapsed_us: u64, config: FilterConfig) -> Outcome {
    let late = elapsed_us > config.budget_us;
    if d.verdict is Delay && late {
        Outcome {
            verdict: fallback(config.fail_open),
            token: None,
            code: code_of(fallback(config.fail_open)),
            warning: true,
        }
    } else {
        Outcome { verdict: d.verdict, token: d.token, code: code_of(d.verdict), warning: late }
    }
}

/// The outcome for an operation that the filter does not look at.
pub open spec fn passed() -> Outcome {
    Outcome { verdict: Verdict::Allow, token: None, code: OsCode::Allow, warning: false }
}

/// The outcome for a decision that came back too late: allowed and audited.
pub open spec fn expired() -> Outcome {
    Outcome { verdict: Verdict::Allow, token: None, code: OsCode::Allow, warning: true }
}

/// The counters after a verdict was given. `fresh` says whether the
/// operation is seen for the first time.
pub open spec fn count_spec(c: Counters, fresh: bool, v: Verdict) -> Counters {
    Counters {
        seen: if fresh {
            bump(c.seen)
        } else {
            c.seen
        },
        blocked: if v is Block {
            bump(c.blocked)
        } else {
            c.blocked
        },
        delayed: if v is Delay {
            bump(c.delayed)
        } else {
            c.delayed
        },
    }
}

/// Decides `code_of`.
pub fn os_code(v: Verdict) -> (code: OsCode)
    ensures
        code == code_of(v),
{
    match v {
        Verdict::Allow => OsCode::Allow,
        Verdict::Block => OsCode::Deny,
        Verdict::Delay(_) => OsCode::Pend,
    }
}

/// Turns a decision into what the callback hands back, given the time that
/// the decision took.
pub fn resolve(d: Decision, elapsed_us: u64, config: &FilterConfig) -> (o: Outcome)
    ensures
        o == resolve_spec(d, elapsed_us, *config),
{
    let late: bool = elapsed_us > config.budget_us;
    match d.verdict {
        Verdict::Delay(_) => if late {
            let v = if config.fail_open {
                Verdict::Allow
            } else {
                Verdict::Block
            };
            Outcome { verdict: v, token: None, code: os_code(v), warning: true }
        } else {
            Outcome { verdict: d.verdict, token: d.token, code: OsCode::Pend, warning: false }
        },
        _ => Outcome { verdict: d.verdict, token: d.token, code: os_code(d.verdict), warning: late },
    }
}

fn count(c: Counters, fresh: bool, v: Verdict) -> (n: Counters)
    ensures
        n == count_spec(c, fresh, v),
{
    let seen: u64 = if fresh { bump_counter(c.seen) } else { c.seen };
    let blocked: u64 = match v {
        Verdict::Block => bump_counter(c.blocked),
        _ => c.blocked,
    };
    let delayed: u64 = match v {
        Verdict::Delay(_) => bump_counter(c.delayed),
        _ => c.delayed,
    };
    Counters { seen, blocked, delayed }
}

/// The filter: policy, events, lifecycle and counters in one place.
pub struct Filter {
    config: FilterConfig,
    store: PolicyStore,
    queue: EventQueue,
    lifecycle: Lifecycle,
    counters: Counters,
}

/// The mathematical value of a `Filter`.
pub struct FilterView {
    pub config: FilterConfig,
    pub store: StoreView,
    pub queue: QueueView,
    pub lifecycle: Lifecycle,
    pub counters: Counters,
}

impl View for Filter {
    type V = FilterView;

    closed spec fn view(&self) -> FilterView {
        FilterView {
            config: self.config,
            store: self.store@,
            queue: self.queue@,
            lifecycle: self.lifecycle,
            counters: self.counters,
        }
    }
}

/// The record that reports an outcome.
pub open spec fn record_of(desc: OperationDescriptor, o: Outcome, now: u64) -> EventRecord {
    EventRecord { descriptor: desc, verdict: o.verdict, warning: o.warning, timestamp: now }
}

/// The filter after an operation arrived at `now` and its decision took
/// `elapsed_us`, and what the callback hands back.
///
/// An operation that the lifecycle does not admit passes unseen: nothing is
/// counted or reported. An admitted one is decided against the active
/// snapshot, counted and reported; it stays in flight exactly when it is
/// delayed.
pub open spec fn intercept_spec(
    f: FilterView,
    desc: OperationDescriptor,
    now: u64,
    elapsed_us: u64,
) -> (FilterView, Outcome) {
    let (entered, directive) = step_spec(f.lifecycle, Signal::Arrive, f.config.drain_timeout);
    if directive != Directive::Evaluate {
        (f, passed())
    } else {
        let o = resolve_spec(decide_spec(f.store.active, desc@), elapsed_us, f.config);
        (
            FilterView {
                queue: push_spec(f.queue, record_of(desc, o, now)),
                counters: count_spec(f.counters, true, o.verdict),
                lifecycle: if o.verdict is Delay {
                    entered
                } else {
                    step_spec(entered, Signal::Complete(now), f.config.drain_timeout).0
                },
                ..f
            },
            o,
        )
    }
}

/// The filter after a delayed operation came back at `now`, and what the
/// callback hands back.
///
/// Where nothing is in flight the operation passes unseen. Where the
/// lifecycle still delivers, the operation is decided again; delayed again,
/// it stays in flight. Where the drain deadline has passed, it is allowed
/// with a warning.
pub open spec fn resume_spec(
    f: FilterView,
    desc: OperationDescriptor,
    token: ReevalToken,
    now: u64,
    elapsed_us: u64,
) -> (FilterView, Outcome) {
    let (left, directive) = step_spec(f.lifecycle, Signal::Complete(now), f.config.drain_timeout);
    if directive == Directive::Deliver {
        let o = resolve_spec(
            decision_at(f.store.active, desc@, token.round),
            elapsed_us,
            f.config,
        );
        (
            FilterView {
                queue: push_spec(f.queue, record_of(desc, o, now)),
                counters: count_spec(f.counters, false, o.verdict),
                lifecycle: if o.verdict is Delay {
                    f.lifecycle
                } else {
                    left
                },
                ..f
            },
            o,
        )
    } else if directive == Directive::Expire {
        (
            FilterView {
                queue: push_spec(f.queue, record_of(desc, expired(), now)),
                lifecycle: left,
                ..f
            },
            expired(),
        )
    } else {
        (f, passed())
    }
}

/// The answer to a status query.
pub open spec fn status_spec(f: FilterView) -> Status {
    Status {
        phase: f.lifecycle.phase,
        seen: f.counters.seen,
        blocked: f.counters.blocked,
        delayed: f.counters.delayed,
        dropped_events: f.queue.dropped,
        policy_version: f.store.active.version,
    }
}

impl Filter {
    /// The invariant of a filter: that of each of its parts.
    pub closed spec fn wf(&self) -> bool {
        &&& self.store.wf()
        &&& self.queue.wf()
        &&& lifecycle_wf(self.lifecycle)
    }

    /// A filter that is not registered, with an empty policy at version
    /// zero, an empty queue and all counters at zero.
    pub fn new(config: FilterConfig) -> (f: Filter)
        ensures
            f.wf(),
            f@.config == config,
            f@.store.allow_empty == config.allow_empty_policy,
            f@.store.active.version == 0,
            f@.store.active.rules.len() == 0,
            f@.queue == (QueueView {
                records: Seq::empty(),
                capacity: config.queue_capacity,
                dropped: 0,
            }),
            f@.lifecycle == initial(),
            f@.counters == (Counters { seen: 0, blocked: 0, delayed: 0 }),
    {
        Filter {
            config,
            store: PolicyStore::new(config.allow_empty_policy),
            queue: EventQueue::new(config.queue_capacity),
            lifecycle: Lifecycle::new(),
            counters: Counters { seen: 0, blocked: 0, delayed: 0 },
        }
    }

    /// Handles one operation that reached the callback at `now`; the
    /// decision took `elapsed_us`.
    pub fn intercept(&mut self, desc: OperationDescriptor, now: u64, elapsed_us: u64) -> (o: Outcome)
        requires
            old(self).wf(),
        ensures
            final(self).wf(),
            (final(self)@, o) == intercept_spec(old(self)@, desc, now, elapsed_us),
    {
        let (entered, directive) = self.lifecycle.step(Signal::Arrive, self.config.drain_timeout);
        match directive {
            Directive::Evaluate => {},
            _ => {
                return Outcome {
                    verdict: Verdict::Allow,
                    token: None,
                    code: OsCode::Allow,
                    warning: false,
                };
            },
        }
        let decision = decide(&desc, self.store.current());
        let o = resolve(decision, elapsed_us, &self.config);
        self.counters = count(self.counters, true, o.verdict);
        self.lifecycle =
        match o.verdict {
            Verdict::Delay(_) => entered,
            _ => entered.step(Signal::Complete(now), self.config.drain_timeout).0,
        };
        self.queue.push(
            EventRecord { descriptor: desc, verdict: o.verdict, warning: o.warning, timestamp: now },
        );
        o
    }

    /// Handles a delayed operation that came back at `now` with the token of
    /// its delay; the new decision took `elapsed_us`.
    pub fn resume(
        &mut self,
        desc: OperationDescriptor,
        token: ReevalToken,
        now: u64,
        elapsed_us: u64,
    ) -> (o: Outcome)
        requires
            old(self).wf(),
        ensures
            final(self).wf(),
            (final(self)@, o) == resume_spec(old(self)@, desc, token, now, elapsed_us),
    {
        let (left, directive) = self.lifecycle.step(Signal::Complete(now), self.config.drain_timeout);
        match directive {
            Directive::Deliver => {
                let decision = reevaluate(&desc, self.store.current(), token);
                let o = resolve(decision, elapsed_us, &self.config);
                self.counters = count(self.counters, false, o.verdict);
                match o.verdict {
                    Verdict::Delay(_) => {},
                    _ => {
                        self.lifecycle = left;
                    },
                }
                self.queue.push(
                    EventRecord {
                        descriptor: desc,
                        verdict: o.verdict,
                        warning: o.warning,
                        timestamp: now,
                    },
                );
                o
            },
            Directive::Expire => {
                self.lifecycle = left;
                self.queue.push(
                    EventRecord {
                        descriptor: desc,
                        verdict: Verdict::Allow,
                        warning: true,
                        timestamp: now,
                    },
                );
                Outcome { verdict: Verdict::Allow, token: None, code: OsCode::Allow, warning: true }
            },
            _ => Outcome { verdict: Verdict::Allow, token: None, code: OsCode::Allow, warning: false },
        }
    }

    /// Hands a signal to the lifecycle and says what the driver must do.
    /// Nothing but the lifecycle changes.
    pub fn notify(&mut self, signal: Signal) -> (d: Directive)
        requires
            old(self).wf(),
        ensures
            final(self).wf(),
            final(self)@ == (FilterView {
                lifecycle: step_spec(old(self)@.lifecycle, signal, old(self)@.config.drain_timeout).0,
                ..old(self)@
            }),
            d == step_spec(old(self)@.lifecycle, signal, old(self)@.config.drain_timeout).1,
    {
        let (next, d) = self.lifecycle.step(signal, self.config.drain_timeout);
        self.lifecycle = next;
        d
    }

    /// The present counters, phase and policy version.
    pub fn status(&self) -> (s: Status)
        ensures
            s == status_spec(self@),
    {
        Status {
            phase: self.lifecycle.phase,
            seen: self.counters.seen,
            blocked: self.counters.blocked,
            delayed: self.counters.delayed,
            dropped_events: self.queue.dropped(),
            policy_version: self.store.current().version(),
        }
    }

    /// Carries out a command that came at `now`.
    ///
    /// `Start` and `Stop` go to the lifecycle. A reload swaps the policy or,
    /// where the rule list is refused, changes nothing. A query changes
    /// nothing.
    pub fn command(&mut self, cmd: Command, now: u64) -> (reply: Reply)
        requires
            old(self).wf(),
        ensures
            final(self).wf(),
            match cmd {
                Command::Start => {
                    let (next, d) = step_spec(
                        old(self)@.lifecycle,
                        Signal::Start,
                        old(self)@.config.drain_timeout,
                    );
                    reply == Reply::Lifecycle(d) && final(self)@ == (FilterView {
                        lifecycle: next,
                        ..old(self)@
                    })
                },
                Command::Stop => {
                    let (next, d) = step_spec(
                        old(self)@.lifecycle,
                        Signal::Stop(now),
                        old(self)@.config.drain_timeout,
                    );
                    reply == Reply::Lifecycle(d) && final(self)@ == (FilterView {
                        lifecycle: next,
                        ..old(self)@
                    })
                },
                Command::ReloadPolicy(rules) => match validation_error(
                    rules_view(rules@),
                    old(self)@.store.allow_empty,
                ) {
                    Some(e) => reply == Reply::Refused(e) && final(self)@ == old(self)@,
                    None => reply == Reply::Reloaded(next_version(old(self)@.store.active.version))
                        && final(self)@ == (FilterView {
                        store: StoreView {
                            active: SnapshotView {
                                version: next_version(old(self)@.store.active.version),
                                rules: rules_view(rules@),
                            },
                            allow_empty: old(self)@.store.allow_empty,
                        },
                        ..old(self)@
                    }),
                },
                Command::QueryStatus => reply == Reply::Status(status_spec(old(self)@))
                    && final(self)@ == old(self)@,
            },
    {
        match cmd {
            Command::Start => Reply::Lifecycle(self.notify(Signal::Start)),
            Command::Stop => Reply::Lifecycle(self.notify(Signal::Stop(now))),
            Command::ReloadPolicy(rules) => match self.store.reload(rules) {
                Ok(()) => Reply::Reloaded(self.store.current().version()),
                Err(e) => Reply::Refused(e),
            },
            Command::QueryStatus => Reply::Status(self.status()),
        }
    }

    /// The policy that decisions are made against.
    pub fn policy(&self) -> (store: &PolicyStore)
        ensures
            store@ == self@.store,
    {
        &self.store
    }

    /// Takes the oldest event record out of the queue, if there is one.
    pub fn next_event(&mut self) -> (r: Option<EventRecord>)
        requires
            old(self).wf(),
        ensures
            final(self).wf(),
            match r {
                Some(x) => old(self)@.queue.records.len() > 0 && x == old(self)@.queue.records[0]
                    && final(self)@ == (FilterView {
                    queue: QueueView {
                        records: old(self)@.queue.records.drop_first(),
                        ..old(self)@.queue
                    },
                    ..old(self)@
                }),
                None => old(self)@.queue.records.len() == 0 && final(self)@ == old(self)@,
            },
    {
        self.queue.pop()
    }
}

} // verus!
