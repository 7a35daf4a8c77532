//! Policy rules, immutable snapshots of them, and the store that swaps
//! snapshots on reload.

use vstd::prelude::*;
use crate::pattern::{Pattern, PatternView, pattern_well_formed};

verus! {

/// What a rule asks for when it matches.
#[derive(Clone, Copy, Debug, PartialEq, Eq, Structural)]
pub enum Action {
    Allow,
    Block,
    /// Hold the operation back for this many milliseconds, then look again.
    Delay(u64),
}

/// One filtering rule.
#[derive(Clone, Debug, PartialEq, Eq)]
pub struct PolicyRule {
    pub pattern: Pattern,
    pub action: Action,
    pub priority: u32,
}

/// The mathematical value of a `PolicyRule`.
pub struct RuleView {
    pub pattern: PatternView,
    pub action: Action,
    pub priority: u32,
}

impl View for PolicyRule {
    type V = RuleView;

    open spec fn view(&self) -> RuleView {
        RuleView { pattern: self.pattern@, action: self.action, priority: self.priority }
    }
}

/// Why a rule list was refused.
#[derive(Clone, Copy, Debug, PartialEq, Eq, Structural)]
pub enum PolicyError {
    /// Some rule's pattern is not well formed.
    MalformedPattern,
    /// Two rules share one priority.
    ConflictingPriority,
    /// The list is empty and the store does not take an empty list.
    EmptyRuleSet,
}

/// The rule list as a sequence of rule values.
pub open spec fn rules_view(rules: Seq<PolicyRule>) -> Seq<RuleView> {
    Seq::new(rules.len(), |i: int| rules[i]@)
}

/// Some rule's pattern is not well formed.
pub open spec fn has_malformed(rules: Seq<RuleView>) -> bool {
    exists|i: int| 0 <= i < rules.len() && !pattern_well_formed(#[trigger] rules[i].pattern)
}

/// Two rules at different places share one priority.
pub open spec fn has_conflict(rules: Seq<RuleView>) -> bool {
    exists|i: int, j: int|
        0 <= i < j < rules.len() && #[trigger] rules[i].priority == #[trigger] rules[j].priority
}

/// The verdict on a rule list: `None` where it can become a snapshot, else
/// the error. An empty list that is not allowed is reported first, then a
/// malformed pattern, then a shared priority.
pub open spec fn validation_error(rules: Seq<RuleView>, allow_empty: bool) -> Option<PolicyError> {
    if rules.len() == 0 && !allow_empty {
        Some(PolicyError::EmptyRuleSet)
    } else if has_malformed(rules) {
        Some(PolicyError::MalformedPattern)
    } else if has_conflict(rules) {
        Some(PolicyError::ConflictingPriority)
    } else {
        None
    }
}

/// Every pattern well formed and no priority shared.
pub open spec fn rules_valid(rules: Seq<RuleView>) -> bool {
    !has_malformed(rules) && !has_conflict(rules)
}

/// The version that follows `v`; it wraps to zero after the last one.
pub open spec fn next_version(v: u64) -> u64 {
    if v == u64::MAX {
        0
    } else {
        (v + 1) as u64
    }
}

fn any_malformed(rules: &Vec<PolicyRule>) -> (found: bool)
    ensures
        found == has_malformed(rules_view(rules@)),
{
    let mut k: usize = 0;
    while k < rules.len()
        invariant
            k <= rules.len(),
            forall|m: int| 0 <= m < k ==> pattern_well_formed(#[trigger] rules_view(rules@)[m].pattern),
        decreases rules.len() - k,
    {
        if !rules[k].pattern.is_well_formed() {
            assert(!pattern_well_formed(rules_view(rules@)[k as int].pattern));
            return true;
        }
        k += 1;
    }
    false
}

fn any_conflict(rules: &Vec<PolicyRule>) -> (found: bool)
    ensures
        found == has_conflict(rules_view(rules@)),
{
    let ghost view = rules_view(rules@);
    let mut b: usize = 0;
    while b < rules.len()
        invariant
            b <= rules.len(),
            view == rules_view(rules@),
            forall|i: int, j: int|
                0 <= i < j < b ==> #[trigger] view[i].priority != #[trigger] view[j].priority,
        decreases rules.len() - b,
    {
        let mut a: usize = 0;
        while a < b
            invariant
                a <= b < rules.len(),
                view == rules_view(rules@),
                forall|i: int| 0 <= i < a ==> #[trigger] view[i].priority != view[b as int].priority,
            decreases b - a,
        {
            if rules[a].priority == rules[b].priority {
                assert(view[a as int].priority == view[b as int].priority);
                return true;
            }
            a += 1;
        }
        b += 1;
    }
    false
}

/// Checks a rule list as a reload would.
pub fn validate(rules: &Vec<PolicyRule>, allow_empty: bool) -> (res: Result<(), PolicyError>)
    ensures
        match validation_error(rules_view(rules@), allow_empty) {
            Some(e) => res == Err::<(), PolicyError>(e),
            None => res.is_ok(),
        },
{
    if rules.len() == 0 && !allow_empty {
        Err(PolicyError::EmptyRuleSet)
    } else if any_malformed(rules) {
        Err(PolicyError::MalformedPattern)
    } else if any_conflict(rules) {
        Err(PolicyError::ConflictingPriority)
    } else {
        Ok(())
    }
}

/// An immutable, versioned bundle of valid rules.
#[derive(Clone, Debug, PartialEq, Eq)]
pub struct PolicySnapshot {
    version: u64,
    rules: Vec<PolicyRule>,
}

/// The mathematical value of a `PolicySnapshot`.
pub struct SnapshotView {
    pub version: u64,
    pub rules: Seq<RuleView>,
}

impl View for PolicySnapshot {
    type V = SnapshotView;

    closed spec fn view(&self) -> SnapshotView {
        SnapshotView { version: self.version, rules: rules_view(self.rules@) }
    }
}

impl PolicySnapshot {
    /// The invariant of a snapshot: its rules are valid.
    pub open spec fn wf(&self) -> bool {
        rules_valid(self@.rules)
    }

    /// The snapshot without rules, at version zero.
    pub fn empty() -> (s: PolicySnapshot)
        ensures
            s.wf(),
            s@.version == 0,
            s@.rules.len() == 0,
    {
        PolicySnapshot { version: 0, rules: Vec::new() }
    }

    /// Builds a snapshot from a rule list, or says why the list is refused.
    /// An empty list is taken.
    pub fn build(version: u64, rules: Vec<PolicyRule>) -> (res: Result<PolicySnapshot, PolicyError>)
        ensures
            match validation_error(rules_view(rules@), true) {
                Some(e) => res == Err::<PolicySnapshot, PolicyError>(e),
                None => res.is_ok() && res.unwrap().wf() && res.unwrap()@ == (SnapshotView {
                    version,
                    rules: rules_view(rules@),
                }),
            },
    {
        match validate(&rules, true) {
            Err(e) => Err(e),
            Ok(()) => Ok(PolicySnapshot { version, rules }),
        }
    }

    pub fn version(&self) -> (v: u64)
        ensures
            v == self@.version,
    {
        self.version
    }

    /// The number of rules.
    pub fn len(&self) -> (n: usize)
        ensures
            n == self@.rules.len(),
    {
        self.rules.len()
    }

    /// The rule at place `i`.
    pub fn rule(&self, i: usize) -> (r: &PolicyRule)
        requires
            i < self@.rules.len(),
        ensures
            r@ == self@.rules[i as int],
    {
        &self.rules[i]
    }
}

/// Holds the snapshot that decisions are made against.
pub struct PolicyStore {
    active: PolicySnapshot,
    allow_empty: bool,
}

/// The mathematical value of a `PolicyStore`.
pub struct StoreView {
    pub active: SnapshotView,
    pub allow_empty: bool,
}

impl View for PolicyStore {
    type V = StoreView;

    closed spec fn view(&self) -> StoreView {
        StoreView { active: self.active@, allow_empty: self.allow_empty }
    }
}

impl PolicyStore {
    /// The invariant of a store: its active snapshot is valid.
    pub closed spec fn wf(&self) -> bool {
        self.active.wf()
    }

    /// A store with the empty snapshot at version zero. `allow_empty` says
    /// whether a reload may install an empty rule list.
    pub fn new(allow_empty: bool) -> (store: PolicyStore)
        ensures
            store.wf(),
            store@.allow_empty == allow_empty,
            store@.active.version == 0,
            store@.active.rules.len() == 0,
    {
        PolicyStore { active: PolicySnapshot::empty(), allow_empty }
    }

    /// The active snapshot.
    pub fn current(&self) -> (snapshot: &PolicySnapshot)
        ensures
            snapshot@ == self@.active,
            self.wf() ==> snapshot.wf(),
    {
        &self.active
    }

    /// Replaces the active snapshot by one built from `new_rules`, at the
    /// next version. A refused list changes nothing.
    pub fn reload(&mut self, new_rules: Vec<PolicyRule>) -> (res: Result<(), PolicyError>)
        requires
            old(self).wf(),
        ensures
            final(self).wf(),
            match validation_error(rules_view(new_rules@), old(self)@.allow_empty) {
                Some(e) => res == Err::<(), PolicyError>(e) && *final(self) == *old(self),
                None => res.is_ok() && final(self)@ == (StoreView {
                    active: SnapshotView {
                        version: next_version(old(self)@.active.version),
                        rules: rules_view(new_rules@),
                    },
                    allow_empty: old(self)@.allow_empty,
                }),
            },
    {
        match validate(&new_rules, self.allow_empty) {
            Err(e) => Err(e),
            Ok(()) => {
                let v: u64 = self.active.version;
                let next: u64 = if v == u64::MAX { 0 } else { v + 1 };
                self.active = PolicySnapshot { version: next, rules: new_rules };
                Ok(())
            },
        }
    }
}

} // verus!
