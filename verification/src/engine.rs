//! The decision engine: a pure function from an intercepted operation and a
//! policy snapshot to a verdict.

use vstd::prelude::*;
use crate::pattern::pattern_matches;
use crate::policy::{Action, PolicyRule, PolicySnapshot, RuleView, SnapshotView, has_conflict, rules_valid};

verus! {

/// The kind of an intercepted file operation.
#[derive(Clone, Copy, Debug, PartialEq, Eq, Structural)]
pub enum OpKind {
    Create,
    Write,
    Rename,
    Delete,
}

/// One intercepted I/O request, as it stood when the callback ran.
#[derive(Clone, Debug, PartialEq, Eq)]
pub struct OperationDescriptor {
    pub kind: OpKind,
    pub path: Vec<u8>,
    pub process: u64,
    pub timestamp: u64,
    /// Bytes to be written; zero for operations that write nothing.
    pub data_len: u64,
}

/// The mathematical value of an `OperationDescriptor`.
pub struct DescriptorView {
    pub kind: OpKind,
    pub path: Seq<u8>,
    pub process: u64,
    pub timestamp: u64,
    pub data_len: u64,
}

impl View for OperationDescriptor {
    type V = DescriptorView;

    open spec fn view(&self) -> DescriptorView {
        DescriptorView {
            kind: self.kind,
            path: self.path@,
            process: self.process,
            timestamp: self.timestamp,
            data_len: self.data_len,
        }
    }
}

/// The outcome of evaluating one operation.
#[derive(Clone, Copy, Debug, PartialEq, Eq, Structural)]
pub enum Verdict {
    Allow,
    Block,
    /// Hold the operation back for this many milliseconds.
    Delay(u64),
}

/// Handed out with a `Delay`: names the rule that asked for it, so that the
/// caller can come back after the delay with the operation as it then stands.
#[derive(Clone, Copy, Debug, PartialEq, Eq, Structural)]
pub struct ReevalToken {
    /// Version of the snapshot that was evaluated.
    pub version: u64,
    /// Place of the deciding rule in that snapshot.
    pub rule: usize,
    /// How many delays this operation has been handed, this one included.
    pub round: u32,
}

/// A verdict, with a token exactly when the verdict is a `Delay`.
#[derive(Clone, Copy, Debug, PartialEq, Eq, Structural)]
pub struct Decision {
    pub verdict: Verdict,
    pub token: Option<ReevalToken>,
}

/// The verdict that an action stands for.
pub open spec fn verdict_of(action: Action) -> Verdict {
    match action {
        Action::Allow => Verdict::Allow,
        Action::Block => Verdict::Block,
        Action::Delay(ms) => Verdict::Delay(ms),
    }
}

/// Whether a rule selects an operation.
pub open spec fn rule_matches(rule: RuleView, desc: DescriptorView) -> bool {
    pattern_matches(rule.pattern, desc.path, desc.process)
}

/// Rule `i` matches, and among the first `n` rules no matching rule has a
/// higher priority, nor the same priority and an earlier place.
pub open spec fn leads(rules: Seq<RuleView>, desc: DescriptorView, n: int, i: int) -> bool {
    &&& 0 <= i < n <= rules.len()
    &&& rule_matches(rules[i], desc)
    &&& forall|j: int|
        0 <= j < n && #[trigger] rule_matches(rules[j], desc) ==> rules[j].priority
            < rules[i].priority || (rules[j].priority == rules[i].priority && i <= j)
}

/// Rule `i` is the first match in descending order of priority.
pub open spec fn is_winner(rules: Seq<RuleView>, desc: DescriptorView, i: int) -> bool {
    leads(rules, desc, rules.len() as int, i)
}

/// No rule matches.
pub open spec fn no_match(rules: Seq<RuleView>, desc: DescriptorView) -> bool {
    forall|j: int| 0 <= j < rules.len() ==> !#[trigger] rule_matches(rules[j], desc)
}

/// The place of the deciding rule, if any rule matches.
pub open spec fn winner(rules: Seq<RuleView>, desc: DescriptorView) -> Option<int> {
    if exists|i: int| is_winner(rules, desc, i) {
        Some(choose|i: int| is_winner(rules, desc, i))
    } else {
        None
    }
}

/// The round counter after one more delay; it stops at the largest value.
pub open spec fn next_round(round: u32) -> u32 {
    if round == u32::MAX {
        round
    } else {
        (round + 1) as u32
    }
}

/// The decision for an operation that has been delayed `round` times so far.
pub open spec fn decision_at(snapshot: SnapshotView, desc: DescriptorView, round: u32) -> Decision {
    match winner(snapshot.rules, desc) {
        None => Decision { verdict: Verdict::Allow, token: None },
        Some(i) => {
            let verdict = verdict_of(snapshot.rules[i].action);
            Decision {
                verdict,
                token: if verdict is Delay {
                    Some(
                        ReevalToken {
                            version: snapshot.version,
                            rule: i as usize,
                            round: next_round(round),
                        },
                    )
                } else {
                    None
                },
            }
        },
    }
}

/// The decision for a fresh operation.
pub open spec fn decide_spec(snapshot: SnapshotView, desc: DescriptorView) -> Decision {
    decision_at(snapshot, desc, 0)
}

/// At most one rule is the winner.
pub proof fn lemma_winner_unique(rules: Seq<RuleView>, desc: DescriptorView, a: int, b: int)
    requires
        is_winner(rules, desc, a),
        is_winner(rules, desc, b),
    ensures
        a == b,
{
}

/// A rule that is the winner is the one `winner` names.
pub proof fn lemma_winner_is(rules: Seq<RuleView>, desc: DescriptorView, i: int)
    requires
        is_winner(rules, desc, i),
    ensures
        winner(rules, desc) == Some(i),
{
    let w = choose|k: int| is_winner(rules, desc, k);
    lemma_winner_unique(rules, desc, i, w);
}

/// Where no rule matches there is no winner.
pub proof fn lemma_no_match_no_winner(rules: Seq<RuleView>, desc: DescriptorView)
    requires
        no_match(rules, desc),
    ensures
        winner(rules, desc) is None,
{
}

/// Decides `rule_matches`.
pub fn rule_applies(rule: &PolicyRule, desc: &OperationDescriptor) -> (hit: bool)
    ensures
        hit == rule_matches(rule@, desc@),
{
    rule.pattern.matches(&desc.path, desc.process)
}

fn find_winner(snapshot: &PolicySnapshot, desc: &OperationDescriptor) -> (best: Option<usize>)
    ensures
        match best {
            Some(i) => winner(snapshot@.rules, desc@) == Some(i as int) && i < snapshot@.rules.len(),
            None => winner(snapshot@.rules, desc@) is None && no_match(snapshot@.rules, desc@),
        },
{
    let n: usize = snapshot.len();
    let mut best: Option<usize> = None;
    let mut top: u32 = 0;
    let mut k: usize = 0;
    while k < n
        invariant
            k <= n,
            n == snapshot@.rules.len(),
            match best {
                Some(i) => leads(snapshot@.rules, desc@, k as int, i as int)
                    && top == snapshot@.rules[i as int].priority,
                None => forall|j: int|
                    0 <= j < k ==> !#[trigger] rule_matches(snapshot@.rules[j], desc@),
            },
        decreases n - k,
    {
        let rule = snapshot.rule(k);
        if rule_applies(rule, desc) {
            if best.is_none() || rule.priority > top {
                best = Some(k);
                top = rule.priority;
            }
        }
        k += 1;
    }
    proof {
        match best {
            Some(i) => lemma_winner_is(snapshot@.rules, desc@, i as int),
            None => lemma_no_match_no_winner(snapshot@.rules, desc@),
        }
    }
    best
}

fn decide_round(snapshot: &PolicySnapshot, desc: &OperationDescriptor, round: u32) -> (d: Decision)
    ensures
        d == decision_at(snapshot@, desc@, round),
{
    match find_winner(snapshot, desc) {
        None => Decision { verdict: Verdict::Allow, token: None },
        Some(i) => {
            match snapshot.rule(i).action {
                Action::Allow => Decision { verdict: Verdict::Allow, token: None },
                Action::Block => Decision { verdict: Verdict::Block, token: None },
                Action::Delay(ms) => {
                    let next: u32 = if round == u32::MAX { round } else { round + 1 };
                    Decision {
                        verdict: Verdict::Delay(ms),
                        token: Some(ReevalToken { version: snapshot.version(), rule: i, round: next }),
                    }
                },
            }
        },
    }
}

/// Evaluates an operation against a snapshot: the matching rule of highest
/// priority decides, and where none matches the operation is allowed.
pub fn decide(desc: &OperationDescriptor, snapshot: &PolicySnapshot) -> (d: Decision)
    ensures
        d == decide_spec(snapshot@, desc@),
        no_match(snapshot@.rules, desc@) ==> d.verdict == Verdict::Allow,
{
    proof {
        if no_match(snapshot@.rules, desc@) {
            lemma_no_match_no_winner(snapshot@.rules, desc@);
        }
    }
    decide_round(snapshot, desc, 0)
}

/// Evaluates a delayed operation again, as it now stands, against the
/// snapshot that is now active. The token of the earlier `Delay` carries the
/// round count forward.
pub fn reevaluate(desc: &OperationDescriptor, snapshot: &PolicySnapshot, token: ReevalToken) -> (d:
    Decision)
    ensures
        d == decision_at(snapshot@, desc@, token.round),
{
    decide_round(snapshot, desc, token.round)
}

/// Equal operations and equal snapshots get equal decisions.
pub proof fn lemma_decide_deterministic(
    d1: OperationDescriptor,
    d2: OperationDescriptor,
    s1: PolicySnapshot,
    s2: PolicySnapshot,
)
    requires
        d1@ == d2@,
        s1@ == s2@,
    ensures
        decide_spec(s1@, d1@) == decide_spec(s2@, d2@),
{
}

/// An operation that no rule matches is allowed, without a token.
pub proof fn lemma_no_match_allows(snapshot: SnapshotView, desc: DescriptorView)
    requires
        no_match(snapshot.rules, desc),
    ensures
        decide_spec(snapshot, desc) == (Decision { verdict: Verdict::Allow, token: None }),
{
    lemma_no_match_no_winner(snapshot.rules, desc);
}

/// Of two matching rules with different priorities the lower one never
/// decides: the verdict is that of a matching rule whose priority is at least
/// the higher one's.
pub proof fn lemma_higher_priority_wins(
    snapshot: SnapshotView,
    desc: DescriptorView,
    hi: int,
    lo: int,
)
    requires
        0 <= hi < snapshot.rules.len(),
        0 <= lo < snapshot.rules.len(),
        rule_matches(snapshot.rules[hi], desc),
        rule_matches(snapshot.rules[lo], desc),
        snapshot.rules[hi].priority > snapshot.rules[lo].priority,
    ensures
        winner(snapshot.rules, desc) is Some,
        winner(snapshot.rules, desc).unwrap() != lo,
        snapshot.rules[winner(snapshot.rules, desc).unwrap()].priority
            >= snapshot.rules[hi].priority,
        decide_spec(snapshot, desc).verdict == verdict_of(
            snapshot.rules[winner(snapshot.rules, desc).unwrap()].action,
        ),
{
    let n = snapshot.rules.len() as int;
    lemma_winner_exists(snapshot.rules, desc, n, hi);
    let w = choose|i: int| leads(snapshot.rules, desc, n, i);
    assert(is_winner(snapshot.rules, desc, w));
    lemma_winner_is(snapshot.rules, desc, w);
}

/// Where one of the first `n` rules matches, one of them leads.
pub proof fn lemma_winner_exists(rules: Seq<RuleView>, desc: DescriptorView, n: int, m: int)
    requires
        0 <= m < n <= rules.len(),
        rule_matches(rules[m], desc),
    ensures
        exists|i: int| leads(rules, desc, n, i),
    decreases n,
{
    let p = n - 1;
    if exists|j: int| 0 <= j < p && rule_matches(rules[j], desc) {
        let j = choose|j: int| 0 <= j < p && rule_matches(rules[j], desc);
        lemma_winner_exists(rules, desc, p, j);
        let w = choose|i: int| leads(rules, desc, p, i);
        if rule_matches(rules[p], desc) && rules[p].priority > rules[w].priority {
            assert(leads(rules, desc, n, p));
        } else {
            assert(leads(rules, desc, n, w));
        }
    } else {
        assert(m == p);
        assert(leads(rules, desc, n, m));
    }
}

/// Two rule lists hold the same rules, in whatever order.
pub open spec fn same_rules(a: Seq<RuleView>, b: Seq<RuleView>) -> bool {
    &&& forall|i: int| 0 <= i < a.len() ==> b.contains(#[trigger] a[i])
    &&& forall|j: int| 0 <= j < b.len() ==> a.contains(#[trigger] b[j])
}

/// The verdict does not depend on the order of the rule list: two valid
/// snapshots that hold the same rules give every operation the same verdict.
pub proof fn lemma_order_irrelevant(s1: SnapshotView, s2: SnapshotView, desc: DescriptorView)
    requires
        rules_valid(s1.rules),
        rules_valid(s2.rules),
        same_rules(s1.rules, s2.rules),
    ensures
        decide_spec(s1, desc).verdict == decide_spec(s2, desc).verdict,
{
    let r1 = s1.rules;
    let r2 = s2.rules;
    let n1 = r1.len() as int;
    if exists|m: int| 0 <= m < n1 && rule_matches(r1[m], desc) {
        let m = choose|m: int| 0 <= m < n1 && rule_matches(r1[m], desc);
        lemma_winner_exists(r1, desc, n1, m);
        let w = choose|i: int| leads(r1, desc, n1, i);
        assert(is_winner(r1, desc, w));
        lemma_winner_is(r1, desc, w);
        assert(r2.contains(r1[w]));
        let k = choose|k: int| 0 <= k < r2.len() && r2[k] == r1[w];
        assert forall|j: int| 0 <= j < r2.len() && #[trigger] rule_matches(r2[j], desc) implies r2[j].priority
            < r2[k].priority || (r2[j].priority == r2[k].priority && k <= j) by {
            assert(r1.contains(r2[j]));
            let i = choose|i: int| 0 <= i < r1.len() && r1[i] == r2[j];
            assert(rule_matches(r1[i], desc));
            if r2[j].priority == r2[k].priority && j < k {
                assert(r2[j].priority == r2[k].priority);
                assert(has_conflict(r2));
            }
        }
        assert(is_winner(r2, desc, k));
        lemma_winner_is(r2, desc, k);
    } else {
        assert(no_match(r1, desc));
        assert forall|j: int| 0 <= j < r2.len() implies !#[trigger] rule_matches(r2[j], desc) by {
            assert(r1.contains(r2[j]));
        }
        lemma_no_match_no_winner(r1, desc);
        lemma_no_match_no_winner(r2, desc);
    }
}

} // verus!
