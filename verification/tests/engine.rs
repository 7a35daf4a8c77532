use minifilter::engine::{decide, reevaluate, rule_applies, Decision, OpKind, OperationDescriptor, ReevalToken, Verdict};
use minifilter::pattern::{check_glob, glob_match, Pattern};
use minifilter::policy::{Action, PolicyRule, PolicySnapshot};
use minifilter::stub;

fn op(path: &str, process: u64) -> OperationDescriptor {
    OperationDescriptor {
        kind: OpKind::Write,
        path: path.as_bytes().to_vec(),
        process,
        timestamp: 7,
        data_len: 128,
    }
}

fn path_rule(glob: &str, action: Action, priority: u32) -> PolicyRule {
    PolicyRule { pattern: Pattern::Path(glob.as_bytes().to_vec()), action, priority }
}

fn snapshot(rules: Vec<PolicyRule>) -> PolicySnapshot {
    PolicySnapshot::build(1, rules).unwrap()
}

fn glob(p: &str, s: &str) -> bool {
    glob_match(&p.as_bytes().to_vec(), &s.as_bytes().to_vec())
}

#[test]
fn stub_follows_platform() {
    assert!(stub(true));
    assert!(!stub(false));
}

#[test]
fn lockme_is_blocked_and_txt_allowed() {
    let snap = snapshot(vec![path_rule("*.lockme", Action::Block, 10)]);
    assert_eq!(decide(&op("doc.lockme", 1), &snap).verdict, Verdict::Block);
    assert_eq!(decide(&op("doc.txt", 1), &snap).verdict, Verdict::Allow);
}

#[test]
fn glob_literal_matches_only_itself() {
    assert!(glob("abc", "abc"));
    assert!(!glob("abc", "abd"));
    assert!(!glob("abc", "ab"));
    assert!(!glob("abc", "abcd"));
    assert!(!glob("abc", ""));
}

#[test]
fn glob_empty_pattern_matches_only_empty_text() {
    assert!(glob("", ""));
    assert!(!glob("", "a"));
}

#[test]
fn glob_star_matches_any_run() {
    assert!(glob("*", ""));
    assert!(glob("*", "anything at all"));
    assert!(glob("a*", "a"));
    assert!(glob("a*", "abc"));
    assert!(!glob("a*", "ba"));
    assert!(glob("*a", "bcba"));
    assert!(!glob("*a", "ab"));
    assert!(glob("**", "x"));
}

#[test]
fn glob_star_backtracks() {
    assert!(glob("a*b*c", "aXbYbZc"));
    assert!(glob("*ab*ab", "abababab"));
    assert!(!glob("a*b*c", "aXbYbZ"));
    assert!(glob("*.lock*", "x.lo.lockme"));
    assert!(!glob("*aab", "aaaaaaaaaaaaaaaaaaaaaaaaaaaaaaaaaaaac"));
}

#[test]
fn glob_question_matches_one_byte() {
    assert!(glob("?", "a"));
    assert!(!glob("?", ""));
    assert!(!glob("?", "ab"));
    assert!(glob("a?c", "abc"));
    assert!(glob("?*", "a"));
    assert!(!glob("?*", ""));
    assert!(glob("??", "*?"));
}

#[test]
fn glob_star_in_text_is_a_plain_byte() {
    assert!(!glob("a", "*"));
    assert!(glob("*", "*"));
    assert!(glob("?", "*"));
}

#[test]
fn glob_well_formedness() {
    assert!(check_glob(&b"*.lockme".to_vec()));
    assert!(!check_glob(&Vec::new()));
    assert!(!check_glob(&vec![b'a', 0, b'b']));
    assert!(!check_glob(&vec![0]));
    assert!(Pattern::Process(0).is_well_formed());
    assert!(!Pattern::Path(Vec::new()).is_well_formed());
    assert!(Pattern::Path(b"x".to_vec()).is_well_formed());
}

#[test]
fn process_pattern_matches_by_identity() {
    let p = Pattern::Process(42);
    assert!(p.matches(&b"whatever".to_vec(), 42));
    assert!(!p.matches(&b"whatever".to_vec(), 43));
    let rule = PolicyRule { pattern: Pattern::Process(42), action: Action::Block, priority: 1 };
    assert!(rule_applies(&rule, &op("a", 42)));
    assert!(!rule_applies(&rule, &op("a", 41)));
}

#[test]
fn no_rule_means_allow() {
    let snap = PolicySnapshot::empty();
    let d = decide(&op("doc.lockme", 1), &snap);
    assert_eq!(d, Decision { verdict: Verdict::Allow, token: None });
}

#[test]
fn no_match_means_allow() {
    let snap = snapshot(vec![
        path_rule("*.exe", Action::Block, 3),
        PolicyRule { pattern: Pattern::Process(9), action: Action::Delay(5), priority: 4 },
    ]);
    let d = decide(&op("doc.txt", 1), &snap);
    assert_eq!(d, Decision { verdict: Verdict::Allow, token: None });
}

#[test]
fn higher_priority_wins_in_either_order() {
    let low = path_rule("*", Action::Allow, 1);
    let high = path_rule("*.lockme", Action::Block, 10);
    let a = snapshot(vec![low.clone(), high.clone()]);
    let b = snapshot(vec![high, low]);
    let target = op("doc.lockme", 1);
    assert_eq!(decide(&target, &a).verdict, Verdict::Block);
    assert_eq!(decide(&target, &b).verdict, Verdict::Block);
    let other = op("doc.txt", 1);
    assert_eq!(decide(&other, &a).verdict, Verdict::Allow);
    assert_eq!(decide(&other, &b).verdict, Verdict::Allow);
}

#[test]
fn higher_priority_allow_overrides_block() {
    let snap = snapshot(vec![
        path_rule("*.lockme", Action::Block, 10),
        PolicyRule { pattern: Pattern::Process(77), action: Action::Allow, priority: 20 },
    ]);
    assert_eq!(decide(&op("doc.lockme", 77), &snap).verdict, Verdict::Allow);
    assert_eq!(decide(&op("doc.lockme", 78), &snap).verdict, Verdict::Block);
}

#[test]
fn decide_is_repeatable() {
    let snap = snapshot(vec![
        path_rule("*.lockme", Action::Block, 10),
        path_rule("*.tmp", Action::Delay(250), 5),
    ]);
    for name in ["doc.lockme", "a.tmp", "plain"] {
        let target = op(name, 3);
        let first = decide(&target, &snap);
        let second = decide(&target, &snap);
        assert_eq!(first, second);
    }
}

#[test]
fn delay_carries_a_token() {
    let snap = PolicySnapshot::build(
        9,
        vec![path_rule("*.txt", Action::Allow, 8), path_rule("*.tmp", Action::Delay(250), 5)],
    )
    .unwrap();
    let d = decide(&op("a.tmp", 3), &snap);
    assert_eq!(d.verdict, Verdict::Delay(250));
    assert_eq!(d.token, Some(ReevalToken { version: 9, rule: 1, round: 1 }));
    let allowed = decide(&op("a.txt", 3), &snap);
    assert_eq!(allowed.token, None);
}

#[test]
fn reevaluation_counts_rounds() {
    let snap = snapshot(vec![path_rule("*.tmp", Action::Delay(250), 5)]);
    let first = decide(&op("a.tmp", 3), &snap);
    let token = first.token.unwrap();
    let second = reevaluate(&op("a.tmp", 3), &snap, token);
    assert_eq!(second.verdict, Verdict::Delay(250));
    assert_eq!(second.token, Some(ReevalToken { version: 1, rule: 0, round: 2 }));
    let last = ReevalToken { version: 1, rule: 0, round: u32::MAX };
    assert_eq!(reevaluate(&op("a.tmp", 3), &snap, last).token.unwrap().round, u32::MAX);
}

#[test]
fn reevaluation_sees_the_new_policy() {
    let old = snapshot(vec![path_rule("*.tmp", Action::Delay(250), 5)]);
    let token = decide(&op("a.tmp", 3), &old).token.unwrap();
    let new = PolicySnapshot::build(2, vec![path_rule("*.tmp", Action::Block, 5)]).unwrap();
    let d = reevaluate(&op("a.tmp", 3), &new, token);
    assert_eq!(d, Decision { verdict: Verdict::Block, token: None });
}
