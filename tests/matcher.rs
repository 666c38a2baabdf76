use forge_test_cmd::matcher::{Filter, Pattern};

fn pat(s: &str) -> Option<Pattern> {
    Some(Pattern::new(s).unwrap())
}

#[test]
fn empty_filter_matches_everything() {
    let f = Filter::new(None, None, None, None, None);
    for name in ["", "testFoo", "Anything", "x y z"] {
        assert!(f.matches_test(name));
        assert!(f.matches_contract(name));
    }
}

#[test]
fn test_exclude_only() {
    let f = Filter::new(None, None, pat("Fail"), None, None);
    assert!(!f.matches_test("testFailDeposit"));
    assert!(f.matches_test("testDeposit"));
    assert!(f.matches_contract("FailContract"));
}

#[test]
fn contract_exclude_only() {
    let f = Filter::new(None, None, None, None, pat("^Mock"));
    assert!(!f.matches_contract("MockToken"));
    assert!(f.matches_contract("TokenMock"));
    assert!(f.matches_test("Mock"));
}

#[test]
fn legacy_and_test_patterns_combine_conjunctively() {
    let f = Filter::new(pat("^test"), pat("Deposit"), pat("Large"), None, None);
    assert!(f.matches_test("testDeposit"));
    assert!(!f.matches_test("testWithdraw"));
    assert!(!f.matches_test("checkDeposit"));
    assert!(!f.matches_test("testDepositLarge"));
}

#[test]
fn contract_include_and_exclude() {
    let f = Filter::new(None, None, None, pat("Token"), pat("Mock"));
    assert!(f.matches_contract("TokenTest"));
    assert!(!f.matches_contract("MockTokenTest"));
    assert!(!f.matches_contract("VaultTest"));
    assert!(f.matches_test("anything"));
}

#[test]
fn pattern_keeps_source_and_matches_substrings() {
    let p = Pattern::new("a+b").unwrap();
    assert_eq!(p.as_str(), "a+b");
    assert!(p.is_match("xxaaabyy"));
    assert!(!p.is_match("ba"));
}

#[test]
fn invalid_pattern_is_refused() {
    let e = Pattern::new("(unclosed").err().unwrap();
    assert_eq!(e.pattern, "(unclosed");
}
