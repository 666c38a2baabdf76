use forge_test_cmd::outcome::{name_less, OutcomeError, Test, TestOutcome, TestVerdict};

fn verdict(success: bool, gas: u64) -> TestVerdict {
    TestVerdict {
        success,
        gas_used: gas,
        gas_display: gas.to_string(),
        logs: vec![],
        reason: None,
        counterexample: None,
        trace_len: None,
        has_identified_contracts: false,
    }
}

fn sample(allow_failure: bool) -> TestOutcome {
    TestOutcome::new(
        vec![
            (
                "A".to_string(),
                vec![("testOne".to_string(), verdict(true, 10)), ("testTwo".to_string(), verdict(false, 20))],
            ),
            ("B".to_string(), vec![]),
            (
                "C".to_string(),
                vec![("testFour".to_string(), verdict(true, 40)), ("testThree".to_string(), verdict(false, 30))],
            ),
        ],
        allow_failure,
    )
    .unwrap()
}

fn names(v: &[(&String, &TestVerdict)]) -> Vec<String> {
    v.iter().map(|(n, _)| n.to_string()).collect()
}

#[test]
fn tests_are_flattened_in_order() {
    let o = sample(false);
    assert_eq!(names(&o.tests()), vec!["testOne", "testTwo", "testFour", "testThree"]);
}

#[test]
fn successes_and_failures_partition_tests() {
    let o = sample(false);
    let s = o.successes();
    let f = o.failures();
    assert_eq!(names(&s), vec!["testOne", "testFour"]);
    assert_eq!(names(&f), vec!["testTwo", "testThree"]);
    assert_eq!(s.len() + f.len(), o.tests().len());
    assert!(s.iter().all(|(_, v)| v.success));
    assert!(f.iter().all(|(_, v)| !v.success));
}

#[test]
fn ensure_ok_reports_counts_when_failures_disallowed() {
    let o = sample(false);
    match o.ensure_ok() {
        Err(e @ OutcomeError::TestsFailed { failed: 2, succeeded: 2 }) => {
            assert_eq!(e.message(), "Encountered a total of 2 failing tests, 2 tests succeeded");
        }
        _ => panic!("expected a policy failure"),
    }
}

#[test]
fn ensure_ok_succeeds_when_failures_allowed() {
    let o = sample(true);
    assert!(o.allows_failure());
    assert!(o.ensure_ok().is_ok());
}

#[test]
fn ensure_ok_succeeds_without_failures() {
    let o = TestOutcome::new(vec![("A".to_string(), vec![("t".to_string(), verdict(true, 1))])], false).unwrap();
    assert!(o.ensure_ok().is_ok());
    let empty = TestOutcome::new(vec![], false).unwrap();
    assert!(empty.ensure_ok().is_ok());
}

#[test]
fn into_tests_keeps_signatures_and_gas() {
    let tests: Vec<Test> = sample(false).into_tests();
    let sigs: Vec<&str> = tests.iter().map(|t| t.signature.as_str()).collect();
    assert_eq!(sigs, vec!["testOne", "testTwo", "testFour", "testThree"]);
    let gas: Vec<u64> = tests.iter().map(|t| t.gas_used()).collect();
    assert_eq!(gas, vec![10, 20, 40, 30]);
}

#[test]
fn duplicate_names_are_refused() {
    let dup_contract = TestOutcome::new(vec![("A".to_string(), vec![]), ("A".to_string(), vec![])], false);
    assert!(dup_contract.is_none());
    let dup_test = TestOutcome::new(
        vec![("A".to_string(), vec![("t".to_string(), verdict(true, 1)), ("t".to_string(), verdict(false, 2))])],
        false,
    );
    assert!(dup_test.is_none());
    let same_test_two_contracts = TestOutcome::new(
        vec![
            ("A".to_string(), vec![("t".to_string(), verdict(true, 1))]),
            ("B".to_string(), vec![("t".to_string(), verdict(true, 1))]),
        ],
        false,
    );
    assert!(same_test_two_contracts.is_some());
}

#[test]
fn failure_message_of_large_counts() {
    let e = OutcomeError::TestsFailed { failed: 120, succeeded: 0 };
    assert_eq!(e.message(), "Encountered a total of 120 failing tests, 0 tests succeeded");
}

#[test]
fn unsorted_names_are_refused() {
    let contracts_descending = TestOutcome::new(vec![("B".to_string(), vec![]), ("A".to_string(), vec![])], false);
    assert!(contracts_descending.is_none());
    let tests_descending = TestOutcome::new(
        vec![("A".to_string(), vec![("testB".to_string(), verdict(true, 1)), ("testA".to_string(), verdict(true, 1))])],
        false,
    );
    assert!(tests_descending.is_none());
    let ascending = TestOutcome::new(
        vec![
            ("A".to_string(), vec![("testA".to_string(), verdict(true, 1)), ("testB".to_string(), verdict(false, 2))]),
            ("B".to_string(), vec![("testA".to_string(), verdict(true, 3))]),
        ],
        false,
    )
    .unwrap();
    let order: Vec<(String, u64)> = ascending.tests().iter().map(|(n, v)| (n.to_string(), v.gas_used)).collect();
    assert_eq!(order, vec![("testA".to_string(), 1), ("testB".to_string(), 2), ("testA".to_string(), 3)]);
    let contracts: Vec<&str> = ascending.contracts().iter().map(|(c, _)| c.as_str()).collect();
    assert_eq!(contracts, vec!["A", "B"]);
}

#[test]
fn name_order_is_by_code_point_with_prefix_first() {
    assert!(name_less("A", "B"));
    assert!(!name_less("B", "A"));
    assert!(name_less("B", "a"));
    assert!(name_less("test", "testA"));
    assert!(!name_less("testA", "test"));
    assert!(!name_less("same", "same"));
    assert!(name_less("", "x"));
    assert!(!name_less("", ""));
    assert!(name_less("z", "\u{e9}"));
    assert!(name_less("testFour", "testThree"));
}
