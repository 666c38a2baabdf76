use forge_test_cmd::decimal::to_decimal;
use forge_test_cmd::outcome::{TestOutcome, TestVerdict};
use forge_test_cmd::report::{
    header_line, render_plan, render_report, status_tag, status_text, ReportLine, RenderPlan, TraceSelection,
};

fn verdict(success: bool) -> TestVerdict {
    TestVerdict {
        success,
        gas_used: 100,
        gas_display: "100".to_string(),
        logs: vec![],
        reason: None,
        counterexample: None,
        trace_len: None,
        has_identified_contracts: false,
    }
}

fn with_reason(reason: Option<&str>, cex: Option<&str>) -> TestVerdict {
    let mut v = verdict(false);
    v.reason = reason.map(|s| s.to_string());
    v.counterexample = cex.map(|s| s.to_string());
    v
}

#[test]
fn status_with_reason_and_counterexample() {
    let v = with_reason(Some("revert"), Some("x=0"));
    assert_eq!(status_text(&v), "FAIL. Reason: revert. Counterexample: x=0");
    assert_eq!(status_tag(&v), "[FAIL. Reason: revert. Counterexample: x=0]");
}

#[test]
fn status_without_detail() {
    assert_eq!(status_text(&with_reason(None, None)), "FAIL");
}

#[test]
fn status_with_one_detail() {
    assert_eq!(status_text(&with_reason(Some("overflow"), None)), "FAIL. Reason: overflow");
    assert_eq!(status_text(&with_reason(None, Some("a=1"))), "FAIL. Counterexample: a=1");
}

#[test]
fn status_of_pass_ignores_detail() {
    let mut v = with_reason(Some("r"), Some("c"));
    v.success = true;
    assert_eq!(status_text(&v), "PASS");
    assert_eq!(status_tag(&v), "[PASS]");
}

#[test]
fn header_singular_and_plural() {
    assert_eq!(header_line(1, "Token"), "Running 1 test for Token");
    assert_eq!(header_line(2, "Token"), "Running 2 tests for Token");
    assert_eq!(header_line(12, "Vault"), "Running 12 tests for Vault");
}

#[test]
fn decimal_rendering() {
    assert_eq!(to_decimal(0), "0");
    assert_eq!(to_decimal(7), "7");
    assert_eq!(to_decimal(10), "10");
    assert_eq!(to_decimal(u64::MAX), "18446744073709551615");
}

fn plan(show_logs: bool, blank: bool, traces: TraceSelection, trailing: bool) -> RenderPlan {
    RenderPlan { show_logs, blank_before_traces: blank, traces, trailing_blank: trailing }
}

#[test]
fn tier_three_failure_shows_all_traces() {
    assert_eq!(render_plan(3, false, false, Some(3), true), plan(false, false, TraceSelection::All, true));
    assert_eq!(render_plan(3, false, true, Some(3), true), plan(true, true, TraceSelection::All, true));
}

#[test]
fn tier_three_pass_shows_no_trace() {
    assert_eq!(render_plan(3, true, false, Some(3), true), plan(false, false, TraceSelection::Hidden, false));
}

#[test]
fn tier_four_pass_shows_last_trace() {
    assert_eq!(render_plan(4, true, false, Some(3), true), plan(false, false, TraceSelection::Last, true));
    assert_eq!(render_plan(4, true, true, Some(0), true), plan(true, false, TraceSelection::Hidden, true));
    assert_eq!(render_plan(4, true, true, Some(2), true), plan(true, true, TraceSelection::Last, true));
    assert_eq!(render_plan(5, true, false, Some(3), true), plan(false, false, TraceSelection::All, true));
}

#[test]
fn traces_need_identified_contracts() {
    assert_eq!(render_plan(5, false, false, Some(3), false), plan(false, false, TraceSelection::Hidden, false));
    assert_eq!(render_plan(5, false, false, None, true), plan(false, false, TraceSelection::Hidden, false));
}

#[test]
fn tier_one_is_quiet() {
    for success in [true, false] {
        assert_eq!(render_plan(1, success, true, Some(2), true), plan(false, false, TraceSelection::Hidden, false));
    }
}

#[test]
fn tier_two_shows_logs_only() {
    assert_eq!(render_plan(2, false, true, Some(2), true), plan(true, false, TraceSelection::Hidden, true));
}

fn describe(lines: &[ReportLine]) -> Vec<String> {
    lines
        .iter()
        .map(|l| match l {
            ReportLine::Blank => String::new(),
            ReportLine::Text(t) => t.clone(),
            ReportLine::Status { passed, tag, rest } => format!("{}{} {}", if *passed { "+" } else { "-" }, tag, rest),
            ReportLine::Traces { contract, test, last_only } => format!("<trace {} {} {}>", contract, test, last_only),
        })
        .collect()
}

#[test]
fn report_at_tier_three() {
    let mut failing = with_reason(Some("revert"), None);
    failing.logs = vec!["hello".to_string()];
    failing.trace_len = Some(2);
    failing.has_identified_contracts = true;
    failing.gas_display = "(gas: 2500)".to_string();
    let mut passing = verdict(true);
    passing.trace_len = Some(2);
    passing.has_identified_contracts = true;
    let o = TestOutcome::new(
        vec![
            ("A".to_string(), vec![("testA".to_string(), passing)]),
            ("B".to_string(), vec![]),
            ("C".to_string(), vec![("testB".to_string(), failing), ("testC".to_string(), verdict(true))]),
        ],
        false,
    )
    .unwrap();
    let lines = render_report(&o, 3);
    assert_eq!(
        describe(&lines),
        vec![
            "Running 1 test for A",
            "+[PASS] testA 100",
            "",
            "",
            "Running 2 tests for C",
            "-[FAIL. Reason: revert] testB (gas: 2500)",
            "Logs:",
            "  hello",
            "",
            "Traces:",
            "<trace 2 0 false>",
            "",
            "+[PASS] testC 100",
        ]
    );
}

#[test]
fn report_at_tier_one_has_no_diagnostics() {
    let mut failing = with_reason(None, None);
    failing.logs = vec!["a".to_string()];
    failing.trace_len = Some(1);
    failing.has_identified_contracts = true;
    let o = TestOutcome::new(vec![("A".to_string(), vec![("t".to_string(), failing)])], false).unwrap();
    assert_eq!(describe(&render_report(&o, 1)), vec!["Running 1 test for A", "-[FAIL] t 100"]);
}
