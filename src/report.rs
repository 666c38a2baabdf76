//! Human-readable rendering of an outcome, gated by a verbosity tier.

use vstd::prelude::*;
use crate::decimal::{decimal, push_decimal};
use crate::outcome::{outcome_keys_sorted, ContractTests, TestOutcome, TestVerdict};

verus! {

/// The status text of a verdict, without its surrounding brackets.
pub open spec fn status_text_of(v: TestVerdict) -> Seq<char> {
    if v.success {
        "PASS"@
    } else {
        match (v.reason, v.counterexample) {
            (Some(r), Some(c)) => "FAIL. Reason: "@ + r@ + ". Counterexample: "@ + c@,
            (None, Some(c)) => "FAIL. Counterexample: "@ + c@,
            (Some(r), None) => "FAIL. Reason: "@ + r@,
            (None, None) => "FAIL"@,
        }
    }
}

/// The bracketed status tag that opens a test's line.
pub open spec fn status_tag_of(v: TestVerdict) -> Seq<char> {
    "["@ + status_text_of(v) + "]"@
}

/// The header of a contract with `n` tests.
pub open spec fn header_text(n: nat, name: Seq<char>) -> Seq<char> {
    "Running "@ + decimal(n) + (if n > 1 {
        " tests for "@
    } else {
        " test for "@
    }) + name
}

/// Which entries of a test's execution trace are shown.
#[derive(PartialEq, Eq, Structural, Clone, Copy, Debug)]
pub enum TraceSelection {
    Hidden,
    All,
    Last,
}

/// What to print below a test's status line.
#[derive(PartialEq, Eq, Structural, Clone, Copy, Debug)]
pub struct RenderPlan {
    /// Print the "Logs:" section.
    pub show_logs: bool,
    /// Print a blank line between the printed logs and the "Traces:" header.
    pub blank_before_traces: bool,
    /// Which trace entries go under a "Traces:" header.
    pub traces: TraceSelection,
    /// Print a blank line after the test's block.
    pub trailing_blank: bool,
}

/// Whether the trace step is taken at all.
pub open spec fn trace_step(tier: nat, success: bool, trace_len: Option<usize>, identified: bool) -> bool {
    tier > 2 && trace_len is Some && identified && ((!success && tier == 3) || tier > 3)
}

pub open spec fn plan_of(
    tier: nat,
    success: bool,
    has_logs: bool,
    trace_len: Option<usize>,
    identified: bool,
) -> RenderPlan {
    let show_logs = tier > 1 && has_logs;
    let step = trace_step(tier, success, trace_len, identified);
    let traces = if !step {
        TraceSelection::Hidden
    } else if tier > 4 || !success {
        TraceSelection::All
    } else if trace_len->Some_0 > 0 {
        TraceSelection::Last
    } else {
        TraceSelection::Hidden
    };
    RenderPlan {
        show_logs,
        blank_before_traces: show_logs && traces != TraceSelection::Hidden,
        traces,
        trailing_blank: show_logs || traces != TraceSelection::Hidden,
    }
}

pub open spec fn plan_for(v: TestVerdict, tier: nat) -> RenderPlan {
    plan_of(tier, v.success, v.logs@.len() > 0, v.trace_len, v.has_identified_contracts)
}

/// Decides which diagnostic sections follow a test's status line.
pub fn render_plan(
    tier: u8,
    success: bool,
    has_logs: bool,
    trace_len: Option<usize>,
    identified: bool,
) -> (r: RenderPlan)
    ensures
        r == plan_of(tier as nat, success, has_logs, trace_len, identified),
{
    let show_logs = tier > 1 && has_logs;
    let step = tier > 2 && trace_len.is_some() && identified && ((!success && tier == 3) || tier
        > 3);
    let traces = if !step {
        TraceSelection::Hidden
    } else if tier > 4 || !success {
        TraceSelection::All
    } else if trace_len.unwrap() > 0 {
        TraceSelection::Last
    } else {
        TraceSelection::Hidden
    };
    let shows_traces = match traces {
        TraceSelection::Hidden => false,
        _ => true,
    };
    RenderPlan {
        show_logs,
        blank_before_traces: show_logs && shows_traces,
        traces,
        trailing_blank: show_logs || shows_traces,
    }
}

/// The status text of a verdict, without brackets.
pub fn status_text(v: &TestVerdict) -> (r: String)
    ensures
        r@ == status_text_of(*v),
{
    if v.success {
        return String::from_str("PASS");
    }
    match (&v.reason, &v.counterexample) {
        (Some(reason), Some(counterexample)) => {
            let mut s = String::from_str("FAIL. Reason: ");
            s.append(reason.as_str());
            s.append(". Counterexample: ");
            s.append(counterexample.as_str());
            assert(s@ =~= status_text_of(*v));
            s
        },
        (None, Some(counterexample)) => {
            let mut s = String::from_str("FAIL. Counterexample: ");
            s.append(counterexample.as_str());
            s
        },
        (Some(reason), None) => {
            let mut s = String::from_str("FAIL. Reason: ");
            s.append(reason.as_str());
            s
        },
        (None, None) => String::from_str("FAIL"),
    }
}

/// The status text in brackets.
pub fn status_tag(v: &TestVerdict) -> (r: String)
    ensures
        r@ == status_tag_of(*v),
{
    let mut s = String::from_str("[");
    let text = status_text(v);
    s.append(text.as_str());
    s.append("]");
    assert(s@ =~= status_tag_of(*v));
    s
}

/// "Running N test(s) for NAME", singular for one test.
pub fn header_line(count: usize, contract_name: &str) -> (r: String)
    ensures
        r@ == header_text(count as nat, contract_name@),
{
    let mut s = String::from_str("Running ");
    push_decimal(&mut s, count as u64);
    if count > 1 {
        s.append(" tests for ");
    } else {
        s.append(" test for ");
    }
    s.append(contract_name);
    assert(s@ =~= header_text(count as nat, contract_name@));
    s
}

/// One line of human-readable output.
#[derive(Debug)]
pub enum ReportLine {
    /// An empty line.
    Blank,
    /// A plain line of text.
    Text(String),
    /// A test's status line: the tag, emphasized as positive when the test
    /// passed and as negative otherwise, then the rest of the line.
    Status { passed: bool, tag: String, rest: String },
    /// The trace of the `test`-th test of the `contract`-th contract: all of
    /// its entries, or only the last one.
    Traces { contract: usize, test: usize, last_only: bool },
}

/// A line of output over mathematical values.
pub enum LineView {
    Blank,
    Text(Seq<char>),
    Status { passed: bool, tag: Seq<char>, rest: Seq<char> },
    Traces { contract: nat, test: nat, last_only: bool },
}

impl View for ReportLine {
    type V = LineView;

    open spec fn view(&self) -> LineView {
        match self {
            ReportLine::Blank => LineView::Blank,
            ReportLine::Text(t) => LineView::Text(t@),
            ReportLine::Status { passed, tag, rest } => LineView::Status {
                passed: *passed,
                tag: tag@,
                rest: rest@,
            },
            ReportLine::Traces { contract, test, last_only } => LineView::Traces {
                contract: *contract as nat,
                test: *test as nat,
                last_only: *last_only,
            },
        }
    }
}

pub open spec fn lines_view(s: Seq<ReportLine>) -> Seq<LineView> {
    s.map_values(|l: ReportLine| l@)
}

/// The indented log lines.
pub open spec fn log_lines(logs: Seq<String>) -> Seq<LineView> {
    logs.map_values(|l: String| LineView::Text("  "@ + l@))
}

/// The lines of the `ti`-th test of the `ci`-th contract.
pub open spec fn test_lines(ci: nat, ti: nat, name: Seq<char>, v: TestVerdict, tier: nat) -> Seq<
    LineView,
> {
    let plan = plan_for(v, tier);
    seq![LineView::Status { passed: v.success, tag: status_tag_of(v), rest: name + " "@ + v.gas_display@ }]
        + (if plan.show_logs {
        seq![LineView::Text("Logs:"@)] + log_lines(v.logs@)
    } else {
        Seq::empty()
    }) + (if plan.blank_before_traces {
        seq![LineView::Blank]
    } else {
        Seq::empty()
    }) + (match plan.traces {
        TraceSelection::Hidden => Seq::empty(),
        TraceSelection::All => seq![
            LineView::Text("Traces:"@),
            LineView::Traces { contract: ci, test: ti, last_only: false },
        ],
        TraceSelection::Last => seq![
            LineView::Text("Traces:"@),
            LineView::Traces { contract: ci, test: ti, last_only: true },
        ],
    }) + (if plan.trailing_blank {
        seq![LineView::Blank]
    } else {
        Seq::empty()
    })
}

/// The lines of the tests of the `ci`-th contract, in order.
pub open spec fn tests_lines(ci: nat, tests: Seq<(String, TestVerdict)>, tier: nat) -> Seq<LineView>
    decreases tests.len(),
{
    if tests.len() == 0 {
        Seq::empty()
    } else {
        let k = (tests.len() - 1) as nat;
        tests_lines(ci, tests.drop_last(), tier) + test_lines(ci, k, tests[k as int].0@, tests[k as int].1, tier)
    }
}

/// The lines of the `ci`-th contract: a separating blank line after the
/// first contract, a header when it has tests, then its tests.
pub open spec fn contract_lines(ci: nat, name: Seq<char>, tests: Seq<(String, TestVerdict)>, tier: nat) -> Seq<LineView> {
    (if ci > 0 {
        seq![LineView::Blank]
    } else {
        Seq::empty()
    }) + (if tests.len() > 0 {
        seq![LineView::Text(header_text(tests.len(), name))]
    } else {
        Seq::empty()
    }) + tests_lines(ci, tests, tier)
}

/// The lines of all contracts, in order.
pub open spec fn report_lines(contracts: Seq<(String, ContractTests)>, tier: nat) -> Seq<LineView>
    decreases contracts.len(),
{
    if contracts.len() == 0 {
        Seq::empty()
    } else {
        let k = (contracts.len() - 1) as nat;
        report_lines(contracts.drop_last(), tier) + contract_lines(k, contracts[k as int].0@, contracts[k as int].1@, tier)
    }
}

fn push_line(out: &mut Vec<ReportLine>, line: ReportLine)
    ensures
        lines_view(final(out)@) == lines_view(old(out)@).push(line@),
{
    out.push(line);
    assert(lines_view(final(out)@) =~= lines_view(old(out)@).push(line@));
}

fn push_text(out: &mut Vec<ReportLine>, text: &str)
    ensures
        lines_view(final(out)@) == lines_view(old(out)@).push(LineView::Text(text@)),
{
    push_line(out, ReportLine::Text(String::from_str(text)));
}

/// Appends the lines of one test.
fn render_test(out: &mut Vec<ReportLine>, ci: usize, ti: usize, name: &String, v: &TestVerdict, tier: u8)
    ensures
        lines_view(final(out)@) == lines_view(old(out)@) + test_lines(ci as nat, ti as nat, name@, *v, tier as nat),
{
    let ghost start = lines_view(out@);
    let plan = render_plan(tier, v.success, v.logs.len() > 0, v.trace_len, v.has_identified_contracts);
    let mut rest = name.clone();
    rest.append(" ");
    rest.append(v.gas_display.as_str());
    let tag = status_tag(v);
    push_line(out, ReportLine::Status { passed: v.success, tag, rest });
    let ghost after_status = lines_view(out@);
    if plan.show_logs {
        push_text(out, "Logs:");
        let ghost base = lines_view(out@);
        let mut i: usize = 0;
        while i < v.logs.len()
            invariant
                0 <= i <= v.logs@.len(),
                lines_view(out@) == base + log_lines(v.logs@.subrange(0, i as int)),
            decreases v.logs@.len() - i,
        {
            let mut line = String::from_str("  ");
            line.append(v.logs[i].as_str());
            push_line(out, ReportLine::Text(line));
            assert(log_lines(v.logs@.subrange(0, i + 1)) =~= log_lines(v.logs@.subrange(0, i as int)).push(LineView::Text("  "@ + v.logs@[i as int]@)));
            i += 1;
        }
        assert(v.logs@.subrange(0, i as int) =~= v.logs@);
    }
    let ghost after_logs = lines_view(out@);
    if plan.blank_before_traces {
        push_line(out, ReportLine::Blank);
    }
    let ghost after_blank = lines_view(out@);
    match plan.traces {
        TraceSelection::Hidden => {},
        TraceSelection::All => {
            push_text(out, "Traces:");
            push_line(out, ReportLine::Traces { contract: ci, test: ti, last_only: false });
        },
        TraceSelection::Last => {
            push_text(out, "Traces:");
            push_line(out, ReportLine::Traces { contract: ci, test: ti, last_only: true });
        },
    }
    let ghost after_traces = lines_view(out@);
    if plan.trailing_blank {
        push_line(out, ReportLine::Blank);
    }
    assert(lines_view(out@) =~= start + test_lines(ci as nat, ti as nat, name@, *v, tier as nat));
}

/// Appends the lines of the `ci`-th contract.
fn render_contract(out: &mut Vec<ReportLine>, ci: usize, name: &String, tests: &ContractTests, tier: u8)
    ensures
        lines_view(final(out)@) == lines_view(old(out)@) + contract_lines(ci as nat, name@, tests@, tier as nat),
{
    let ghost start = lines_view(out@);
    if ci > 0 {
        push_line(out, ReportLine::Blank);
    }
    if tests.len() > 0 {
        let header = header_line(tests.len(), name.as_str());
        push_line(out, ReportLine::Text(header));
    }
    let ghost base = lines_view(out@);
    let mut j: usize = 0;
    while j < tests.len()
        invariant
            0 <= j <= tests@.len(),
            lines_view(out@) == base + tests_lines(ci as nat, tests@.subrange(0, j as int), tier as nat),
        decreases tests@.len() - j,
    {
        let pair = &tests[j];
        render_test(out, ci, j, &pair.0, &pair.1, tier);
        assert(tests@.subrange(0, j + 1).drop_last() =~= tests@.subrange(0, j as int));
        j += 1;
    }
    assert(tests@.subrange(0, j as int) =~= tests@);
    assert(lines_view(out@) =~= start + contract_lines(ci as nat, name@, tests@, tier as nat));
}

/// The human-readable report of `outcome` at verbosity `tier`.
pub fn render_report(outcome: &TestOutcome, tier: u8) -> (r: Vec<ReportLine>)
    ensures
        lines_view(r@) == report_lines(outcome.results(), tier as nat),
        outcome_keys_sorted(outcome.results()),
{
    let contracts = outcome.contracts();
    let mut out: Vec<ReportLine> = Vec::new();
    let mut i: usize = 0;
    assert(lines_view(out@) =~= Seq::empty());
    while i < contracts.len()
        invariant
            0 <= i <= contracts@.len(),
            contracts@ == outcome.results(),
            lines_view(out@) == report_lines(contracts@.subrange(0, i as int), tier as nat),
        decreases contracts@.len() - i,
    {
        let entry = &contracts[i];
        render_contract(&mut out, i, &entry.0, &entry.1, tier);
        assert(contracts@.subrange(0, i + 1).drop_last() =~= contracts@.subrange(0, i as int));
        i += 1;
    }
    assert(contracts@.subrange(0, i as int) =~= contracts@);
    out
}

/// At verbosity tier 1 a test prints neither logs nor traces, whatever its
/// outcome: its lines are its status line alone.
pub proof fn lemma_tier_one_is_quiet(ci: nat, ti: nat, name: Seq<char>, v: TestVerdict)
    ensures
        !plan_for(v, 1).show_logs,
        plan_for(v, 1).traces == TraceSelection::Hidden,
        test_lines(ci, ti, name, v, 1) == seq![
            LineView::Status { passed: v.success, tag: status_tag_of(v), rest: name + " "@ + v.gas_display@ },
        ],
{
    assert(test_lines(ci, ti, name, v, 1) =~= seq![
        LineView::Status { passed: v.success, tag: status_tag_of(v), rest: name + " "@ + v.gas_display@ },
    ]);
}

/// At verbosity tier 3 a failing test with a trace and resolved contract
/// names prints all of its trace entries.
pub proof fn lemma_tier_three_failure_shows_whole_trace(v: TestVerdict)
    requires
        !v.success,
        v.trace_len is Some,
        v.has_identified_contracts,
    ensures
        plan_for(v, 3).traces == TraceSelection::All,
{
}

/// At verbosity tier 4 a passing test with a non-empty trace and resolved
/// contract names prints only the last trace entry.
pub proof fn lemma_tier_four_pass_shows_last_trace_entry(v: TestVerdict)
    requires
        v.success,
        v.trace_len matches Some(n) && n > 0,
        v.has_identified_contracts,
    ensures
        plan_for(v, 4).traces == TraceSelection::Last,
{
}

/// A contract header says "test" for exactly one test and "tests" for two or more.
pub proof fn lemma_header_number(n: nat, name: Seq<char>)
    ensures
        n == 1 ==> header_text(n, name) == "Running 1 test for "@ + name,
        n >= 2 ==> header_text(n, name) == "Running "@ + decimal(n) + " tests for "@ + name,
{
    reveal_strlit("Running 1 test for ");
    reveal_strlit("Running ");
    reveal_strlit(" test for ");
    if n == 1 {
        assert(decimal(1) == seq!['1']);
        assert(header_text(n, name) =~= "Running 1 test for "@ + name);
    }
}

} // verus!
