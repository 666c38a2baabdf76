//! The aggregate of all per-contract, per-test verdicts of one run.

use vstd::prelude::*;
use vstd::multiset::Multiset;
use crate::decimal::{decimal, push_decimal};

verus! {

broadcast use vstd::seq_lib::group_filter_ensures;

/// One execution result of one test.
pub struct TestVerdict {
    /// Whether the test passed.
    pub success: bool,
    /// Gas used by the test.
    pub gas_used: u64,
    /// The gas figure shown on the status line, as the verdict's kind renders it.
    pub gas_display: String,
    /// Log lines, in order.
    pub logs: Vec<String>,
    /// Why the test failed, when known.
    pub reason: Option<String>,
    /// The input that made a randomized test fail.
    pub counterexample: Option<String>,
    /// The number of recorded execution-trace entries, when a trace was kept.
    pub trace_len: Option<usize>,
    /// Whether the addresses of the trace were resolved to contract names.
    pub has_identified_contracts: bool,
}

/// The result of a single test, with its signature.
pub struct Test {
    /// The signature of the test.
    pub signature: String,
    /// The verdict of the test.
    pub result: TestVerdict,
}

impl Test {
    pub fn gas_used(&self) -> (r: u64)
        ensures
            r == self.result.gas_used,
    {
        self.result.gas_used
    }
}

/// The tests of one contract: (test name, verdict) pairs.
pub type ContractTests = Vec<(String, TestVerdict)>;

/// All verdicts of a run, contract by contract, with the failure policy.
pub struct TestOutcome {
    allow_failure: bool,
    results: Vec<(String, ContractTests)>,
}

/// The tests of every contract, one after the other.
pub open spec fn flatten(c: Seq<(String, ContractTests)>) -> Seq<(String, TestVerdict)>
    decreases c.len(),
{
    if c.len() == 0 {
        Seq::empty()
    } else {
        flatten(c.drop_last()) + c.last().1@
    }
}

pub open spec fn passed(t: (String, TestVerdict)) -> bool {
    t.1.success
}

pub open spec fn failed(t: (String, TestVerdict)) -> bool {
    !t.1.success
}

/// The passing tests of `s`, in order.
pub open spec fn successes_of(s: Seq<(String, TestVerdict)>) -> Seq<(String, TestVerdict)> {
    s.filter(|t: (String, TestVerdict)| passed(t))
}

/// The failing tests of `s`, in order.
pub open spec fn failures_of(s: Seq<(String, TestVerdict)>) -> Seq<(String, TestVerdict)> {
    s.filter(|t: (String, TestVerdict)| failed(t))
}

/// `a` comes strictly before `b` when their characters are compared one by
/// one by code point, a proper prefix coming first.
pub open spec fn name_lt(a: Seq<char>, b: Seq<char>) -> bool
    decreases a.len(),
{
    if b.len() == 0 {
        false
    } else if a.len() == 0 {
        true
    } else if a[0] != b[0] {
        (a[0] as u32) < (b[0] as u32)
    } else {
        name_lt(a.drop_first(), b.drop_first())
    }
}

/// The names of `s` are strictly ascending.
pub open spec fn names_ascending<T>(s: Seq<(String, T)>) -> bool {
    forall|i: int, j: int| 0 <= i < j < s.len() ==> name_lt(#[trigger] s[i].0@, #[trigger] s[j].0@)
}

/// Contract names are strictly ascending, and so are test names within each contract.
pub open spec fn outcome_keys_sorted(c: Seq<(String, ContractTests)>) -> bool {
    names_ascending(c) && forall|k: int| 0 <= k < c.len() ==> names_ascending(#[trigger] c[k].1@)
}

proof fn lemma_name_lt_transitive(a: Seq<char>, b: Seq<char>, c: Seq<char>)
    requires
        name_lt(a, b),
        name_lt(b, c),
    ensures
        name_lt(a, c),
    decreases a.len(),
{
    if a.len() > 0 && a[0] == b[0] && b[0] == c[0] {
        lemma_name_lt_transitive(a.drop_first(), b.drop_first(), c.drop_first());
    }
}

/// No name comes before itself.
pub proof fn lemma_name_lt_irreflexive(a: Seq<char>)
    ensures
        !name_lt(a, a),
    decreases a.len(),
{
    if a.len() > 0 {
        lemma_name_lt_irreflexive(a.drop_first());
    }
}

/// Strictly ascending names are pairwise distinct.
pub proof fn lemma_ascending_names_distinct<T>(s: Seq<(String, T)>, i: int, j: int)
    requires
        names_ascending(s),
        0 <= i < j < s.len(),
    ensures
        s[i].0@ != s[j].0@,
{
    lemma_name_lt_irreflexive(s[i].0@);
}

/// The order of an outcome's entries is fixed by the entries themselves: two
/// sequences with strictly ascending names that hold the same entries are
/// equal, whatever order the entries were gathered in. This holds for the
/// contracts of an outcome and for the tests of each contract.
pub proof fn lemma_ascending_order_is_canonical<T>(s1: Seq<(String, T)>, s2: Seq<(String, T)>)
    requires
        names_ascending(s1),
        names_ascending(s2),
        forall|x: (String, T)| s1.contains(x) <==> s2.contains(x),
    ensures
        s1 == s2,
    decreases s1.len(),
{
    if s1.len() == 0 {
        if s2.len() > 0 {
            assert(s2.contains(s2[0]));
        }
        assert(s1 =~= s2);
    } else if s2.len() == 0 {
        assert(s1.contains(s1[0]));
    } else {
        assert(s2.contains(s2[0]));
        assert(s1.contains(s1[0]));
        let k = choose|k: int| 0 <= k < s1.len() && s1[k] == s2[0];
        let m = choose|m: int| 0 <= m < s2.len() && s2[m] == s1[0];
        if k > 0 && m > 0 {
            assert(name_lt(s1[0].0@, s1[k].0@));
            assert(name_lt(s2[0].0@, s2[m].0@));
            lemma_name_lt_transitive(s1[0].0@, s2[0].0@, s1[0].0@);
            lemma_name_lt_irreflexive(s1[0].0@);
        }
        assert(s1[0] == s2[0]);
        let t1 = s1.drop_first();
        let t2 = s2.drop_first();
        assert forall|x: (String, T)| t1.contains(x) implies t2.contains(x) by {
            let i = choose|i: int| 0 <= i < t1.len() && t1[i] == x;
            assert(s1.contains(x));
            let j = choose|j: int| 0 <= j < s2.len() && s2[j] == x;
            if j == 0 {
                lemma_ascending_names_distinct(s1, 0, i + 1);
            }
            assert(t2[j - 1] == x);
        }
        assert forall|x: (String, T)| t2.contains(x) implies t1.contains(x) by {
            let j = choose|j: int| 0 <= j < t2.len() && t2[j] == x;
            assert(s2.contains(x));
            let i = choose|i: int| 0 <= i < s1.len() && s1[i] == x;
            if i == 0 {
                lemma_ascending_names_distinct(s2, 0, j + 1);
            }
            assert(t1[i - 1] == x);
        }
        assert(names_ascending(t1)) by {
            assert forall|i: int, j: int| 0 <= i < j < t1.len() implies name_lt(#[trigger] t1[i].0@, #[trigger] t1[j].0@) by {
                assert(t1[i] == s1[i + 1] && t1[j] == s1[j + 1]);
            }
        }
        assert(names_ascending(t2)) by {
            assert forall|i: int, j: int| 0 <= i < j < t2.len() implies name_lt(#[trigger] t2[i].0@, #[trigger] t2[j].0@) by {
                assert(t2[i] == s2[i + 1] && t2[j] == s2[j + 1]);
            }
        }
        lemma_ascending_order_is_canonical(t1, t2);
        assert(s1 =~= seq![s1[0]] + t1);
        assert(s2 =~= seq![s2[0]] + t2);
    }
}

/// Whether `a` comes strictly before `b`.
pub fn name_less(a: &str, b: &str) -> (r: bool)
    ensures
        r == name_lt(a@, b@),
{
    let la = a.unicode_len();
    let lb = b.unicode_len();
    let mut i: usize = 0;
    assert(a@.subrange(0, la as int) =~= a@);
    assert(b@.subrange(0, lb as int) =~= b@);
    while i < la && i < lb
        invariant
            la == a@.len(),
            lb == b@.len(),
            0 <= i <= la,
            i <= lb,
            name_lt(a@, b@) == name_lt(a@.subrange(i as int, la as int), b@.subrange(i as int, lb as int)),
        decreases la - i,
    {
        let ca = a.get_char(i);
        let cb = b.get_char(i);
        let ghost sa = a@.subrange(i as int, la as int);
        let ghost sb = b@.subrange(i as int, lb as int);
        assert(sa[0] == ca && sb[0] == cb);
        if ca != cb {
            return (ca as u32) < (cb as u32);
        }
        assert(sa.drop_first() =~= a@.subrange(i + 1, la as int));
        assert(sb.drop_first() =~= b@.subrange(i + 1, lb as int));
        i += 1;
    }
    i == la && i < lb
}

fn names_in_order<T>(v: &Vec<(String, T)>) -> (r: bool)
    ensures
        r == names_ascending(v@),
{
    let mut j: usize = 1;
    if v.len() == 0 {
        return true;
    }
    while j < v.len()
        invariant
            1 <= j <= v@.len(),
            forall|a: int, b: int| 0 <= a < b < j ==> name_lt(#[trigger] v@[a].0@, #[trigger] v@[b].0@),
        decreases v@.len() - j,
    {
        if !name_less(v[j - 1].0.as_str(), v[j].0.as_str()) {
            return false;
        }
        assert forall|a: int, b: int| 0 <= a < b < j + 1 implies name_lt(#[trigger] v@[a].0@, #[trigger] v@[b].0@) by {
            if b == j && a < j - 1 {
                lemma_name_lt_transitive(v@[a].0@, v@[j - 1].0@, v@[b].0@);
            }
        }
        j += 1;
    }
    true
}

/// Borrowed pairs read as the pairs they point to.
pub open spec fn deref_pairs(v: Seq<(&String, &TestVerdict)>) -> Seq<(String, TestVerdict)> {
    v.map_values(|p: (&String, &TestVerdict)| (*p.0, *p.1))
}

/// Why a run is refused by the failure policy.
pub enum OutcomeError {
    /// Some tests failed while failures are not allowed.
    TestsFailed { failed: usize, succeeded: usize },
}

/// The message of a policy failure.
pub open spec fn failure_message(failed: nat, succeeded: nat) -> Seq<char> {
    "Encountered a total of "@ + decimal(failed) + " failing tests, "@ + decimal(succeeded)
        + " tests succeeded"@
}

impl OutcomeError {
    pub fn message(&self) -> (r: String)
        ensures
            r@ == match *self {
                OutcomeError::TestsFailed { failed, succeeded } => failure_message(
                    failed as nat,
                    succeeded as nat,
                ),
            },
    {
        match self {
            OutcomeError::TestsFailed { failed, succeeded } => {
                let mut s = String::from_str("Encountered a total of ");
                push_decimal(&mut s, *failed as u64);
                s.append(" failing tests, ");
                push_decimal(&mut s, *succeeded as u64);
                s.append(" tests succeeded");
                assert(s@ =~= failure_message(*failed as nat, *succeeded as nat));
                s
            },
        }
    }
}

impl TestOutcome {
    /// Bundles the verdicts of a run; refused unless contract names, and test
    /// names within each contract, are strictly ascending.
    pub fn new(results: Vec<(String, ContractTests)>, allow_failure: bool) -> (r: Option<TestOutcome>)
        ensures
            r is Some <==> outcome_keys_sorted(results@),
            r matches Some(o) ==> o.results() == results@ && o.allow_failure() == allow_failure
                && o.well_formed(),
    {
        if !names_in_order(&results) {
            return None;
        }
        let mut i: usize = 0;
        while i < results.len()
            invariant
                0 <= i <= results@.len(),
                names_ascending(results@),
                forall|k: int| 0 <= k < i ==> names_ascending(#[trigger] results@[k].1@),
            decreases results@.len() - i,
        {
            if !names_in_order(&results[i].1) {
                return None;
            }
            i += 1;
        }
        Some(TestOutcome { results, allow_failure })
    }

    /// Names are strictly ascending, hence unique, at each level.
    #[verifier::type_invariant]
    pub closed spec fn well_formed(self) -> bool {
        outcome_keys_sorted(self.results@)
    }

    pub closed spec fn results(self) -> Seq<(String, ContractTests)> {
        self.results@
    }

    pub closed spec fn allow_failure(self) -> bool {
        self.allow_failure
    }

    /// Every test of the run, contract by contract.
    pub open spec fn all_tests(self) -> Seq<(String, TestVerdict)> {
        flatten(self.results())
    }

    /// The results, contract by contract.
    pub fn contracts(&self) -> (r: &Vec<(String, ContractTests)>)
        ensures
            r@ == self.results(),
            outcome_keys_sorted(r@),
    {
        proof {
            use_type_invariant(self);
        }
        &self.results
    }

    /// Whether failures are allowed.
    pub fn allows_failure(&self) -> (r: bool)
        ensures
            r == self.allow_failure(),
    {
        self.allow_failure
    }

    /// Every test and its name, in order.
    pub fn tests(&self) -> (r: Vec<(&String, &TestVerdict)>)
        ensures
            deref_pairs(r@) == self.all_tests(),
            outcome_keys_sorted(self.results()),
    {
        proof {
            use_type_invariant(self);
        }
        let r = self.select(None);
        proof {
            lemma_filter_all(self.all_tests(), |t: (String, TestVerdict)| keeps(None, t));
        }
        r
    }

    /// Every succeeding test and its name, in order.
    pub fn successes(&self) -> (r: Vec<(&String, &TestVerdict)>)
        ensures
            deref_pairs(r@) == successes_of(self.all_tests()),
    {
        let r = self.select(Some(true));
        assert((|t: (String, TestVerdict)| keeps(Some(true), t)) =~= (|t: (String, TestVerdict)| passed(t)));
        r
    }

    /// Every failing test and its name, in order.
    pub fn failures(&self) -> (r: Vec<(&String, &TestVerdict)>)
        ensures
            deref_pairs(r@) == failures_of(self.all_tests()),
    {
        let r = self.select(Some(false));
        assert((|t: (String, TestVerdict)| keeps(Some(false), t)) =~= (|t: (String, TestVerdict)| failed(t)));
        r
    }

    /// Consumes the outcome into its tests, in order.
    pub fn into_tests(self) -> (r: Vec<Test>)
        ensures
            r@.map_values(|t: Test| (t.signature, t.result)) == self.all_tests(),
    {
        let TestOutcome { results, allow_failure: _ } = self;
        let ghost all = results@;
        let mut rest = results;
        let mut out: Vec<Test> = Vec::new();
        let ghost mut i: int = 0;
        while rest.len() > 0
            invariant
                0 <= i <= all.len(),
                rest@ == all.subrange(i, all.len() as int),
                out@.map_values(|t: Test| (t.signature, t.result)) == flatten(all.subrange(0, i)),
            decreases rest.len(),
        {
            let (_name, tests) = rest.remove(0);
            let ghost ts = tests@;
            let mut tests = tests;
            let ghost mut j: int = 0;
            let ghost base = out@.map_values(|t: Test| (t.signature, t.result));
            while tests.len() > 0
                invariant
                    0 <= j <= ts.len(),
                    tests@ == ts.subrange(j, ts.len() as int),
                    out@.map_values(|t: Test| (t.signature, t.result)) == base + ts.subrange(0, j),
                decreases tests.len(),
            {
                let (signature, result) = tests.remove(0);
                let ghost prev = out@;
                out.push(Test { signature, result });
                proof {
                    assert(out@.map_values(|t: Test| (t.signature, t.result)) =~= prev.map_values(
                        |t: Test| (t.signature, t.result),
                    ).push(ts[j]));
                    assert(ts.subrange(0, j + 1) =~= ts.subrange(0, j).push(ts[j]));
                    j = j + 1;
                }
            }
            proof {
                assert(ts.subrange(0, j) =~= ts);
                assert(all.subrange(0, i + 1).drop_last() =~= all.subrange(0, i));
                i = i + 1;
            }
        }
        proof {
            assert(all.subrange(0, i) =~= all);
        }
        out
    }

    /// The tests whose success flag is `want`, or all of them for `None`, in order.
    fn select(&self, want: Option<bool>) -> (r: Vec<(&String, &TestVerdict)>)
        ensures
            deref_pairs(r@) == self.all_tests().filter(|t: (String, TestVerdict)| keeps(want, t)),
    {
        let ghost all = self.results@;
        let ghost p = |t: (String, TestVerdict)| keeps(want, t);
        let mut out: Vec<(&String, &TestVerdict)> = Vec::new();
        let mut i: usize = 0;
        while i < self.results.len()
            invariant
                0 <= i <= all.len(),
                all == self.results@,
                p == (|t: (String, TestVerdict)| keeps(want, t)),
                deref_pairs(out@) == flatten(all.subrange(0, i as int)).filter(p),
            decreases all.len() - i,
        {
            let tests = &self.results[i].1;
            let ghost ts = tests@;
            let ghost base = deref_pairs(out@);
            let mut j: usize = 0;
            while j < tests.len()
                invariant
                    0 <= j <= ts.len(),
                    ts == tests@,
                    p == (|t: (String, TestVerdict)| keeps(want, t)),
                    deref_pairs(out@) == base + ts.subrange(0, j as int).filter(p),
                decreases ts.len() - j,
            {
                let pair = &tests[j];
                let keep = match want {
                    None => true,
                    Some(b) => pair.1.success == b,
                };
                let ghost prev = out@;
                proof {
                    reveal(Seq::filter);
                    assert(ts.subrange(0, j + 1).drop_last() =~= ts.subrange(0, j as int));
                }
                if keep {
                    out.push((&pair.0, &pair.1));
                    assert(deref_pairs(out@) =~= deref_pairs(prev).push(ts[j as int]));
                }
                j += 1;
            }
            proof {
                assert(ts.subrange(0, j as int) =~= ts);
                assert(all.subrange(0, i + 1).drop_last() =~= all.subrange(0, i as int));
                Seq::filter_distributes_over_add(
                    flatten(all.subrange(0, i as int)),
                    ts,
                    p,
                );
            }
            i += 1;
        }
        proof {
            assert(all.subrange(0, i as int) =~= all);
        }
        out
    }

    /// Succeeds unless failures are disallowed and some test failed; the
    /// error then carries the numbers of failing and succeeding tests.
    pub fn ensure_ok(&self) -> (r: Result<(), OutcomeError>)
        ensures
            r is Ok <==> (self.allow_failure() || failures_of(self.all_tests()).len() == 0),
            r matches Err(OutcomeError::TestsFailed { failed: f, succeeded: s }) ==> f
                == failures_of(self.all_tests()).len() && s
                == successes_of(self.all_tests()).len(),
    {
        if !self.allow_failure {
            let failures = self.failures();
            if failures.len() > 0 {
                let successes = self.successes();
                return Err(OutcomeError::TestsFailed { failed: failures.len(), succeeded: successes.len() });
            }
        }
        Ok(())
    }
}

pub open spec fn keeps(want: Option<bool>, t: (String, TestVerdict)) -> bool {
    match want {
        None => true,
        Some(b) => t.1.success == b,
    }
}

proof fn lemma_filter_all(s: Seq<(String, TestVerdict)>, p: spec_fn((String, TestVerdict)) -> bool)
    requires
        forall|i: int| 0 <= i < s.len() ==> p(#[trigger] s[i]),
    ensures
        s.filter(p) == s,
    decreases s.len(),
{
    reveal(Seq::filter);
    if s.len() > 0 {
        lemma_filter_all(s.drop_last(), p);
        assert(s.drop_last().push(s.last()) =~= s);
    }
}

proof fn lemma_split_by_success(s: Seq<(String, TestVerdict)>)
    ensures
        successes_of(s).to_multiset().add(
            failures_of(s).to_multiset(),
        ) == s.to_multiset(),
    decreases s.len(),
{
    broadcast use vstd::multiset::group_multiset_axioms;

    let pp = |t: (String, TestVerdict)| passed(t);
    let fp = |t: (String, TestVerdict)| failed(t);
    reveal(Seq::filter);
    if s.len() == 0 {
        assert(s.filter(pp) =~= Seq::empty());
        assert(s.filter(fp) =~= Seq::empty());
        vstd::seq_lib::to_multiset_len(s);
        vstd::multiset::lemma_multiset_empty_len(s.to_multiset());
        assert(s.to_multiset() =~= Multiset::empty());
        assert(s.filter(pp).to_multiset().add(s.filter(fp).to_multiset()) =~= Multiset::empty());
    } else {
        let d = s.drop_last();
        lemma_split_by_success(d);
        assert(d.push(s.last()) =~= s);
        vstd::seq_lib::to_multiset_build(d, s.last());
        vstd::seq_lib::to_multiset_build(d.filter(pp), s.last());
        vstd::seq_lib::to_multiset_build(d.filter(fp), s.last());
        assert(s.filter(pp).to_multiset().add(s.filter(fp).to_multiset()) =~= s.to_multiset());
    }
}

/// The successes and the failures of an outcome partition its tests: every
/// test is in exactly one of them, and together they hold each test as often
/// as the outcome does.
pub proof fn lemma_successes_failures_partition(o: TestOutcome)
    ensures
        successes_of(o.all_tests()).to_multiset().add(
            failures_of(o.all_tests()).to_multiset(),
        ) == o.all_tests().to_multiset(),
        successes_of(o.all_tests()).len() + failures_of(o.all_tests()).len() == o.all_tests().len(),
        forall|t: (String, TestVerdict)|
            !(#[trigger] successes_of(o.all_tests()).contains(t)
                && failures_of(o.all_tests()).contains(t)),
{
    broadcast use vstd::multiset::group_multiset_axioms;
    broadcast use vstd::seq_lib::to_multiset_len;

    let s = o.all_tests();
    let pp = |t: (String, TestVerdict)| passed(t);
    let fp = |t: (String, TestVerdict)| failed(t);
    lemma_split_by_success(s);
    vstd::seq_lib::to_multiset_len(s);
    vstd::seq_lib::to_multiset_len(s.filter(pp));
    vstd::seq_lib::to_multiset_len(s.filter(fp));
    assert forall|t: (String, TestVerdict)|
        !(#[trigger] s.filter(pp).contains(t) && s.filter(fp).contains(t)) by {
        if s.filter(pp).contains(t) && s.filter(fp).contains(t) {
            let i = choose|i: int| 0 <= i < s.filter(pp).len() && s.filter(pp)[i] == t;
            let k = choose|k: int| 0 <= k < s.filter(fp).len() && s.filter(fp)[k] == t;
            assert(pp(s.filter(pp)[i]));
            assert(fp(s.filter(fp)[k]));
        }
    }
}

} // verus!
