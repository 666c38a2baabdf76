//! Selection of tests and contracts by regular-expression patterns.

use vstd::prelude::*;

verus! {

#[verifier::external_type_specification]
#[verifier::external_body]
pub struct ExRegex(regex::Regex);

#[verifier::external_type_specification]
#[verifier::external_body]
pub struct ExRegexError(regex::Error);

/// Whether `pattern` is accepted by the regex compiler with its default limits.
pub uninterp spec fn regex_compiles(pattern: Seq<char>) -> bool;

/// Whether the regex compiled from `pattern` finds a match anywhere in `text`.
pub uninterp spec fn regex_accepts(pattern: Seq<char>, text: Seq<char>) -> bool;

/// Relies on regex::Regex::new: it succeeds exactly on the patterns it can compile.
#[verifier::external_body]
fn compile(source: &str) -> (r: Result<regex::Regex, regex::Error>)
    ensures
        r is Ok <==> regex_compiles(source@),
{
    regex::Regex::new(source)
}

/// Relies on regex::Regex::is_match on the regex that `Pattern::new` compiled
/// from `p.source`: whether it matches somewhere in `text`.
#[verifier::external_body]
fn regex_is_match(p: &Pattern, text: &str) -> (r: bool)
    ensures
        r == regex_accepts(p@, text@),
{
    p.compiled.is_match(text)
}

/// A compiled regular expression together with its source text.
pub struct Pattern {
    source: String,
    compiled: regex::Regex,
}

/// A pattern that the regex compiler refused.
#[derive(Debug)]
pub struct PatternError {
    pub pattern: String,
}

impl View for Pattern {
    type V = Seq<char>;

    closed spec fn view(&self) -> Seq<char> {
        self.source@
    }
}

impl Pattern {
    /// Compiles `source`; fails exactly when the regex compiler refuses it.
    pub fn new(source: &str) -> (r: Result<Pattern, PatternError>)
        ensures
            r is Ok <==> regex_compiles(source@),
            r matches Ok(p) ==> p@ == source@,
            r matches Err(e) ==> e.pattern@ == source@,
    {
        match compile(source) {
            Ok(compiled) => Ok(Pattern { source: String::from_str(source), compiled }),
            Err(_) => Err(PatternError { pattern: String::from_str(source) }),
        }
    }

    /// The source text of the pattern.
    pub fn as_str(&self) -> (r: &str)
        ensures
            r@ == self@,
    {
        self.source.as_str()
    }

    /// Whether the pattern matches somewhere in `text`.
    pub fn is_match(&self, text: &str) -> (r: bool)
        ensures
            r == regex_accepts(self@, text@),
    {
        regex_is_match(self, text)
    }
}

/// What a filter is made of: the source of each configured pattern.
pub struct FilterView {
    pub pattern: Option<Seq<char>>,
    pub test_pattern: Option<Seq<char>>,
    pub test_pattern_inverse: Option<Seq<char>>,
    pub contract_pattern: Option<Seq<char>>,
    pub contract_pattern_inverse: Option<Seq<char>>,
}

/// An absent pattern puts no constraint; a present one must match.
pub open spec fn include_ok(p: Option<Seq<char>>, name: Seq<char>) -> bool {
    match p {
        None => true,
        Some(s) => regex_accepts(s, name),
    }
}

/// An absent pattern puts no constraint; a present one must not match.
pub open spec fn exclude_ok(p: Option<Seq<char>>, name: Seq<char>) -> bool {
    match p {
        None => true,
        Some(s) => !regex_accepts(s, name),
    }
}

pub open spec fn opt_view(p: Option<Pattern>) -> Option<Seq<char>> {
    match p {
        None => None,
        Some(q) => Some(q@),
    }
}

impl FilterView {
    /// A test is eligible when every configured test-name constraint holds.
    pub open spec fn test_eligible(self, name: Seq<char>) -> bool {
        include_ok(self.pattern, name) && include_ok(self.test_pattern, name) && exclude_ok(
            self.test_pattern_inverse,
            name,
        )
    }

    /// A contract is eligible when every configured contract-name constraint holds.
    pub open spec fn contract_eligible(self, name: Seq<char>) -> bool {
        include_ok(self.contract_pattern, name) && exclude_ok(self.contract_pattern_inverse, name)
    }

    pub open spec fn is_empty(self) -> bool {
        self.pattern is None && self.test_pattern is None && self.test_pattern_inverse is None
            && self.contract_pattern is None && self.contract_pattern_inverse is None
    }
}

/// Up to five optional patterns that decide which tests run.
///
/// `pattern` is the deprecated combined test-name pattern; configuration
/// loaders keep it apart from the two test-name patterns, but the filter
/// combines whatever it is given.
pub struct Filter {
    pattern: Option<Pattern>,
    test_pattern: Option<Pattern>,
    test_pattern_inverse: Option<Pattern>,
    contract_pattern: Option<Pattern>,
    contract_pattern_inverse: Option<Pattern>,
}

impl View for Filter {
    type V = FilterView;

    closed spec fn view(&self) -> FilterView {
        FilterView {
            pattern: opt_view(self.pattern),
            test_pattern: opt_view(self.test_pattern),
            test_pattern_inverse: opt_view(self.test_pattern_inverse),
            contract_pattern: opt_view(self.contract_pattern),
            contract_pattern_inverse: opt_view(self.contract_pattern_inverse),
        }
    }
}

fn include_holds(p: &Option<Pattern>, name: &str) -> (r: bool)
    ensures
        r == include_ok(opt_view(*p), name@),
{
    match p {
        None => true,
        Some(re) => re.is_match(name),
    }
}

fn exclude_holds(p: &Option<Pattern>, name: &str) -> (r: bool)
    ensures
        r == exclude_ok(opt_view(*p), name@),
{
    match p {
        None => true,
        Some(re) => !re.is_match(name),
    }
}

impl Filter {
    pub fn new(
        pattern: Option<Pattern>,
        test_pattern: Option<Pattern>,
        test_pattern_inverse: Option<Pattern>,
        contract_pattern: Option<Pattern>,
        contract_pattern_inverse: Option<Pattern>,
    ) -> (r: Filter)
        ensures
            r@ == (FilterView {
                pattern: opt_view(pattern),
                test_pattern: opt_view(test_pattern),
                test_pattern_inverse: opt_view(test_pattern_inverse),
                contract_pattern: opt_view(contract_pattern),
                contract_pattern_inverse: opt_view(contract_pattern_inverse),
            }),
    {
        Filter {
            pattern,
            test_pattern,
            test_pattern_inverse,
            contract_pattern,
            contract_pattern_inverse,
        }
    }

    /// Whether the test named `test_name` is eligible to run.
    pub fn matches_test(&self, test_name: &str) -> (r: bool)
        ensures
            r == self@.test_eligible(test_name@),
    {
        let mut ok = true;
        ok = ok && include_holds(&self.pattern, test_name);
        ok = ok && include_holds(&self.test_pattern, test_name);
        ok = ok && exclude_holds(&self.test_pattern_inverse, test_name);
        ok
    }

    /// Whether the tests of the contract named `contract_name` are eligible to run.
    pub fn matches_contract(&self, contract_name: &str) -> (r: bool)
        ensures
            r == self@.contract_eligible(contract_name@),
    {
        let mut ok = true;
        ok = ok && include_holds(&self.contract_pattern, contract_name);
        ok = ok && exclude_holds(&self.contract_pattern_inverse, contract_name);
        ok
    }
}

/// With no pattern configured, every test and every contract is eligible.
pub proof fn lemma_empty_filter_admits_all(f: FilterView, name: Seq<char>)
    requires
        f.is_empty(),
    ensures
        f.test_eligible(name),
        f.contract_eligible(name),
{
}

/// With only the test-name exclude pattern configured, a test is eligible
/// exactly when that pattern does not match its name, and every contract is.
pub proof fn lemma_only_test_exclude(f: FilterView, name: Seq<char>)
    requires
        f.pattern is None,
        f.test_pattern is None,
        f.test_pattern_inverse is Some,
        f.contract_pattern is None,
        f.contract_pattern_inverse is None,
    ensures
        f.test_eligible(name) == !regex_accepts(f.test_pattern_inverse->Some_0, name),
        f.contract_eligible(name),
{
}

/// With only the contract-name exclude pattern configured, a contract is
/// eligible exactly when that pattern does not match its name, and every test is.
pub proof fn lemma_only_contract_exclude(f: FilterView, name: Seq<char>)
    requires
        f.pattern is None,
        f.test_pattern is None,
        f.test_pattern_inverse is None,
        f.contract_pattern is None,
        f.contract_pattern_inverse is Some,
    ensures
        f.contract_eligible(name) == !regex_accepts(f.contract_pattern_inverse->Some_0, name),
        f.test_eligible(name),
{
}

/// When the deprecated pattern is set together with an explicit test-name
/// pattern, a test is eligible exactly when the deprecated pattern matches
/// and every explicit test-name constraint holds as well.
pub proof fn lemma_legacy_and_test_patterns_conjoin(f: FilterView, name: Seq<char>)
    requires
        f.pattern is Some,
        f.test_pattern is Some || f.test_pattern_inverse is Some,
    ensures
        f.test_eligible(name) == (regex_accepts(f.pattern->Some_0, name) && include_ok(
            f.test_pattern,
            name,
        ) && exclude_ok(f.test_pattern_inverse, name)),
{
}

} // verus!
