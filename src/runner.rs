//! Per-test orchestration and the run's tally.
use vstd::prelude::*;
use crate::eval::{Outcome, evaluate, evaluate_spec};
use crate::model::{Method, Request, Response, Test};
use crate::resolve::{resolve_spec, resolve_variables};
use crate::text::{chars_of, string_of};
use crate::validate::{BodyCheck, HeaderCheck, Validation, validate, validation_ok, validation_passed, headers_checked, body_check_spec};

verus! {

/// A request with every templated field resolved, ready to send.
pub struct ResolvedRequest {
    pub method: Method,
    /// The base URL followed by the resolved path, joined as they are.
    pub url: String,
    pub headers: Vec<(String, String)>,
    pub query: Vec<(String, String)>,
}

/// `r` holds the names of `pairs`, in order, with each value resolved.
pub open spec fn pairs_resolved(r: Seq<(String, String)>, pairs: Seq<(String, String)>, vars: Seq<(String, String)>) -> bool {
    &&& r.len() == pairs.len()
    &&& forall|i: int| 0 <= i < r.len() ==> (#[trigger] r[i]).0@ == pairs[i].0@ && r[i].1@
        == resolve_spec(pairs[i].1@, vars)
}

/// The characters of `a` followed by those of `b`.
pub fn concat(a: &str, b: &str) -> (r: String)
    ensures
        r@ == a@ + b@,
{
    let mut v = chars_of(a);
    let w = chars_of(b);
    let mut i: usize = 0;
    while i < w.len()
        invariant
            i <= w@.len(),
            v@ == a@ + w@.subrange(0, i as int),
        decreases w.len() - i,
    {
        v.push(w[i]);
        assert(v@ =~= a@ + w@.subrange(0, i + 1));
        i += 1;
    }
    assert(w@.subrange(0, w@.len() as int) =~= w@);
    string_of(&v)
}

/// Resolves the value of each pair; names are kept as they are.
pub fn resolve_pairs(pairs: &Vec<(String, String)>, variables: &Vec<(String, String)>) -> (r: Vec<(String, String)>)
    ensures
        pairs_resolved(r@, pairs@, variables@),
{
    let mut out: Vec<(String, String)> = Vec::new();
    let mut i: usize = 0;
    while i < pairs.len()
        invariant
            i <= pairs@.len(),
            out@.len() == i,
            forall|k: int| 0 <= k < i ==> (#[trigger] out@[k]).0@ == pairs@[k].0@ && out@[k].1@
                == resolve_spec(pairs@[k].1@, variables@),
        decreases pairs.len() - i,
    {
        let v = resolve_variables(pairs[i].1.as_str(), variables);
        out.push((pairs[i].0.clone(), v));
        i += 1;
    }
    out
}

/// Resolves the URL, header values and query values of a request and joins
/// the URL to the base URL. The body is sent as it stands.
pub fn resolve_request(req: &Request, base_url: &str, variables: &Vec<(String, String)>) -> (r: ResolvedRequest)
    ensures
        r.method == req.method,
        r.url@ == base_url@ + resolve_spec(req.url@, variables@),
        pairs_resolved(r.headers@, req.headers@, variables@),
        pairs_resolved(r.query@, req.query@, variables@),
{
    let path = resolve_variables(req.url.as_str(), variables);
    ResolvedRequest {
        method: req.method,
        url: concat(base_url, path.as_str()),
        headers: resolve_pairs(&req.headers, variables),
        query: resolve_pairs(&req.query, variables),
    }
}

/// The record of one test.
pub struct TestResult {
    pub name: String,
    pub status_match: bool,
    pub headers: Vec<(String, HeaderCheck)>,
    pub body: Option<BodyCheck>,
    pub predicates: Vec<Outcome>,
    /// Why no response was received, when none was.
    pub error: Option<String>,
    pub passed: bool,
}

pub open spec fn all_pass(os: Seq<Outcome>) -> bool {
    forall|i: int| 0 <= i < os.len() ==> #[trigger] os[i] == Outcome::Pass
}

/// Evaluates every predicate of a test, in order.
pub fn evaluate_predicates(test: &Test, resp: &Response) -> (r: Vec<Outcome>)
    ensures
        r@.len() == test.predicates@.len(),
        forall|i: int| 0 <= i < r@.len() ==> #[trigger] r@[i] == evaluate_spec(test.predicates@[i].rule, *resp),
{
    let mut out: Vec<Outcome> = Vec::new();
    let mut i: usize = 0;
    while i < test.predicates.len()
        invariant
            i <= test.predicates@.len(),
            out@.len() == i,
            forall|k: int| 0 <= k < i ==> #[trigger] out@[k] == evaluate_spec(test.predicates@[k].rule, *resp),
        decreases test.predicates.len() - i,
    {
        out.push(evaluate(&test.predicates[i].rule, resp));
        i += 1;
    }
    out
}

fn outcomes_pass(os: &Vec<Outcome>) -> (r: bool)
    ensures
        r == all_pass(os@),
{
    let mut i: usize = 0;
    while i < os.len()
        invariant
            i <= os@.len(),
            forall|k: int| 0 <= k < i ==> #[trigger] os@[k] == Outcome::Pass,
        decreases os.len() - i,
    {
        if os[i] != Outcome::Pass {
            return false;
        }
        i += 1;
    }
    true
}

/// Validates a received response and evaluates the test's predicates on it.
/// The test passes when the status matches, every checked header matched, the
/// body matched if checked, and every predicate passed.
pub fn evaluate_test(test: &Test, resp: &Response) -> (r: TestResult)
    ensures
        r.name == test.name,
        r.status_match == (test.expected_response.status_code == resp.status),
        headers_checked(
            Validation { status_match: r.status_match, headers: r.headers, body: r.body },
            test.expected_response,
            *resp,
        ),
        r.body == body_check_spec(test.expected_response.body, resp.body),
        r.predicates@.len() == test.predicates@.len(),
        forall|i: int| 0 <= i < r.predicates@.len() ==> #[trigger] r.predicates@[i] == evaluate_spec(test.predicates@[i].rule, *resp),
        r.error is None,
        r.passed == (validation_ok(Validation { status_match: r.status_match, headers: r.headers, body: r.body }) && all_pass(r.predicates@)),
{
    let v = validate(&test.expected_response, resp);
    let predicates = evaluate_predicates(test, resp);
    let ok = validation_passed(&v) && outcomes_pass(&predicates);
    let Validation { status_match, headers, body } = v;
    TestResult {
        name: test.name.clone(),
        status_match,
        headers,
        body,
        predicates,
        error: None,
        passed: ok,
    }
}

/// The record of a test whose request could not be made or answered: it
/// failed, and nothing was checked.
pub fn failed_test(test: &Test, error: String) -> (r: TestResult)
    ensures
        r.name == test.name,
        !r.status_match,
        r.headers@.len() == 0,
        r.body is None,
        r.predicates@.len() == 0,
        r.error == Some(error),
        !r.passed,
{
    TestResult {
        name: test.name.clone(),
        status_match: false,
        headers: Vec::new(),
        body: None,
        predicates: Vec::new(),
        error: Some(error),
        passed: false,
    }
}

/// The tally of a run.
pub struct Summary {
    pub total: usize,
    pub passed: usize,
    pub failed: usize,
}

/// How many of `rs` passed.
pub open spec fn count_passed(rs: Seq<TestResult>) -> nat
    decreases rs.len(),
{
    if rs.len() == 0 {
        0
    } else {
        count_passed(rs.drop_last()) + if rs.last().passed { 1nat } else { 0nat }
    }
}

/// Counts the tests, those that passed and those that failed.
pub fn summarize(results: &Vec<TestResult>) -> (r: Summary)
    ensures
        r.total == results@.len(),
        r.passed == count_passed(results@),
        r.failed == results@.len() - count_passed(results@),
{
    let mut passed: usize = 0;
    let mut i: usize = 0;
    while i < results.len()
        invariant
            i <= results@.len(),
            passed == count_passed(results@.subrange(0, i as int)),
            passed <= i,
        decreases results.len() - i,
    {
        assert(results@.subrange(0, i + 1).drop_last() =~= results@.subrange(0, i as int));
        if results[i].passed {
            passed += 1;
        }
        i += 1;
    }
    assert(results@.subrange(0, results@.len() as int) =~= results@);
    Summary { total: results.len(), passed, failed: results.len() - passed }
}

/// The process status for a finished run: zero exactly when no test failed.
pub fn exit_code(summary: &Summary) -> (r: i32)
    ensures
        r == (if summary.failed == 0 { 0i32 } else { 1i32 }),
{
    if summary.failed == 0 {
        0
    } else {
        1
    }
}

} // verus!

verus! {

proof fn lemma_count_passed_le(rs: Seq<TestResult>)
    ensures
        count_passed(rs) <= rs.len(),
    decreases rs.len(),
{
    if rs.len() > 0 {
        lemma_count_passed_le(rs.drop_last());
    }
}

/// One failed test is enough for the tally to show a failure, and so for the
/// run's exit status to be non-zero.
pub proof fn lemma_one_failure_fails_run(rs: Seq<TestResult>, i: int)
    requires
        0 <= i < rs.len(),
        !rs[i].passed,
    ensures
        count_passed(rs) < rs.len(),
    decreases rs.len(),
{
    if i == rs.len() - 1 {
        lemma_count_passed_le(rs.drop_last());
    } else {
        assert(rs.drop_last()[i] == rs[i]);
        lemma_one_failure_fails_run(rs.drop_last(), i);
    }
}

/// A test whose status code differs from the expected one fails.
pub proof fn lemma_status_mismatch_fails(r: TestResult)
    requires
        !r.status_match,
        r.passed == (validation_ok(Validation { status_match: r.status_match, headers: r.headers, body: r.body }) && all_pass(r.predicates@)),
    ensures
        !r.passed,
{
}

} // verus!
