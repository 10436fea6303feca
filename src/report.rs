//! The console lines that report a run.
use vstd::prelude::*;
use crate::runner::{TestResult, concat};
use crate::eval::FailReason;
use crate::validate::{BodyCheck, HeaderCheck};

verus! {

pub open spec fn bool_text(b: bool) -> Seq<char> {
    if b {
        "true"@
    } else {
        "false"@
    }
}

pub open spec fn header_line_spec(key: Seq<char>, c: HeaderCheck) -> Seq<char> {
    match c {
        HeaderCheck::Missing => "Header '"@ + key + "' is missing"@,
        HeaderCheck::Matched => "Header '"@ + key + "' match: "@ + "true"@,
        HeaderCheck::Mismatched(_) => "Header '"@ + key + "' match: "@ + "false"@,
    }
}

/// The lines for one test's checks: the status line, one line per checked
/// header, and a body line when the body was checked.
pub open spec fn result_lines_spec(r: TestResult) -> Seq<Seq<char>> {
    seq!["Status code match: "@ + bool_text(r.status_match)] + r.headers@.map_values(
        |h: (String, HeaderCheck)| header_line_spec(h.0@, h.1),
    ) + match r.body {
        Some(b) => seq!["Body match: "@ + bool_text(b == BodyCheck::Matched)],
        None => Seq::empty(),
    }
}

pub open spec fn reason_text(r: FailReason) -> Seq<char> {
    match r {
        FailReason::PathNotFound => "path not found"@,
        FailReason::InvalidComparison => "invalid comparison"@,
        FailReason::NotSatisfied => "not satisfied"@,
    }
}

/// The words that explain a failed rule.
pub fn reason_str(r: FailReason) -> (s: &'static str)
    ensures
        s@ == reason_text(r),
{
    match r {
        FailReason::PathNotFound => "path not found",
        FailReason::InvalidComparison => "invalid comparison",
        FailReason::NotSatisfied => "not satisfied",
    }
}

fn bool_str(b: bool) -> (r: &'static str)
    ensures
        r@ == bool_text(b),
{
    if b {
        "true"
    } else {
        "false"
    }
}

/// `Running test suite: <name>`
pub fn suite_line(name: &str) -> (r: String)
    ensures
        r@ == "Running test suite: "@ + name@,
{
    concat("Running test suite: ", name)
}

/// `Running test: <name>`
pub fn test_line(name: &str) -> (r: String)
    ensures
        r@ == "Running test: "@ + name@,
{
    concat("Running test: ", name)
}

/// `Status code match: <true|false>`
pub fn status_line(matched: bool) -> (r: String)
    ensures
        r@ == "Status code match: "@ + bool_text(matched),
{
    concat("Status code match: ", bool_str(matched))
}

/// `Header '<key>' match: <true|false>` or `Header '<key>' is missing`
pub fn header_line(key: &str, c: &HeaderCheck) -> (r: String)
    ensures
        r@ == header_line_spec(key@, *c),
{
    let head = concat("Header '", key);
    match c {
        HeaderCheck::Missing => concat(head.as_str(), "' is missing"),
        HeaderCheck::Matched => concat(concat(head.as_str(), "' match: ").as_str(), "true"),
        HeaderCheck::Mismatched(_) => concat(concat(head.as_str(), "' match: ").as_str(), "false"),
    }
}

/// `Body match: <true|false>`
pub fn body_line(c: BodyCheck) -> (r: String)
    ensures
        r@ == "Body match: "@ + bool_text(c == BodyCheck::Matched),
{
    concat("Body match: ", bool_str(c == BodyCheck::Matched))
}

/// Every check line of one test, in order.
pub fn result_lines(r: &TestResult) -> (out: Vec<String>)
    ensures
        out@.map_values(|s: String| s@) == result_lines_spec(*r),
{
    let mut out: Vec<String> = Vec::new();
    out.push(status_line(r.status_match));
    let ghost first = seq!["Status code match: "@ + bool_text(r.status_match)];
    assert(out@.map_values(|s: String| s@) =~= first);
    let mut i: usize = 0;
    while i < r.headers.len()
        invariant
            i <= r.headers@.len(),
            out@.map_values(|s: String| s@) == first + r.headers@.subrange(0, i as int).map_values(
                |h: (String, HeaderCheck)| header_line_spec(h.0@, h.1),
            ),
        decreases r.headers.len() - i,
    {
        let line = header_line(r.headers[i].0.as_str(), &r.headers[i].1);
        let ghost before = out@.map_values(|s: String| s@);
        out.push(line);
        assert(out@.map_values(|s: String| s@) =~= before.push(line@));
        assert(r.headers@.subrange(0, i + 1).map_values(
            |h: (String, HeaderCheck)| header_line_spec(h.0@, h.1),
        ) =~= r.headers@.subrange(0, i as int).map_values(
            |h: (String, HeaderCheck)| header_line_spec(h.0@, h.1),
        ).push(header_line_spec(r.headers@[i as int].0@, r.headers@[i as int].1)));
        i += 1;
    }
    assert(r.headers@.subrange(0, r.headers@.len() as int) =~= r.headers@);
    let ghost mid = out@.map_values(|s: String| s@);
    match r.body {
        Some(b) => {
            let line = body_line(b);
            out.push(line);
            assert(out@.map_values(|s: String| s@) =~= mid.push(line@));
        },
        None => {},
    }
    assert(out@.map_values(|s: String| s@) =~= result_lines_spec(*r));
    out
}

} // verus!
