//! Comparison of a response with its expectation, and evaluation of rules.
use vstd::prelude::*;
use crate::json::{Json, json_eq, json_equal};
use crate::model::{ExpectedResponse, Response};
use crate::text::{eq_ignore_case, seq_eq_fold};

verus! {

/// Some header of `hs` has a name equal to `name` up to ASCII case.
pub open spec fn has_header(hs: Seq<(String, String)>, name: Seq<char>) -> bool {
    exists|i: int| 0 <= i < hs.len() && seq_eq_fold((#[trigger] hs[i]).0@, name)
}

/// `i` is the first header of `hs` whose name equals `name` up to ASCII case.
pub open spec fn is_first_header(hs: Seq<(String, String)>, name: Seq<char>, i: int) -> bool {
    0 <= i < hs.len() && seq_eq_fold(hs[i].0@, name) && forall|j: int|
        0 <= j < i ==> !seq_eq_fold((#[trigger] hs[j]).0@, name)
}

pub open spec fn first_header(hs: Seq<(String, String)>, name: Seq<char>) -> int {
    choose|i: int| is_first_header(hs, name, i)
}

/// The value of the header named `name`, without regard to ASCII case; the
/// first such header wins.
pub open spec fn header_value(hs: Seq<(String, String)>, name: Seq<char>) -> Option<Seq<char>> {
    if has_header(hs, name) {
        Some(hs[first_header(hs, name)].1@)
    } else {
        None
    }
}

proof fn lemma_first_header(hs: Seq<(String, String)>, name: Seq<char>, i: int)
    requires
        is_first_header(hs, name, i),
    ensures
        first_header(hs, name) == i,
        has_header(hs, name),
{
    let c = first_header(hs, name);
    assert(is_first_header(hs, name, c));
    if c < i {
        assert(!seq_eq_fold(hs[c].0@, name));
    } else if c > i {
        assert(!seq_eq_fold(hs[i].0@, name));
    }
}

/// Position of the first header named `name`, without regard to ASCII case.
pub fn find_header(hs: &Vec<(String, String)>, name: &String) -> (r: Option<usize>)
    ensures
        r is Some <==> has_header(hs@, name@),
        r matches Some(i) ==> first_header(hs@, name@) == i && i < hs@.len(),
{
    let mut i: usize = 0;
    while i < hs.len()
        invariant
            i <= hs@.len(),
            forall|j: int| 0 <= j < i ==> !seq_eq_fold((#[trigger] hs@[j]).0@, name@),
        decreases hs.len() - i,
    {
        if eq_ignore_case(hs[i].0.as_str(), name.as_str()) {
            proof { lemma_first_header(hs@, name@, i as int); }
            return Some(i);
        }
        i += 1;
    }
    None
}

/// The outcome of checking one expected header.
pub enum HeaderCheck {
    Matched,
    /// The header is there with another value, given here.
    Mismatched(String),
    Missing,
}

pub open spec fn header_check_is(c: HeaderCheck, actual: Seq<(String, String)>, name: Seq<char>, expected: Seq<char>) -> bool {
    match header_value(actual, name) {
        None => c is Missing,
        Some(v) => if v == expected {
            c is Matched
        } else {
            c matches HeaderCheck::Mismatched(a) && a@ == v
        },
    }
}

/// Checks one expected header against the actual ones.
pub fn check_header(actual: &Vec<(String, String)>, name: &String, expected: &String) -> (r: HeaderCheck)
    ensures
        header_check_is(r, actual@, name@, expected@),
{
    match find_header(actual, name) {
        None => HeaderCheck::Missing,
        Some(i) => if actual[i].1 == *expected {
            HeaderCheck::Matched
        } else {
            HeaderCheck::Mismatched(actual[i].1.clone())
        },
    }
}

/// Checks each expected header, in order, naming each.
pub fn check_headers(expected: &Vec<(String, String)>, actual: &Vec<(String, String)>) -> (r: Vec<(String, HeaderCheck)>)
    ensures
        r@.len() == expected@.len(),
        forall|i: int| 0 <= i < r@.len() ==> (#[trigger] r@[i]).0@ == expected@[i].0@
            && header_check_is(r@[i].1, actual@, expected@[i].0@, expected@[i].1@),
{
    let mut out: Vec<(String, HeaderCheck)> = Vec::new();
    let mut i: usize = 0;
    while i < expected.len()
        invariant
            i <= expected@.len(),
            out@.len() == i,
            forall|k: int| 0 <= k < i ==> (#[trigger] out@[k]).0@ == expected@[k].0@
                && header_check_is(out@[k].1, actual@, expected@[k].0@, expected@[k].1@),
        decreases expected.len() - i,
    {
        let c = check_header(actual, &expected[i].0, &expected[i].1);
        out.push((expected[i].0.clone(), c));
        i += 1;
    }
    out
}

/// The outcome of checking the body.
#[derive(PartialEq, Eq, Structural, Clone, Copy, Debug)]
pub enum BodyCheck {
    Matched,
    Mismatched,
    /// The response body is not valid JSON.
    NotJson,
}

pub open spec fn body_check_spec(expected: Option<Json>, actual: Option<Json>) -> Option<BodyCheck> {
    match expected {
        None => None,
        Some(e) => match actual {
            None => Some(BodyCheck::NotJson),
            Some(a) => if json_eq(e, a) {
                Some(BodyCheck::Matched)
            } else {
                Some(BodyCheck::Mismatched)
            },
        },
    }
}

/// Checks the body only when one is expected, by structural equality.
pub fn check_body(expected: &Option<Json>, actual: &Option<Json>) -> (r: Option<BodyCheck>)
    ensures
        r == body_check_spec(*expected, *actual),
{
    match expected {
        None => None,
        Some(e) => match actual {
            None => Some(BodyCheck::NotJson),
            Some(a) => if json_equal(e, a) {
                Some(BodyCheck::Matched)
            } else {
                Some(BodyCheck::Mismatched)
            },
        },
    }
}

/// All the checks of one response against its expectation.
pub struct Validation {
    pub status_match: bool,
    /// One entry per expected header, in the expectation's order; empty when
    /// no headers are expected.
    pub headers: Vec<(String, HeaderCheck)>,
    pub body: Option<BodyCheck>,
}

pub open spec fn headers_checked(v: Validation, expected: ExpectedResponse, actual: Response) -> bool {
    match expected.headers {
        None => v.headers@.len() == 0,
        Some(hs) => v.headers@.len() == hs@.len() && forall|i: int|
            0 <= i < hs@.len() ==> (#[trigger] v.headers@[i]).0@ == hs@[i].0@ && header_check_is(
                v.headers@[i].1,
                actual.headers@,
                hs@[i].0@,
                hs@[i].1@,
            ),
    }
}

/// The validation succeeded: status equal, every checked header matched, and
/// the body matched when checked.
pub open spec fn validation_ok(v: Validation) -> bool {
    &&& v.status_match
    &&& forall|i: int| 0 <= i < v.headers@.len() ==> (#[trigger] v.headers@[i]).1 is Matched
    &&& (v.body matches Some(b) ==> b == BodyCheck::Matched)
}

/// Compares a response with what was expected of it.
pub fn validate(expected: &ExpectedResponse, actual: &Response) -> (r: Validation)
    ensures
        r.status_match == (expected.status_code == actual.status),
        headers_checked(r, *expected, *actual),
        r.body == body_check_spec(expected.body, actual.body),
{
    let headers = match &expected.headers {
        None => Vec::new(),
        Some(hs) => check_headers(hs, &actual.headers),
    };
    Validation {
        status_match: expected.status_code == actual.status,
        headers,
        body: check_body(&expected.body, &actual.body),
    }
}

/// Whether every check of a validation passed.
pub fn validation_passed(v: &Validation) -> (r: bool)
    ensures
        r == validation_ok(*v),
{
    if !v.status_match {
        return false;
    }
    let mut i: usize = 0;
    while i < v.headers.len()
        invariant
            i <= v.headers@.len(),
            forall|k: int| 0 <= k < i ==> (#[trigger] v.headers@[k]).1 is Matched,
        decreases v.headers.len() - i,
    {
        match v.headers[i].1 {
            HeaderCheck::Matched => {},
            _ => return false,
        }
        i += 1;
    }
    match v.body {
        Some(BodyCheck::Matched) | None => true,
        _ => false,
    }
}

} // verus!

verus! {

/// Header names are compared without regard to ASCII case: an expected header
/// is matched by the first actual header whose name equals it up to case,
/// when that header carries the expected value.
pub proof fn lemma_header_case_insensitive(
    actual: Seq<(String, String)>,
    name: Seq<char>,
    expected: Seq<char>,
    i: int,
    c: HeaderCheck,
)
    requires
        0 <= i < actual.len(),
        seq_eq_fold(actual[i].0@, name),
        forall|j: int| 0 <= j < i ==> !seq_eq_fold((#[trigger] actual[j]).0@, name),
        actual[i].1@ == expected,
        header_check_is(c, actual, name, expected),
    ensures
        c is Matched,
{
    lemma_first_header(actual, name, i);
}

} // verus!
