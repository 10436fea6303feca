//! Evaluation of parsed rules against a fetched response.
use vstd::prelude::*;
use crate::json::{Json, Number, json_eq, json_equal, number_int, has_member, first_member, find_member};
use crate::model::Response;
use crate::rule::{Op, Path, Rule, all_digits, is_digit, digits_value, int_text_value, parse_i64};
use crate::text::{chars_of, chars_contain, seq_contains};
use crate::validate::{find_header, has_header, first_header};

verus! {

#[derive(PartialEq, Eq, Structural, Clone, Copy, Debug)]
pub enum FailReason {
    /// The path does not lead to a value in the response.
    PathNotFound,
    /// The operator does not apply to the value and literal.
    InvalidComparison,
    /// The comparison was made and does not hold.
    NotSatisfied,
}

#[derive(PartialEq, Eq, Structural, Clone, Copy, Debug)]
pub enum Outcome {
    Pass,
    Fail(FailReason),
}

/// Array position named by a path segment: plain decimal digits, in range.
pub open spec fn index_of_segment(seg: Seq<char>, len: int) -> Option<int> {
    if all_digits(seg) && digits_value(seg) < len && digits_value(seg) <= i64::MAX {
        Some(digits_value(seg))
    } else {
        None
    }
}

/// The value found by following `segs` from position `k` on, starting at `v`.
pub open spec fn body_at(v: Json, segs: Seq<Seq<char>>, k: int) -> Option<Json>
    decreases segs.len() - k,
{
    if k < 0 || k >= segs.len() {
        Some(v)
    } else {
        match v {
            Json::Object(ms) => if has_member(ms@, segs[k]) {
                body_at(ms@[first_member(ms@, segs[k])].1, segs, k + 1)
            } else {
                None
            },
            Json::Array(xs) => match index_of_segment(segs[k], xs@.len() as int) {
                Some(n) => body_at(xs@[n], segs, k + 1),
                None => None,
            },
            _ => None,
        }
    }
}

/// Whether the comparison `value op literal` holds, or why it cannot be made.
pub open spec fn compare_spec(value: Json, op: Op, literal: Option<Json>) -> Outcome {
    match op {
        Op::Exists => Outcome::Pass,
        _ => match literal {
            None => Outcome::Fail(FailReason::InvalidComparison),
            Some(l) => match op {
                Op::Eq => if json_eq(value, l) {
                    Outcome::Pass
                } else {
                    Outcome::Fail(FailReason::NotSatisfied)
                },
                Op::Ne => if !json_eq(value, l) {
                    Outcome::Pass
                } else {
                    Outcome::Fail(FailReason::NotSatisfied)
                },
                Op::Gt | Op::Lt => match (value, l) {
                    (Json::Num(a), Json::Num(b)) => match (number_int(a), number_int(b)) {
                        (Some(x), Some(y)) => if (op == Op::Gt && x > y) || (op == Op::Lt && x < y) {
                            Outcome::Pass
                        } else {
                            Outcome::Fail(FailReason::NotSatisfied)
                        },
                        _ => Outcome::Fail(FailReason::InvalidComparison),
                    },
                    _ => Outcome::Fail(FailReason::InvalidComparison),
                },
                _ => match (value, l) {
                    (Json::Str(a), Json::Str(b)) => if seq_contains(a@, b@) {
                        Outcome::Pass
                    } else {
                        Outcome::Fail(FailReason::NotSatisfied)
                    },
                    (Json::Array(xs), _) => if exists|i: int|
                        0 <= i < xs@.len() && json_eq(#[trigger] xs@[i], l) {
                        Outcome::Pass
                    } else {
                        Outcome::Fail(FailReason::NotSatisfied)
                    },
                    _ => Outcome::Fail(FailReason::InvalidComparison),
                },
            },
        },
    }
}

/// The outcome of `rule` on `resp`.
pub open spec fn evaluate_spec(rule: Rule, resp: Response) -> Outcome {
    match rule.path {
        Path::Status => compare_spec(
            Json::Num(Number::Pos(resp.status as u64)),
            rule.op,
            rule.literal,
        ),
        Path::Header(n) => if has_header(resp.headers@, n@) {
            compare_spec(
                Json::Str(resp.headers@[first_header(resp.headers@, n@)].1),
                rule.op,
                rule.literal,
            )
        } else {
            Outcome::Fail(FailReason::PathNotFound)
        },
        Path::Body(segs) => match resp.body {
            None => Outcome::Fail(FailReason::PathNotFound),
            Some(b) => match body_at(b, segs@.map_values(|s: String| s@), 0) {
                None => Outcome::Fail(FailReason::PathNotFound),
                Some(v) => compare_spec(v, rule.op, rule.literal),
            },
        },
    }
}

proof fn lemma_digits_value_nonneg(s: Seq<char>)
    requires
        forall|i: int| 0 <= i < s.len() ==> is_digit(#[trigger] s[i]),
    ensures
        digits_value(s) >= 0,
    decreases s.len(),
{
    if s.len() > 0 {
        lemma_digits_value_nonneg(s.drop_last());
        assert(is_digit(s[s.len() - 1]));
    }
}

/// Array position named by a path segment, if it is one and is in range.
fn segment_index(seg: &String, len: usize) -> (r: Option<usize>)
    ensures
        r matches Some(n) ==> index_of_segment(seg@, len as int) == Some(n as int),
        r is None ==> index_of_segment(seg@, len as int) is None,
{
    let t = chars_of(seg.as_str());
    if t.len() == 0 || t[0] < '0' || t[0] > '9' {
        return None;
    }
    proof {
        if all_digits(seg@) {
            lemma_digits_value_nonneg(seg@);
        }
    }
    match parse_i64(seg.as_str()) {
        Some(v) => {
            if v >= 0 && (v as u64) < (len as u64) {
                Some(v as usize)
            } else {
                None
            }
        },
        None => None,
    }
}

/// Follows a body path through objects and arrays.
pub fn find_in_body<'a>(body: &'a Json, segs: &Vec<String>) -> (r: Option<&'a Json>)
    ensures
        r matches Some(v) ==> body_at(*body, segs@.map_values(|s: String| s@), 0) == Some(*v),
        r is None ==> body_at(*body, segs@.map_values(|s: String| s@), 0) is None,
{
    let ghost sv = segs@.map_values(|s: String| s@);
    let mut cur: &Json = body;
    let mut k: usize = 0;
    while k < segs.len()
        invariant
            k <= segs@.len(),
            sv == segs@.map_values(|s: String| s@),
            body_at(*body, sv, 0) == body_at(*cur, sv, k as int),
        decreases segs.len() - k,
    {
        match cur {
            Json::Object(ms) => match find_member(ms, &segs[k]) {
                Some(j) => {
                    cur = &ms[j].1;
                },
                None => return None,
            },
            Json::Array(xs) => match segment_index(&segs[k], xs.len()) {
                Some(n) => {
                    cur = &xs[n];
                },
                None => return None,
            },
            _ => return None,
        }
        k += 1;
    }
    Some(cur)
}

/// Applies an operator to a found value.
pub fn compare(value: &Json, op: Op, literal: &Option<Json>) -> (r: Outcome)
    ensures
        r == compare_spec(*value, op, *literal),
{
    match op {
        Op::Exists => return Outcome::Pass,
        _ => {},
    }
    let l = match literal {
        None => return Outcome::Fail(FailReason::InvalidComparison),
        Some(l) => l,
    };
    match op {
        Op::Eq => if json_equal(value, l) {
            Outcome::Pass
        } else {
            Outcome::Fail(FailReason::NotSatisfied)
        },
        Op::Ne => if !json_equal(value, l) {
            Outcome::Pass
        } else {
            Outcome::Fail(FailReason::NotSatisfied)
        },
        Op::Gt | Op::Lt => match (value, l) {
            (Json::Num(a), Json::Num(b)) => {
                let (x, y): (i128, i128) = match (a, b) {
                    (Number::Pos(x), Number::Pos(y)) => (*x as i128, *y as i128),
                    (Number::Pos(x), Number::Neg(y)) => (*x as i128, *y as i128),
                    (Number::Neg(x), Number::Pos(y)) => (*x as i128, *y as i128),
                    (Number::Neg(x), Number::Neg(y)) => (*x as i128, *y as i128),
                    _ => return Outcome::Fail(FailReason::InvalidComparison),
                };
                if (op == Op::Gt && x > y) || (op == Op::Lt && x < y) {
                    Outcome::Pass
                } else {
                    Outcome::Fail(FailReason::NotSatisfied)
                }
            },
            _ => Outcome::Fail(FailReason::InvalidComparison),
        },
        _ => match (value, l) {
            (Json::Str(a), Json::Str(b)) => {
                let ac = chars_of(a.as_str());
                let bc = chars_of(b.as_str());
                if chars_contain(&ac, &bc) {
                    Outcome::Pass
                } else {
                    Outcome::Fail(FailReason::NotSatisfied)
                }
            },
            (Json::Array(xs), _) => {
                let mut i: usize = 0;
                while i < xs.len()
                    invariant
                        i <= xs@.len(),
                        *value == Json::Array(*xs),
                        *literal == Some(*l),
                        op == Op::Contains,
                        forall|k: int| 0 <= k < i ==> !json_eq(#[trigger] xs@[k], *l),
                    decreases xs.len() - i,
                {
                    if json_equal(&xs[i], l) {
                        assert(json_eq(xs@[i as int], *l));
                        return Outcome::Pass;
                    }
                    i += 1;
                }
                Outcome::Fail(FailReason::NotSatisfied)
            },
            _ => Outcome::Fail(FailReason::InvalidComparison),
        },
    }
}

/// Evaluates a rule against a response that was already fetched.
pub fn evaluate(rule: &Rule, resp: &Response) -> (r: Outcome)
    ensures
        r == evaluate_spec(*rule, *resp),
{
    match &rule.path {
        Path::Status => {
            let v = Json::Num(Number::Pos(resp.status as u64));
            compare(&v, rule.op, &rule.literal)
        },
        Path::Header(n) => match find_header(&resp.headers, n) {
            None => Outcome::Fail(FailReason::PathNotFound),
            Some(i) => {
                let v = Json::Str(resp.headers[i].1.clone());
                compare(&v, rule.op, &rule.literal)
            },
        },
        Path::Body(segs) => match &resp.body {
            None => Outcome::Fail(FailReason::PathNotFound),
            Some(b) => match find_in_body(b, segs) {
                None => Outcome::Fail(FailReason::PathNotFound),
                Some(v) => compare(v, rule.op, &rule.literal),
            },
        },
    }
}

} // verus!
