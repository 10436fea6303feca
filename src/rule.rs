//! Predicate rules: `<path> <operator> [<literal>]`, parsed once at load time.
use vstd::prelude::*;
use crate::json::{Json, Number, json_eq};
use crate::text::{chars_of, string_of};

verus! {

/// Where a rule looks in a response.
pub enum Path {
    /// The status code.
    Status,
    /// A header, looked up by name without regard to ASCII case.
    Header(String),
    /// A location inside the parsed body: object keys or array indices.
    Body(Vec<String>),
}

#[derive(PartialEq, Eq, Structural, Clone, Copy, Debug)]
pub enum Op {
    Eq,
    Ne,
    Gt,
    Lt,
    Contains,
    Exists,
}

/// A parsed rule; `literal` is absent exactly for `exists`.
pub struct Rule {
    pub path: Path,
    pub op: Op,
    pub literal: Option<Json>,
}

/// Relies on `<i64 as FromStr>::from_str`: an optional sign followed by one or
/// more ASCII digits, whose value fits in an `i64`.
#[verifier::external_body]
pub(crate) fn parse_i64(s: &str) -> (r: Option<i64>)
    ensures
        r == (match int_text_value(s@) {
            Some(v) => if i64::MIN <= v <= i64::MAX {
                Some(v as i64)
            } else {
                None
            },
            None => None,
        }),
{
    s.parse::<i64>().ok()
}

pub open spec fn is_digit(c: char) -> bool {
    '0' <= c && c <= '9'
}

pub open spec fn all_digits(s: Seq<char>) -> bool {
    s.len() > 0 && forall|i: int| 0 <= i < s.len() ==> is_digit(#[trigger] s[i])
}

/// The value of a string of decimal digits.
pub open spec fn digits_value(s: Seq<char>) -> int
    decreases s.len(),
{
    if s.len() == 0 {
        0
    } else {
        digits_value(s.drop_last()) * 10 + (s.last() as int - '0' as int)
    }
}

/// The value of a decimal integer written with an optional sign.
pub open spec fn int_text_value(s: Seq<char>) -> Option<int> {
    if s.len() > 0 && s[0] == '-' && all_digits(s.drop_first()) {
        Some(-digits_value(s.drop_first()))
    } else if s.len() > 0 && s[0] == '+' && all_digits(s.drop_first()) {
        Some(digits_value(s.drop_first()))
    } else if all_digits(s) {
        Some(digits_value(s))
    } else {
        None
    }
}

/// The first position at or after `i` that holds `c`, or the length of `t`.
pub open spec fn index_from(t: Seq<char>, i: int, c: char) -> int
    decreases t.len() - i,
{
    if i >= t.len() {
        t.len() as int
    } else if t[i] == c {
        i
    } else {
        index_from(t, i + 1, c)
    }
}

/// The pieces of `t` from position `i` on, separated by `c`.
pub open spec fn pieces_from(t: Seq<char>, i: int, c: char) -> Seq<Seq<char>>
    decreases t.len() - i,
{
    let j = index_from(t, i, c);
    if i < 0 || i > t.len() || j < i || j >= t.len() {
        seq![t.subrange(i, t.len() as int)]
    } else {
        seq![t.subrange(i, j)] + pieces_from(t, j + 1, c)
    }
}

/// The position just after `w` when `t` starts with `w` and goes on past it.
pub open spec fn has_prefix(t: Seq<char>, w: Seq<char>) -> bool {
    t.len() > w.len() && t.subrange(0, w.len() as int) == w
}

pub open spec fn path_valid(s: Seq<char>) -> bool {
    s == "status"@ || has_prefix(s, "headers."@) || s == "body"@ || has_prefix(s, "body."@)
}

/// `p` is what the path text `s` denotes.
pub open spec fn path_matches(p: Path, s: Seq<char>) -> bool {
    if s == "status"@ {
        p is Status
    } else if has_prefix(s, "headers."@) {
        p matches Path::Header(n) && n@ == s.subrange("headers."@.len() as int, s.len() as int)
    } else if s == "body"@ {
        p matches Path::Body(v) && v@.len() == 0
    } else if has_prefix(s, "body."@) {
        p matches Path::Body(v) && v@.map_values(|x: String| x@) == pieces_from(
            s,
            "body."@.len() as int,
            '.',
        )
    } else {
        false
    }
}

pub open spec fn op_of(s: Seq<char>) -> Option<Op> {
    if s == "=="@ {
        Some(Op::Eq)
    } else if s == "!="@ {
        Some(Op::Ne)
    } else if s == ">"@ {
        Some(Op::Gt)
    } else if s == "<"@ {
        Some(Op::Lt)
    } else if s == "contains"@ {
        Some(Op::Contains)
    } else if s == "exists"@ {
        Some(Op::Exists)
    } else {
        None
    }
}

pub open spec fn is_quoted(s: Seq<char>) -> bool {
    s.len() >= 2 && s[0] == '"' && s.last() == '"'
}

pub open spec fn fits_i64(v: int) -> bool {
    i64::MIN <= v <= i64::MAX
}

pub open spec fn literal_valid(s: Seq<char>) -> bool {
    s == "null"@ || s == "true"@ || s == "false"@ || is_quoted(s) || (int_text_value(s) matches Some(
        v,
    ) && fits_i64(v))
}

/// `j` is the JSON value that the literal text `s` denotes; a non-negative
/// integer is a `Pos` number and a negative one a `Neg` number.
pub open spec fn literal_matches(j: Json, s: Seq<char>) -> bool {
    if s == "null"@ {
        j is Null
    } else if s == "true"@ {
        j == Json::Bool(true)
    } else if s == "false"@ {
        j == Json::Bool(false)
    } else if is_quoted(s) {
        j matches Json::Str(x) && x@ == s.subrange(1, s.len() - 1)
    } else {
        match int_text_value(s) {
            Some(v) => fits_i64(v) && if v >= 0 {
                j matches Json::Num(Number::Pos(u)) && u as int == v
            } else {
                j matches Json::Num(Number::Neg(n)) && n as int == v
            },
            None => false,
        }
    }
}

/// End of the path text of rule text `s`.
pub open spec fn path_end(s: Seq<char>) -> int {
    index_from(s, 0, ' ')
}

/// End of the operator text of rule text `s`.
pub open spec fn op_end(s: Seq<char>) -> int {
    index_from(s, path_end(s) + 1, ' ')
}

pub open spec fn op_text(s: Seq<char>) -> Seq<char> {
    s.subrange(path_end(s) + 1, op_end(s))
}

/// The literal text of rule text `s`: all that follows the operator's space.
pub open spec fn literal_text(s: Seq<char>) -> Option<Seq<char>> {
    if op_end(s) < s.len() {
        Some(s.subrange(op_end(s) + 1, s.len() as int))
    } else {
        None
    }
}

/// The rule text is well formed: a path, a space, an operator, and for every
/// operator but `exists` a space and a literal.
pub open spec fn rule_valid(s: Seq<char>) -> bool {
    &&& path_end(s) < s.len()
    &&& path_valid(s.subrange(0, path_end(s)))
    &&& op_of(op_text(s)) is Some
    &&& (op_of(op_text(s)) == Some(Op::Exists) <==> literal_text(s) is None)
    &&& (literal_text(s) matches Some(l) ==> literal_valid(l))
}

/// `r` is the rule that the well-formed text `s` denotes.
pub open spec fn rule_matches(r: Rule, s: Seq<char>) -> bool {
    &&& path_matches(r.path, s.subrange(0, path_end(s)))
    &&& op_of(op_text(s)) == Some(r.op)
    &&& match literal_text(s) {
        Some(l) => r.literal matches Some(j) && literal_matches(j, l),
        None => r.literal is None,
    }
}

pub fn chars_equal(a: &Vec<char>, b: &Vec<char>) -> (r: bool)
    ensures
        r == (a@ == b@),
{
    if a.len() != b.len() {
        return false;
    }
    let mut i: usize = 0;
    while i < a.len()
        invariant
            a@.len() == b@.len(),
            i <= a@.len(),
            forall|k: int| 0 <= k < i ==> a@[k] == b@[k],
        decreases a.len() - i,
    {
        if a[i] != b[i] {
            return false;
        }
        i += 1;
    }
    assert(a@ =~= b@);
    true
}

/// `t` holds exactly the characters of `w`.
pub fn is_word_of(t: &Vec<char>, w: &str) -> (r: bool)
    ensures
        r == (t@ == w@),
{
    let wc = chars_of(w);
    chars_equal(t, &wc)
}

/// The characters of `t` from `a` up to `b`.
pub fn sub_chars(t: &Vec<char>, a: usize, b: usize) -> (r: Vec<char>)
    requires
        a <= b <= t@.len(),
    ensures
        r@ == t@.subrange(a as int, b as int),
{
    let mut out: Vec<char> = Vec::new();
    let mut k = a;
    while k < b
        invariant
            a <= k <= b,
            b <= t@.len(),
            out@ == t@.subrange(a as int, k as int),
        decreases b - k,
    {
        out.push(t[k]);
        assert(out@ =~= t@.subrange(a as int, k + 1));
        k += 1;
    }
    out
}

/// Position of the first `c` at or after `i`, or the length of `t`.
pub fn index_of_char(t: &Vec<char>, i: usize, c: char) -> (r: usize)
    requires
        i <= t@.len(),
    ensures
        r as int == index_from(t@, i as int, c),
        i <= r <= t@.len(),
{
    let mut j = i;
    while j < t.len() && t[j] != c
        invariant
            i <= j <= t@.len(),
            index_from(t@, i as int, c) == index_from(t@, j as int, c),
        decreases t.len() - j,
    {
        j += 1;
    }
    j
}

/// `t` starts with `w` and goes on past it.
fn starts_with_word(t: &Vec<char>, w: &str) -> (r: Option<usize>)
    ensures
        r is Some <==> has_prefix(t@, w@),
        r matches Some(n) ==> n == w@.len(),
{
    let wc = chars_of(w);
    if t.len() <= wc.len() {
        return None;
    }
    let head = sub_chars(t, 0, wc.len());
    if chars_equal(&head, &wc) {
        Some(wc.len())
    } else {
        None
    }
}

/// The pieces of `t` from position `i` on, separated by `c`.
pub fn split_chars(t: &Vec<char>, i: usize, c: char) -> (r: Vec<String>)
    requires
        i <= t@.len(),
    ensures
        r@.map_values(|x: String| x@) == pieces_from(t@, i as int, c),
{
    let mut out: Vec<String> = Vec::new();
    let mut k = i;
    loop
        invariant
            i <= k <= t@.len(),
            out@.map_values(|x: String| x@) + pieces_from(t@, k as int, c) == pieces_from(
                t@,
                i as int,
                c,
            ),
        decreases t@.len() - k,
    {
        let j = index_of_char(t, k, c);
        let piece = string_of(&sub_chars(t, k, j));
        let ghost before = out@.map_values(|x: String| x@);
        out.push(piece);
        assert(out@.map_values(|x: String| x@) =~= before.push(piece@));
        if j >= t.len() {
            assert(before + pieces_from(t@, k as int, c) =~= out@.map_values(|x: String| x@));
            return out;
        }
        assert(before + pieces_from(t@, k as int, c) =~= out@.map_values(|x: String| x@)
            + pieces_from(t@, j + 1, c));
        k = j + 1;
    }
}

/// Reads the path text of a rule.
pub fn parse_path(t: &Vec<char>) -> (r: Option<Path>)
    ensures
        r is Some <==> path_valid(t@),
        r matches Some(p) ==> path_matches(p, t@),
{
    if is_word_of(t, "status") {
        return Some(Path::Status);
    }
    match starts_with_word(t, "headers.") {
        Some(n) => {
            return Some(Path::Header(string_of(&sub_chars(t, n, t.len()))));
        },
        None => {},
    }
    if is_word_of(t, "body") {
        let v: Vec<String> = Vec::new();
        return Some(Path::Body(v));
    }
    match starts_with_word(t, "body.") {
        Some(n) => Some(Path::Body(split_chars(t, n, '.'))),
        None => None,
    }
}

pub fn parse_op(t: &Vec<char>) -> (r: Option<Op>)
    ensures
        r == op_of(t@),
{
    if is_word_of(t, "==") {
        Some(Op::Eq)
    } else if is_word_of(t, "!=") {
        Some(Op::Ne)
    } else if is_word_of(t, ">") {
        Some(Op::Gt)
    } else if is_word_of(t, "<") {
        Some(Op::Lt)
    } else if is_word_of(t, "contains") {
        Some(Op::Contains)
    } else if is_word_of(t, "exists") {
        Some(Op::Exists)
    } else {
        None
    }
}

/// Reads a literal: `null`, `true`, `false`, a double-quoted string, or a
/// decimal integer.
pub fn parse_literal(t: &Vec<char>) -> (r: Option<Json>)
    ensures
        r is Some <==> literal_valid(t@),
        r matches Some(j) ==> literal_matches(j, t@),
{
    if is_word_of(t, "null") {
        Some(Json::Null)
    } else if is_word_of(t, "true") {
        Some(Json::Bool(true))
    } else if is_word_of(t, "false") {
        Some(Json::Bool(false))
    } else if t.len() >= 2 && t[0] == '"' && t[t.len() - 1] == '"' {
        Some(Json::Str(string_of(&sub_chars(t, 1, t.len() - 1))))
    } else {
        let s = string_of(t);
        match parse_i64(s.as_str()) {
            Some(v) => if v >= 0 {
                Some(Json::Num(Number::Pos(v as u64)))
            } else {
                Some(Json::Num(Number::Neg(v)))
            },
            None => None,
        }
    }
}

/// Parses rule text. `None` exactly when the text is not a well-formed rule.
pub fn parse_rule(s: &str) -> (r: Option<Rule>)
    ensures
        r is Some <==> rule_valid(s@),
        r matches Some(rule) ==> rule_matches(rule, s@),
{
    let t = chars_of(s);
    let p = index_of_char(&t, 0, ' ');
    if p >= t.len() {
        return None;
    }
    let path = match parse_path(&sub_chars(&t, 0, p)) {
        Some(path) => path,
        None => return None,
    };
    let q = index_of_char(&t, p + 1, ' ');
    let op = match parse_op(&sub_chars(&t, p + 1, q)) {
        Some(op) => op,
        None => return None,
    };
    if q >= t.len() {
        match op {
            Op::Exists => Some(Rule { path, op, literal: None }),
            _ => None,
        }
    } else {
        match op {
            Op::Exists => None,
            _ => match parse_literal(&sub_chars(&t, q + 1, t.len())) {
                Some(lit) => Some(Rule { path, op, literal: Some(lit) }),
                None => None,
            },
        }
    }
}

} // verus!

verus! {

/// Two paths that denote the same location.
pub open spec fn same_path(a: Path, b: Path) -> bool {
    match (a, b) {
        (Path::Status, Path::Status) => true,
        (Path::Header(x), Path::Header(y)) => x@ == y@,
        (Path::Body(x), Path::Body(y)) => x@.map_values(|s: String| s@) == y@.map_values(
            |s: String| s@,
        ),
        _ => false,
    }
}

/// Two rules that are structurally identical.
pub open spec fn same_rule(a: Rule, b: Rule) -> bool {
    &&& same_path(a.path, b.path)
    &&& a.op == b.op
    &&& match (a.literal, b.literal) {
        (None, None) => true,
        (Some(x), Some(y)) => json_eq(x, y),
        _ => false,
    }
}

/// Reading the same rule text twice gives structurally identical rules.
pub proof fn lemma_rule_parse_deterministic(s: Seq<char>, a: Rule, b: Rule)
    requires
        rule_matches(a, s),
        rule_matches(b, s),
    ensures
        same_rule(a, b),
{
    let pt = s.subrange(0, path_end(s));
    if pt == "body"@ && !("status"@ == pt) && !has_prefix(pt, "headers."@) {
        assert(a.path->Body_0@.map_values(|x: String| x@) =~= b.path->Body_0@.map_values(
            |x: String| x@,
        ));
    }
}

} // verus!
