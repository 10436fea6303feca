//! JSON values and structural equality.
use vstd::prelude::*;

verus! {

/// A JSON number as the parser reports it: a non-negative integer, a negative
/// integer, or any other number kept in its textual form.
pub enum Number {
    Pos(u64),
    Neg(i64),
    Float(String),
}

/// A parsed JSON value. Object members keep the order in which they were read.
pub enum Json {
    Null,
    Bool(bool),
    Num(Number),
    Str(String),
    Array(Vec<Json>),
    Object(Vec<(String, Json)>),
}

/// The integer value of an integral number.
pub open spec fn number_int(n: Number) -> Option<int> {
    match n {
        Number::Pos(u) => Some(u as int),
        Number::Neg(i) => Some(i as int),
        Number::Float(_) => None,
    }
}

/// Numbers are equal when they are of the same kind with the same value.
pub open spec fn number_eq(a: Number, b: Number) -> bool {
    match (a, b) {
        (Number::Pos(x), Number::Pos(y)) => x == y,
        (Number::Neg(x), Number::Neg(y)) => x == y,
        (Number::Float(x), Number::Float(y)) => x@ == y@,
        _ => false,
    }
}

/// Some member of `ms` is named `k`.
pub open spec fn has_member(ms: Seq<(String, Json)>, k: Seq<char>) -> bool {
    exists|i: int| 0 <= i < ms.len() && (#[trigger] ms[i]).0@ == k
}

/// `i` is the position of the first member of `ms` named `k`.
pub open spec fn is_first_member(ms: Seq<(String, Json)>, k: Seq<char>, i: int) -> bool {
    0 <= i < ms.len() && ms[i].0@ == k && forall|j: int| 0 <= j < i ==> (#[trigger] ms[j]).0@ != k
}

/// The position of the first member of `ms` named `k`, when there is one.
pub open spec fn first_member(ms: Seq<(String, Json)>, k: Seq<char>) -> int {
    choose|i: int| is_first_member(ms, k, i)
}

/// The first member named `k` determines the lookup.
pub proof fn lemma_first_member(ms: Seq<(String, Json)>, k: Seq<char>, i: int)
    requires
        is_first_member(ms, k, i),
    ensures
        first_member(ms, k) == i,
        has_member(ms, k),
{
    let c = first_member(ms, k);
    assert(is_first_member(ms, k, c));
    if c < i {
        assert(ms[c].0@ != k);
    } else if c > i {
        assert(ms[i].0@ != k);
    }
}

/// Position of the first member of `ms` named `k`.
pub fn find_member(ms: &Vec<(String, Json)>, k: &String) -> (r: Option<usize>)
    ensures
        r is Some <==> has_member(ms@, k@),
        r matches Some(i) ==> is_first_member(ms@, k@, i as int) && first_member(ms@, k@) == i,
{
    let mut i: usize = 0;
    while i < ms.len()
        invariant
            i <= ms@.len(),
            forall|j: int| 0 <= j < i ==> (#[trigger] ms@[j]).0@ != k@,
        decreases ms.len() - i,
    {
        if ms[i].0 == *k {
            proof { lemma_first_member(ms@, k@, i as int); }
            return Some(i);
        }
        i += 1;
    }
    None
}

/// Structural equality: object member order is ignored, array order and
/// scalar types are respected.
pub open spec fn json_eq(a: Json, b: Json) -> bool
    decreases a,
{
    match (a, b) {
        (Json::Null, Json::Null) => true,
        (Json::Bool(x), Json::Bool(y)) => x == y,
        (Json::Num(x), Json::Num(y)) => number_eq(x, y),
        (Json::Str(x), Json::Str(y)) => x@ == y@,
        (Json::Array(xs), Json::Array(ys)) => xs@.len() == ys@.len() && forall|i: int|
            0 <= i < xs@.len() ==> json_eq(#[trigger] xs@[i], ys@[i]),
        (Json::Object(xs), Json::Object(ys)) => xs@.len() == ys@.len() && forall|i: int|
            #![trigger xs@[i]]
            0 <= i < xs@.len() ==> has_member(ys@, xs@[i].0@) && json_eq(
                xs@[i].1,
                ys@[first_member(ys@, xs@[i].0@)].1,
            ),
        _ => false,
    }
}

proof fn lemma_array_item_decreases(a: Json, i: int)
    requires
        a is Array,
        0 <= i < a->Array_0@.len(),
    ensures
        decreases_to!(a => a->Array_0@[i]),
{
    assert(decreases_to!(a => a->Array_0));
    assert(decreases_to!(a->Array_0 => a->Array_0@));
    assert(decreases_to!(a->Array_0@ => a->Array_0@[i]));
}

proof fn lemma_member_decreases(a: Json, i: int)
    requires
        a is Object,
        0 <= i < a->Object_0@.len(),
    ensures
        decreases_to!(a => a->Object_0@[i].1),
{
    assert(decreases_to!(a => a->Object_0));
    assert(decreases_to!(a->Object_0 => a->Object_0@));
    assert(decreases_to!(a->Object_0@ => a->Object_0@[i]));
    assert(decreases_to!(a->Object_0@[i] => a->Object_0@[i].1));
}

pub fn number_equal(a: &Number, b: &Number) -> (r: bool)
    ensures
        r == number_eq(*a, *b),
{
    match (a, b) {
        (Number::Pos(x), Number::Pos(y)) => *x == *y,
        (Number::Neg(x), Number::Neg(y)) => *x == *y,
        (Number::Float(x), Number::Float(y)) => *x == *y,
        _ => false,
    }
}

/// Structural equality of two JSON values.
pub fn json_equal(a: &Json, b: &Json) -> (r: bool)
    ensures
        r == json_eq(*a, *b),
    decreases *a,
{
    match (a, b) {
        (Json::Null, Json::Null) => true,
        (Json::Bool(x), Json::Bool(y)) => *x == *y,
        (Json::Num(x), Json::Num(y)) => number_equal(x, y),
        (Json::Str(x), Json::Str(y)) => *x == *y,
        (Json::Array(xs), Json::Array(ys)) => {
            if xs.len() != ys.len() {
                return false;
            }
            let mut i: usize = 0;
            while i < xs.len()
                invariant
                    xs@.len() == ys@.len(),
                    i <= xs@.len(),
                    *a == Json::Array(*xs),
                    *b == Json::Array(*ys),
                    forall|k: int| 0 <= k < i ==> json_eq(#[trigger] xs@[k], ys@[k]),
                decreases xs.len() - i,
            {
                proof { lemma_array_item_decreases(*a, i as int); }
                if !json_equal(&xs[i], &ys[i]) {
                    return false;
                }
                i += 1;
            }
            true
        },
        (Json::Object(xs), Json::Object(ys)) => {
            if xs.len() != ys.len() {
                return false;
            }
            let mut i: usize = 0;
            while i < xs.len()
                invariant
                    xs@.len() == ys@.len(),
                    i <= xs@.len(),
                    *a == Json::Object(*xs),
                    *b == Json::Object(*ys),
                    forall|k: int|
                        #![trigger xs@[k]]
                        0 <= k < i ==> has_member(ys@, xs@[k].0@) && json_eq(
                            xs@[k].1,
                            ys@[first_member(ys@, xs@[k].0@)].1,
                        ),
                decreases xs.len() - i,
            {
                proof { lemma_member_decreases(*a, i as int); }
                match find_member(ys, &xs[i].0) {
                    None => {
                        assert(!json_eq(*a, *b)) by {
                            assert(xs@[i as int] == xs@[i as int]);
                        }
                        return false;
                    },
                    Some(j) => {
                        if !json_equal(&xs[i].1, &ys[j].1) {
                            assert(!json_eq(*a, *b)) by {
                                assert(xs@[i as int] == xs@[i as int]);
                            }
                            return false;
                        }
                    },
                }
                i += 1;
            }
            true
        },
        _ => false,
    }
}

} // verus!
