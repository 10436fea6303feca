//! Substitution of `{{name}}` tokens from a suite's variable bindings.
use vstd::prelude::*;
use crate::text::{chars_of, string_of};

verus! {

/// The value bound to `name`: the first binding of that name wins.
pub open spec fn binding_of(vars: Seq<(String, String)>, name: Seq<char>) -> Option<Seq<char>>
    decreases vars.len(),
{
    if vars.len() == 0 {
        None
    } else if vars[0].0@ == name {
        Some(vars[0].1@)
    } else {
        binding_of(vars.drop_first(), name)
    }
}

pub open spec fn is_brace(c: char) -> bool {
    c == '{' || c == '}'
}

/// The first position at or after `i` that holds a brace, or the length of `t`.
pub open spec fn brace_run(t: Seq<char>, i: int) -> int
    decreases t.len() - i,
{
    if i >= t.len() {
        t.len() as int
    } else if is_brace(t[i]) {
        i
    } else {
        brace_run(t, i + 1)
    }
}

/// The name of the token `{{name}}` that starts at position `i` of `t`, if one
/// does; a name holds no brace.
pub open spec fn token_name(t: Seq<char>, i: int) -> Option<Seq<char>> {
    if 0 <= i && i + 1 < t.len() && t[i] == '{' && t[i + 1] == '{' {
        let j = brace_run(t, i + 2);
        if i + 2 <= j && j + 1 < t.len() && t[j] == '}' && t[j + 1] == '}' {
            Some(t.subrange(i + 2, j))
        } else {
            None
        }
    } else {
        None
    }
}

/// Left-to-right substitution from position `i` on: a token whose name is
/// bound is replaced by the bound value; every other character is copied.
pub open spec fn resolve_from(t: Seq<char>, i: int, vars: Seq<(String, String)>) -> Seq<char>
    decreases t.len() - i,
{
    if i < 0 || i >= t.len() {
        Seq::empty()
    } else {
        match token_name(t, i) {
            Some(name) => match binding_of(vars, name) {
                Some(v) => v + resolve_from(t, i + name.len() + 4, vars),
                None => seq![t[i]] + resolve_from(t, i + 1, vars),
            },
            None => seq![t[i]] + resolve_from(t, i + 1, vars),
        }
    }
}

/// `t` with every bound token replaced; unbound tokens stay verbatim.
pub open spec fn resolve_spec(t: Seq<char>, vars: Seq<(String, String)>) -> Seq<char> {
    resolve_from(t, 0, vars)
}

/// The value bound to `name` in `vars`, if any.
pub fn lookup_variable<'a>(vars: &'a Vec<(String, String)>, name: &Vec<char>) -> (r: Option<&'a String>)
    ensures
        r matches Some(v) ==> binding_of(vars@, name@) == Some(v@),
        r is None ==> binding_of(vars@, name@) is None,
{
    let key = string_of(name);
    let mut i: usize = 0;
    assert(vars@.subrange(0, vars@.len() as int) =~= vars@);
    while i < vars.len()
        invariant
            i <= vars@.len(),
            key@ == name@,
            binding_of(vars@, name@) == binding_of(vars@.subrange(i as int, vars@.len() as int), name@),
        decreases vars.len() - i,
    {
        let ghost rest = vars@.subrange(i as int, vars@.len() as int);
        assert(rest.drop_first() =~= vars@.subrange(i + 1, vars@.len() as int));
        if vars[i].0 == key {
            return Some(&vars[i].1);
        }
        i += 1;
    }
    None
}

/// Position of the first brace at or after `i`, or the length of `t`.
fn scan_name(t: &Vec<char>, i: usize) -> (r: usize)
    requires
        i <= t@.len(),
    ensures
        r as int == brace_run(t@, i as int),
        i <= r <= t@.len(),
{
    let mut j = i;
    while j < t.len() && t[j] != '{' && t[j] != '}'
        invariant
            i <= j <= t@.len(),
            brace_run(t@, i as int) == brace_run(t@, j as int),
        decreases t.len() - j,
    {
        j += 1;
    }
    j
}

/// The token that starts at position `i` of `t`, as its name and the position
/// just after it.
fn token_at(t: &Vec<char>, i: usize) -> (r: Option<(Vec<char>, usize)>)
    requires
        i < t@.len(),
    ensures
        match r {
            Some((name, next)) => token_name(t@, i as int) == Some(name@) && next == i + name@.len()
                + 4 && next <= t@.len(),
            None => token_name(t@, i as int) is None,
        },
{
    if i < t.len() - 1 && t[i] == '{' && t[i + 1] == '{' {
        let j = scan_name(t, i + 2);
        if j < t.len() - 1 && t[j] == '}' && t[j + 1] == '}' {
            let mut name: Vec<char> = Vec::new();
            let mut k = i + 2;
            while k < j
                invariant
                    i + 2 <= k <= j,
                    j < t@.len(),
                    name@ == t@.subrange(i + 2, k as int),
                decreases j - k,
            {
                name.push(t[k]);
                assert(name@ =~= t@.subrange(i + 2, k + 1));
                k += 1;
            }
            return Some((name, j + 2));
        }
    }
    None
}

/// Replaces every `{{name}}` token of `template` whose name is bound in
/// `variables` by its value; tokens of unbound names are left as they are.
/// The bindings are only read.
pub fn resolve_variables(template: &str, variables: &Vec<(String, String)>) -> (r: String)
    ensures
        r@ == resolve_spec(template@, variables@),
{
    let t = chars_of(template);
    let mut out: Vec<char> = Vec::new();
    let mut i: usize = 0;
    while i < t.len()
        invariant
            t@ == template@,
            i <= t@.len(),
            resolve_spec(t@, variables@) == out@ + resolve_from(t@, i as int, variables@),
        decreases t.len() - i,
    {
        let ghost before = out@;
        match token_at(&t, i) {
            Some((name, next)) => match lookup_variable(variables, &name) {
                Some(v) => {
                    let vc = chars_of(v.as_str());
                    let mut k: usize = 0;
                    while k < vc.len()
                        invariant
                            k <= vc@.len(),
                            out@ == before + vc@.subrange(0, k as int),
                        decreases vc.len() - k,
                    {
                        out.push(vc[k]);
                        assert(out@ =~= before + vc@.subrange(0, k + 1));
                        k += 1;
                    }
                    assert(vc@.subrange(0, vc@.len() as int) =~= vc@);
                    assert(out@ + resolve_from(t@, next as int, variables@) =~= before + (v@
                        + resolve_from(t@, next as int, variables@)));
                    i = next;
                },
                None => {
                    out.push(t[i]);
                    assert(out@ + resolve_from(t@, i + 1, variables@) =~= before + (seq![t@[i as int]]
                        + resolve_from(t@, i + 1, variables@)));
                    i += 1;
                },
            },
            None => {
                out.push(t[i]);
                assert(out@ + resolve_from(t@, i + 1, variables@) =~= before + (seq![t@[i as int]]
                    + resolve_from(t@, i + 1, variables@)));
                i += 1;
            },
        }
    }
    assert(out@ + resolve_from(t@, i as int, variables@) =~= out@);
    string_of(&out)
}

} // verus!

verus! {

/// No bound value holds a brace.
pub open spec fn values_brace_free(vars: Seq<(String, String)>) -> bool {
    forall|i: int, k: int|
        0 <= i < vars.len() && 0 <= k < vars[i].1@.len() ==> !is_brace(#[trigger] vars[i].1@[k])
}

/// Read as the scan reads it from position `i` on, every brace of `t` stands
/// inside a token whose name is bound.
pub open spec fn braces_in_bound_tokens(t: Seq<char>, i: int, vars: Seq<(String, String)>) -> bool
    decreases t.len() - i,
{
    if i < 0 || i >= t.len() {
        true
    } else {
        match token_name(t, i) {
            Some(name) => match binding_of(vars, name) {
                Some(_) => braces_in_bound_tokens(t, i + name.len() + 4, vars),
                None => !is_brace(t[i]) && braces_in_bound_tokens(t, i + 1, vars),
            },
            None => !is_brace(t[i]) && braces_in_bound_tokens(t, i + 1, vars),
        }
    }
}

proof fn lemma_binding_brace_free(vars: Seq<(String, String)>, name: Seq<char>)
    requires
        values_brace_free(vars),
    ensures
        binding_of(vars, name) matches Some(v) ==> forall|k: int| 0 <= k < v.len() ==> !is_brace(#[trigger] v[k]),
    decreases vars.len(),
{
    if vars.len() > 0 && vars[0].0@ != name {
        let rest = vars.drop_first();
        assert forall|i: int, k: int| 0 <= i < rest.len() && 0 <= k < rest[i].1@.len() implies !is_brace(#[trigger] rest[i].1@[k]) by {
            assert(rest[i] == vars[i + 1]);
        }
        lemma_binding_brace_free(rest, name);
    } else if vars.len() > 0 {
        assert forall|k: int| 0 <= k < vars[0].1@.len() implies !is_brace(#[trigger] vars[0].1@[k]) by {
            assert(!is_brace(vars[0].1@[k]));
        }
    }
}

proof fn lemma_resolve_from_brace_free(t: Seq<char>, i: int, vars: Seq<(String, String)>)
    requires
        values_brace_free(vars),
        braces_in_bound_tokens(t, i, vars),
    ensures
        forall|k: int| 0 <= k < resolve_from(t, i, vars).len() ==> !is_brace(#[trigger] resolve_from(t, i, vars)[k]),
    decreases t.len() - i,
{
    if 0 <= i < t.len() {
        match token_name(t, i) {
            Some(name) => {
                lemma_binding_brace_free(vars, name);
                match binding_of(vars, name) {
                    Some(v) => {
                        lemma_resolve_from_brace_free(t, i + name.len() + 4, vars);
                        let rest = resolve_from(t, i + name.len() + 4, vars);
                        assert forall|k: int| 0 <= k < (v + rest).len() implies !is_brace(#[trigger] (v + rest)[k]) by {
                            if k >= v.len() {
                                assert((v + rest)[k] == rest[k - v.len()]);
                            }
                        }
                    },
                    None => {
                        lemma_resolve_from_brace_free(t, i + 1, vars);
                        let rest = resolve_from(t, i + 1, vars);
                        assert forall|k: int| 0 <= k < (seq![t[i]] + rest).len() implies !is_brace(#[trigger] (seq![t[i]] + rest)[k]) by {
                            if k >= 1 {
                                assert((seq![t[i]] + rest)[k] == rest[k - 1]);
                            }
                        }
                    },
                }
            },
            None => {
                lemma_resolve_from_brace_free(t, i + 1, vars);
                let rest = resolve_from(t, i + 1, vars);
                assert forall|k: int| 0 <= k < (seq![t[i]] + rest).len() implies !is_brace(#[trigger] (seq![t[i]] + rest)[k]) by {
                    if k >= 1 {
                        assert((seq![t[i]] + rest)[k] == rest[k - 1]);
                    }
                }
            },
        }
    }
}

/// When no bound value holds a brace and every brace of the template belongs
/// to a token of a bound name, no `{{name}}` token is left after resolution.
pub proof fn lemma_resolution_total(t: Seq<char>, vars: Seq<(String, String)>)
    requires
        values_brace_free(vars),
        braces_in_bound_tokens(t, 0, vars),
    ensures
        forall|p: int| #[trigger] token_name(resolve_spec(t, vars), p) is None,
{
    lemma_resolve_from_brace_free(t, 0, vars);
    let out = resolve_spec(t, vars);
    assert forall|p: int| #[trigger] token_name(out, p) is None by {
        if 0 <= p && p + 1 < out.len() {
            assert(!is_brace(out[p]));
        }
    }
}

} // verus!

verus! {

proof fn lemma_brace_run_free(t: Seq<char>, a: int)
    requires
        0 <= a <= t.len(),
    ensures
        a <= brace_run(t, a) <= t.len(),
        forall|q: int| a <= q < brace_run(t, a) ==> !is_brace(#[trigger] t[q]),
    decreases t.len() - a,
{
    if a < t.len() && !is_brace(t[a]) {
        lemma_brace_run_free(t, a + 1);
    }
}

proof fn lemma_copy_run(t: Seq<char>, p: int, e: int, vars: Seq<(String, String)>)
    requires
        0 <= p <= e <= t.len(),
        forall|q: int| p <= q < e ==> #[trigger] token_name(t, q) is None,
    ensures
        resolve_from(t, p, vars) == t.subrange(p, e) + resolve_from(t, e, vars),
    decreases e - p,
{
    if p < e {
        assert(token_name(t, p) is None);
        lemma_copy_run(t, p + 1, e, vars);
        assert(seq![t[p]] + (t.subrange(p + 1, e) + resolve_from(t, e, vars)) =~= t.subrange(p, e)
            + resolve_from(t, e, vars));
    } else {
        assert(t.subrange(p, e) + resolve_from(t, e, vars) =~= resolve_from(t, e, vars));
    }
}

/// A token whose name is not bound is copied to the output as it stands.
pub proof fn lemma_unbound_token_kept(t: Seq<char>, i: int, vars: Seq<(String, String)>)
    requires
        token_name(t, i) matches Some(name) && binding_of(vars, name) is None,
    ensures
        ({
            let e = i + token_name(t, i)->Some_0.len() + 4;
            resolve_from(t, i, vars) == t.subrange(i, e) + resolve_from(t, e, vars)
        }),
{
    let name = token_name(t, i)->Some_0;
    let j = brace_run(t, i + 2);
    lemma_brace_run_free(t, i + 2);
    let e = j + 2;
    assert forall|q: int| i + 1 <= q < e implies #[trigger] token_name(t, q) is None by {
        if q == i + 1 {
            if i + 2 < j {
                assert(!is_brace(t[i + 2]));
            }
        } else if q < j {
            assert(!is_brace(t[q]));
        }
    }
    lemma_copy_run(t, i + 1, e, vars);
    assert(seq![t[i]] + (t.subrange(i + 1, e) + resolve_from(t, e, vars)) =~= t.subrange(i, e)
        + resolve_from(t, e, vars));
}

} // verus!

verus! {

/// Under the conditions of totality, resolving the result again changes
/// nothing.
pub proof fn lemma_resolution_idempotent(t: Seq<char>, vars: Seq<(String, String)>)
    requires
        values_brace_free(vars),
        braces_in_bound_tokens(t, 0, vars),
    ensures
        resolve_spec(resolve_spec(t, vars), vars) == resolve_spec(t, vars),
{
    lemma_resolution_total(t, vars);
    let out = resolve_spec(t, vars);
    assert forall|q: int| 0 <= q < out.len() implies #[trigger] token_name(out, q) is None by {}
    lemma_copy_run(out, 0, out.len() as int, vars);
    assert(out.subrange(0, out.len() as int) + resolve_from(out, out.len() as int, vars) =~= out);
}

} // verus!
