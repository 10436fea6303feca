//! Rendering of a request as an equivalent `curl` command line.
use vstd::prelude::*;
use crate::text::{chars_of, string_of};

verus! {

/// One `-H 'name:value' ` flag per header, in order.
pub open spec fn header_flags(hs: Seq<(String, String)>) -> Seq<char>
    decreases hs.len(),
{
    if hs.len() == 0 {
        Seq::empty()
    } else {
        header_flags(hs.drop_last()) + "-H '"@ + hs.last().0@ + ":"@ + hs.last().1@ + "' "@
    }
}

/// `name=value` pairs joined by `&`, in order.
pub open spec fn query_string(qs: Seq<(String, String)>) -> Seq<char>
    decreases qs.len(),
{
    if qs.len() == 0 {
        Seq::empty()
    } else if qs.len() == 1 {
        qs[0].0@ + "="@ + qs[0].1@
    } else {
        query_string(qs.drop_last()) + "&"@ + qs.last().0@ + "="@ + qs.last().1@
    }
}

/// The command line: method, header flags, quoted URL with the query string
/// when there is one, and the body as a `-d` argument when there is one.
pub open spec fn curl_spec(
    method: Seq<char>,
    url: Seq<char>,
    hs: Seq<(String, String)>,
    qs: Seq<(String, String)>,
    body: Option<Seq<char>>,
) -> Seq<char> {
    "curl -X "@ + method + " "@ + header_flags(hs) + (if qs.len() > 0 {
        "'"@ + url + "?"@ + query_string(qs) + "' "@
    } else {
        "'"@ + url + "' "@
    }) + match body {
        Some(b) => "-d '"@ + b + "'"@,
        None => Seq::empty(),
    }
}

/// Appends the characters of `s`.
fn push_str(out: &mut Vec<char>, s: &str)
    ensures
        final(out)@ == old(out)@ + s@,
{
    let w = chars_of(s);
    let ghost start = out@;
    let mut i: usize = 0;
    while i < w.len()
        invariant
            i <= w@.len(),
            w@ == s@,
            out@ == start + w@.subrange(0, i as int),
        decreases w.len() - i,
    {
        out.push(w[i]);
        assert(out@ =~= start + w@.subrange(0, i + 1));
        i += 1;
    }
    assert(w@.subrange(0, w@.len() as int) =~= w@);
}

/// Renders a request as a `curl` command; `body` is the body already written
/// as JSON text.
pub fn curl_command(
    method: &str,
    url: &str,
    headers: &Vec<(String, String)>,
    query: &Vec<(String, String)>,
    body: Option<&str>,
) -> (r: String)
    ensures
        r@ == curl_spec(method@, url@, headers@, query@, match body {
            Some(b) => Some(b@),
            None => None,
        }),
{
    let mut out: Vec<char> = Vec::new();
    push_str(&mut out, "curl -X ");
    push_str(&mut out, method);
    push_str(&mut out, " ");
    let ghost head = out@;
    let mut i: usize = 0;
    assert(headers@.subrange(0, 0) =~= Seq::<(String, String)>::empty());
    while i < headers.len()
        invariant
            i <= headers@.len(),
            out@ == head + header_flags(headers@.subrange(0, i as int)),
        decreases headers.len() - i,
    {
        assert(headers@.subrange(0, i + 1).drop_last() =~= headers@.subrange(0, i as int));
        push_str(&mut out, "-H '");
        push_str(&mut out, headers[i].0.as_str());
        push_str(&mut out, ":");
        push_str(&mut out, headers[i].1.as_str());
        push_str(&mut out, "' ");
        assert(out@ =~= head + header_flags(headers@.subrange(0, i + 1)));
        i += 1;
    }
    assert(headers@.subrange(0, headers@.len() as int) =~= headers@);
    push_str(&mut out, "'");
    push_str(&mut out, url);
    if query.len() > 0 {
        push_str(&mut out, "?");
        let ghost qhead = out@;
        let mut k: usize = 0;
        assert(query@.subrange(0, 0) =~= Seq::<(String, String)>::empty());
        while k < query.len()
            invariant
                k <= query@.len(),
                out@ == qhead + query_string(query@.subrange(0, k as int)),
            decreases query.len() - k,
        {
            assert(query@.subrange(0, k + 1).drop_last() =~= query@.subrange(0, k as int));
            if k > 0 {
                push_str(&mut out, "&");
            }
            push_str(&mut out, query[k].0.as_str());
            push_str(&mut out, "=");
            push_str(&mut out, query[k].1.as_str());
            assert(out@ =~= qhead + query_string(query@.subrange(0, k + 1)));
            k += 1;
        }
        assert(query@.subrange(0, query@.len() as int) =~= query@);
    }
    push_str(&mut out, "' ");
    match body {
        Some(b) => {
            push_str(&mut out, "-d '");
            push_str(&mut out, b);
            push_str(&mut out, "'");
        },
        None => {},
    }
    assert(out@ =~= curl_spec(method@, url@, headers@, query@, match body {
        Some(b) => Some(b@),
        None => None,
    }));
    string_of(&out)
}

} // verus!
