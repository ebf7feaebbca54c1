use vstd::prelude::*;
use crate::chars::{from_chars, to_chars};
use crate::jstr::{
    lemma_jstr_shrinks, lemma_parse_jstr_rt, push_jstr, parse_jstr, spec_jstr, spec_parse_jstr,
};

verus! {

/// The encoded items of a non-empty JSON array of strings, without the
/// surrounding brackets.
pub open spec fn spec_enc_strlist_items(xs: Seq<Seq<char>>) -> Seq<char>
    decreases xs.len(),
{
    if xs.len() <= 1 {
        spec_jstr(xs[0])
    } else {
        spec_jstr(xs[0]) + seq![','] + spec_enc_strlist_items(xs.skip(1))
    }
}

/// A JSON array of strings.
pub open spec fn spec_enc_strlist(xs: Seq<Seq<char>>) -> Seq<char> {
    if xs.len() == 0 {
        seq!['[', ']']
    } else {
        seq!['['] + spec_enc_strlist_items(xs) + seq![']']
    }
}

/// One key/value pair of a JSON object of strings.
pub open spec fn spec_enc_strpair(kv: (Seq<char>, Seq<char>)) -> Seq<char> {
    spec_jstr(kv.0) + seq![':'] + spec_jstr(kv.1)
}

/// The encoded items of a non-empty JSON object of strings, without the
/// surrounding braces.
pub open spec fn spec_enc_strmap_items(kvs: Seq<(Seq<char>, Seq<char>)>) -> Seq<char>
    decreases kvs.len(),
{
    if kvs.len() <= 1 {
        spec_enc_strpair(kvs[0])
    } else {
        spec_enc_strpair(kvs[0]) + seq![','] + spec_enc_strmap_items(kvs.skip(1))
    }
}

/// A JSON object whose keys and values are all strings.
pub open spec fn spec_enc_strmap(kvs: Seq<(Seq<char>, Seq<char>)>) -> Seq<char> {
    if kvs.len() == 0 {
        seq!['{', '}']
    } else {
        seq!['{'] + spec_enc_strmap_items(kvs) + seq!['}']
    }
}

/// Parses the items of a non-empty JSON string array, up to and including
/// the closing bracket.
pub open spec fn spec_parse_strlist_items(s: Seq<char>) -> Option<(Seq<Seq<char>>, Seq<char>)>
    decreases s.len(),
    via spec_parse_strlist_items_dec
{
    match spec_parse_jstr(s) {
        Option::None => Option::None,
        Option::Some((x, r)) => if r.len() > 0 && r[0] == ',' {
            match spec_parse_strlist_items(r.skip(1)) {
                Option::None => Option::None,
                Option::Some((xs, r2)) => Option::Some((seq![x] + xs, r2)),
            }
        } else if r.len() > 0 && r[0] == ']' {
            Option::Some((seq![x], r.skip(1)))
        } else {
            Option::None
        },
    }
}

#[via_fn]
proof fn spec_parse_strlist_items_dec(s: Seq<char>) {
    lemma_jstr_shrinks(s);
}

/// Parses a whole JSON string array from the front of `s`.
pub open spec fn spec_parse_strlist(s: Seq<char>) -> Option<(Seq<Seq<char>>, Seq<char>)> {
    if s.len() == 0 || s[0] != '[' {
        Option::None
    } else {
        let r = s.skip(1);
        if r.len() > 0 && r[0] == ']' {
            Option::Some((Seq::empty(), r.skip(1)))
        } else {
            spec_parse_strlist_items(r)
        }
    }
}

/// Parses the items of a non-empty JSON string object, up to and including
/// the closing brace.
pub open spec fn spec_parse_strmap_items(s: Seq<char>) -> Option<
    (Seq<(Seq<char>, Seq<char>)>, Seq<char>),
>
    decreases s.len(),
    via spec_parse_strmap_items_dec
{
    match spec_parse_jstr(s) {
        Option::None => Option::None,
        Option::Some((k, r)) => if r.len() > 0 && r[0] == ':' {
            match spec_parse_jstr(r.skip(1)) {
                Option::None => Option::None,
                Option::Some((w, r2)) => if r2.len() > 0 && r2[0] == ',' {
                    match spec_parse_strmap_items(r2.skip(1)) {
                        Option::None => Option::None,
                        Option::Some((kvs, r3)) => Option::Some((seq![(k, w)] + kvs, r3)),
                    }
                } else if r2.len() > 0 && r2[0] == '}' {
                    Option::Some((seq![(k, w)], r2.skip(1)))
                } else {
                    Option::None
                },
            }
        } else {
            Option::None
        },
    }
}

#[via_fn]
proof fn spec_parse_strmap_items_dec(s: Seq<char>) {
    lemma_jstr_shrinks(s);
    if spec_parse_jstr(s) is Some {
        let r = (spec_parse_jstr(s)->0).1;
        if r.len() > 0 && r[0] == ':' {
            lemma_jstr_shrinks(r.skip(1));
        }
    }
}

/// Parses a whole JSON string object from the front of `s`.
pub open spec fn spec_parse_strmap(s: Seq<char>) -> Option<
    (Seq<(Seq<char>, Seq<char>)>, Seq<char>),
> {
    if s.len() == 0 || s[0] != '{' {
        Option::None
    } else {
        let r = s.skip(1);
        if r.len() > 0 && r[0] == '}' {
            Option::Some((Seq::empty(), r.skip(1)))
        } else {
            spec_parse_strmap_items(r)
        }
    }
}

proof fn lemma_parse_strlist_items_rt(xs: Seq<Seq<char>>, rest: Seq<char>)
    requires
        xs.len() >= 1,
    ensures
        spec_parse_strlist_items(spec_enc_strlist_items(xs) + seq![']'] + rest) == Option::Some(
            (xs, rest),
        ),
    decreases xs.len(),
{
    let s = spec_enc_strlist_items(xs) + seq![']'] + rest;
    if xs.len() == 1 {
        assert(s =~= spec_jstr(xs[0]) + (seq![']'] + rest));
        lemma_parse_jstr_rt(xs[0], seq![']'] + rest);
        let r = (seq![']'] + rest);
        assert(r[0] == ']');
        assert(r.skip(1) =~= rest);
        assert(seq![xs[0]] =~= xs);
    } else {
        let tail_items = spec_enc_strlist_items(xs.skip(1)) + seq![']'] + rest;
        lemma_parse_strlist_items_rt(xs.skip(1), rest);
        let after = seq![','] + tail_items;
        assert(s =~= spec_jstr(xs[0]) + after);
        lemma_parse_jstr_rt(xs[0], after);
        assert(after[0] == ',');
        assert(after.skip(1) =~= tail_items);
        assert(seq![xs[0]] + xs.skip(1) =~= xs);
    }
}

/// A JSON string array written by `spec_enc_strlist` parses back to the
/// same sequence of strings.
pub proof fn lemma_parse_strlist_rt(xs: Seq<Seq<char>>, rest: Seq<char>)
    ensures
        spec_parse_strlist(spec_enc_strlist(xs) + rest) == Option::Some((xs, rest)),
{
    let s = spec_enc_strlist(xs) + rest;
    assert(s[0] == '[');
    if xs.len() == 0 {
        assert(s.skip(1) =~= seq![']'] + rest);
        assert(s.skip(1)[0] == ']');
        assert(s.skip(1).skip(1) =~= rest);
        assert(xs =~= Seq::<Seq<char>>::empty());
    } else {
        let inner = spec_enc_strlist_items(xs) + seq![']'] + rest;
        assert(s.skip(1) =~= inner);
        lemma_parse_strlist_items_rt(xs, rest);
        // The items branch is taken: the first character of the items is the
        // opening quote of a string, never ']'.
        let j = spec_jstr(xs[0]);
        assert(inner[0] == '"') by {
            if xs.len() == 1 {
                assert(inner[0] == j[0]);
            } else {
                assert(inner[0] == j[0]);
            }
            assert(j[0] == '"');
        }
    }
}

proof fn lemma_parse_strmap_items_rt(kvs: Seq<(Seq<char>, Seq<char>)>, rest: Seq<char>)
    requires
        kvs.len() >= 1,
    ensures
        spec_parse_strmap_items(spec_enc_strmap_items(kvs) + seq!['}'] + rest) == Option::Some(
            (kvs, rest),
        ),
    decreases kvs.len(),
{
    let s = spec_enc_strmap_items(kvs) + seq!['}'] + rest;
    let k = kvs[0].0;
    let w = kvs[0].1;
    if kvs.len() == 1 {
        let after_k = seq![':'] + spec_jstr(w) + (seq!['}'] + rest);
        assert(s =~= spec_jstr(k) + after_k);
        lemma_parse_jstr_rt(k, after_k);
        assert(after_k[0] == ':');
        let after_colon = spec_jstr(w) + (seq!['}'] + rest);
        assert(after_k.skip(1) =~= after_colon);
        lemma_parse_jstr_rt(w, seq!['}'] + rest);
        let r2 = seq!['}'] + rest;
        assert(r2[0] == '}');
        assert(r2.skip(1) =~= rest);
        assert(seq![(k, w)] =~= kvs);
    } else {
        let tail_items = spec_enc_strmap_items(kvs.skip(1)) + seq!['}'] + rest;
        lemma_parse_strmap_items_rt(kvs.skip(1), rest);
        let after_v = seq![','] + tail_items;
        let after_k = seq![':'] + spec_jstr(w) + after_v;
        assert(s =~= spec_jstr(k) + after_k);
        lemma_parse_jstr_rt(k, after_k);
        assert(after_k[0] == ':');
        let after_colon = spec_jstr(w) + after_v;
        assert(after_k.skip(1) =~= after_colon);
        lemma_parse_jstr_rt(w, after_v);
        assert(after_v[0] == ',');
        assert(after_v.skip(1) =~= tail_items);
        assert(seq![(k, w)] + kvs.skip(1) =~= kvs);
    }
}

/// A JSON string object written by `spec_enc_strmap` parses back to the
/// same sequence of pairs.
pub proof fn lemma_parse_strmap_rt(kvs: Seq<(Seq<char>, Seq<char>)>, rest: Seq<char>)
    ensures
        spec_parse_strmap(spec_enc_strmap(kvs) + rest) == Option::Some((kvs, rest)),
{
    let s = spec_enc_strmap(kvs) + rest;
    assert(s[0] == '{');
    if kvs.len() == 0 {
        assert(s.skip(1) =~= seq!['}'] + rest);
        assert(s.skip(1)[0] == '}');
        assert(s.skip(1).skip(1) =~= rest);
        assert(kvs =~= Seq::<(Seq<char>, Seq<char>)>::empty());
    } else {
        let inner = spec_enc_strmap_items(kvs) + seq!['}'] + rest;
        assert(s.skip(1) =~= inner);
        lemma_parse_strmap_items_rt(kvs, rest);
        let j = spec_jstr(kvs[0].0);
        assert(inner[0] == '"') by {
            assert(inner[0] == j[0]);
            assert(j[0] == '"');
        }
    }
}

proof fn lemma_enc_strlist_items_push(xs: Seq<Seq<char>>, x: Seq<char>)
    requires
        xs.len() >= 1,
    ensures
        spec_enc_strlist_items(xs.push(x)) == spec_enc_strlist_items(xs) + seq![','] + spec_jstr(
            x,
        ),
    decreases xs.len(),
{
    let s = xs.push(x);
    assert(s[0] == xs[0]);
    if xs.len() == 1 {
        assert(s.skip(1) =~= seq![x]);
        assert(spec_enc_strlist_items(seq![x]) == spec_jstr(x));
        assert(spec_enc_strlist_items(xs.push(x)) =~= spec_enc_strlist_items(xs) + seq![',']
            + spec_jstr(x));
    } else {
        assert(s.skip(1) =~= xs.skip(1).push(x));
        lemma_enc_strlist_items_push(xs.skip(1), x);
        assert(spec_enc_strlist_items(xs.push(x)) =~= spec_enc_strlist_items(xs) + seq![',']
            + spec_jstr(x));
    }
}

proof fn lemma_enc_strmap_items_push(kvs: Seq<(Seq<char>, Seq<char>)>, kv: (Seq<char>, Seq<char>))
    requires
        kvs.len() >= 1,
    ensures
        spec_enc_strmap_items(kvs.push(kv)) == spec_enc_strmap_items(kvs) + seq![',']
            + spec_enc_strpair(kv),
    decreases kvs.len(),
{
    let s = kvs.push(kv);
    assert(s[0] == kvs[0]);
    if kvs.len() == 1 {
        assert(s.skip(1) =~= seq![kv]);
        assert(spec_enc_strmap_items(seq![kv]) == spec_enc_strpair(kv));
        assert(spec_enc_strmap_items(kvs.push(kv)) =~= spec_enc_strmap_items(kvs) + seq![',']
            + spec_enc_strpair(kv));
    } else {
        assert(s.skip(1) =~= kvs.skip(1).push(kv));
        lemma_enc_strmap_items_push(kvs.skip(1), kv);
        assert(spec_enc_strmap_items(kvs.push(kv)) =~= spec_enc_strmap_items(kvs) + seq![',']
            + spec_enc_strpair(kv));
    }
}

/// Appends the JSON array form of `xs` to `out`.
pub fn push_strlist(out: &mut Vec<char>, xs: &Vec<String>)
    ensures
        final(out)@ == old(out)@ + spec_enc_strlist(xs.deep_view()),
{
    let ghost base = old(out)@;
    let ghost dv = xs.deep_view();
    out.push('[');
    if xs.len() == 0 {
        out.push(']');
        proof {
            assert(dv.len() == 0);
            assert(out@ =~= base + spec_enc_strlist(dv));
        }
        return ;
    }
    let c0 = to_chars(xs[0].as_str());
    proof {
        assert(dv[0] == xs@[0]@);
    }
    push_jstr(out, &c0);
    proof {
        assert(dv.take(1).len() == 1);
        assert(dv.take(1)[0] == dv[0]);
        assert(out@ =~= base + seq!['['] + spec_enc_strlist_items(dv.take(1)));
    }
    let mut i: usize = 1;
    while i < xs.len()
        invariant
            1 <= i <= xs@.len(),
            dv == xs.deep_view(),
            dv.len() == xs@.len(),
            out@ == base + seq!['['] + spec_enc_strlist_items(dv.take(i as int)),
        decreases xs.len() - i,
    {
        out.push(',');
        let ci = to_chars(xs[i].as_str());
        proof {
            assert(dv[i as int] == xs@[i as int]@);
        }
        push_jstr(out, &ci);
        proof {
            assert(dv.take(i + 1) =~= dv.take(i as int).push(dv[i as int]));
            lemma_enc_strlist_items_push(dv.take(i as int), dv[i as int]);
            assert(out@ =~= base + seq!['['] + spec_enc_strlist_items(dv.take(i + 1)));
        }
        i = i + 1;
    }
    out.push(']');
    proof {
        assert(dv.take(dv.len() as int) =~= dv);
        assert(out@ =~= base + spec_enc_strlist(dv));
    }
}

/// Appends the JSON object form of the pairs `kvs` to `out`.
pub fn push_strmap(out: &mut Vec<char>, kvs: &Vec<(String, String)>)
    ensures
        final(out)@ == old(out)@ + spec_enc_strmap(kvs.deep_view()),
{
    let ghost base = old(out)@;
    let ghost dv = kvs.deep_view();
    out.push('{');
    if kvs.len() == 0 {
        out.push('}');
        proof {
            assert(dv.len() == 0);
            assert(out@ =~= base + spec_enc_strmap(dv));
        }
        return ;
    }
    let k0 = to_chars(kvs[0].0.as_str());
    push_jstr(out, &k0);
    out.push(':');
    let w0 = to_chars(kvs[0].1.as_str());
    push_jstr(out, &w0);
    proof {
        assert(dv[0] == (kvs@[0].0@, kvs@[0].1@));
        assert(dv.take(1).len() == 1);
        assert(dv.take(1)[0] == dv[0]);
        assert(out@ =~= base + seq!['{'] + spec_enc_strmap_items(dv.take(1)));
    }
    let mut i: usize = 1;
    while i < kvs.len()
        invariant
            1 <= i <= kvs@.len(),
            dv == kvs.deep_view(),
            dv.len() == kvs@.len(),
            out@ == base + seq!['{'] + spec_enc_strmap_items(dv.take(i as int)),
        decreases kvs.len() - i,
    {
        out.push(',');
        let ki = to_chars(kvs[i].0.as_str());
        push_jstr(out, &ki);
        out.push(':');
        let wi = to_chars(kvs[i].1.as_str());
        push_jstr(out, &wi);
        proof {
            assert(dv[i as int] == (kvs@[i as int].0@, kvs@[i as int].1@));
            assert(dv.take(i + 1) =~= dv.take(i as int).push(dv[i as int]));
            lemma_enc_strmap_items_push(dv.take(i as int), dv[i as int]);
            assert(out@ =~= base + seq!['{'] + spec_enc_strmap_items(dv.take(i + 1)));
        }
        i = i + 1;
    }
    out.push('}');
    proof {
        assert(dv.take(dv.len() as int) =~= dv);
        assert(out@ =~= base + spec_enc_strmap(dv));
    }
}

/// Parses a JSON string array at `pos`; mirrors `spec_parse_strlist`.
pub fn parse_strlist(v: &Vec<char>, pos: usize) -> (r: Option<(Vec<String>, usize)>)
    requires
        pos <= v@.len(),
    ensures
        match r {
            Option::Some(p) => pos <= p.1 <= v@.len() && spec_parse_strlist(v@.skip(pos as int))
                == Option::Some((p.0.deep_view(), v@.skip(p.1 as int))),
            Option::None => spec_parse_strlist(v@.skip(pos as int)) is None,
        },
{
    let n = v.len();
    let ghost whole = v@.skip(pos as int);
    if pos >= n || v[pos] != '[' {
        proof {
            if pos < n {
                assert(whole[0] == v@[pos as int]);
            }
        }
        return None;
    }
    proof {
        assert(whole[0] == v@[pos as int]);
        assert(whole.skip(1) =~= v@.skip(pos + 1));
    }
    if pos + 1 < n && v[pos + 1] == ']' {
        let out: Vec<String> = Vec::new();
        proof {
            assert(v@.skip(pos + 1)[0] == v@[pos + 1]);
            assert(v@.skip(pos + 1).skip(1) =~= v@.skip(pos + 2));
            assert(out.deep_view() =~= Seq::<Seq<char>>::empty());
        }
        return Some((out, pos + 2));
    }
    proof {
        if pos + 1 < n {
            assert(v@.skip(pos + 1)[0] == v@[pos + 1]);
        }
    }
    let mut out: Vec<String> = Vec::new();
    let mut i: usize = pos + 1;
    while i <= n
        invariant
            pos + 1 <= i <= n,
            n == v@.len(),
            spec_parse_strlist(v@.skip(pos as int)) == spec_parse_strlist_items(v@.skip(pos + 1)),
            spec_parse_strlist_items(v@.skip(pos + 1)) == (match spec_parse_strlist_items(
                v@.skip(i as int),
            ) {
                Option::None => Option::None::<(Seq<Seq<char>>, Seq<char>)>,
                Option::Some((xs, r)) => Option::Some((out.deep_view() + xs, r)),
            }),
        decreases n + 1 - i,
    {
        let ghost tail = v@.skip(i as int);
        match parse_jstr(v, i) {
            None => {
                return None;
            },
            Some((x, j)) => {
                let sx = from_chars(&x);
                let ghost out0 = out.deep_view();
                out.push(sx);
                proof {
                    assert(out.deep_view() =~= out0.push(x@));
                }
                if j < n && v[j] == ',' {
                    proof {
                        let after = v@.skip(j as int);
                        assert(after[0] == v@[j as int]);
                        assert(after.skip(1) =~= v@.skip(j + 1));
                        let rem = spec_parse_strlist_items(v@.skip(j + 1));
                        if rem is Some {
                            let xs2 = (rem->0).0;
                            assert(out0 + (seq![x@] + xs2) =~= out.deep_view() + xs2);
                        }
                    }
                    i = j + 1;
                } else if j < n && v[j] == ']' {
                    proof {
                        let after = v@.skip(j as int);
                        assert(after[0] == v@[j as int]);
                        assert(after.skip(1) =~= v@.skip(j + 1));
                        assert(out0 + seq![x@] =~= out.deep_view());
                    }
                    return Some((out, j + 1));
                } else {
                    proof {
                        let after = v@.skip(j as int);
                        if j < n {
                            assert(after[0] == v@[j as int]);
                        }
                    }
                    return None;
                }
            },
        }
    }
    proof {
        assert(v@.skip(i as int).len() == 0);
    }
    None
}

/// Parses a JSON string object at `pos`; mirrors `spec_parse_strmap`.
pub fn parse_strmap(v: &Vec<char>, pos: usize) -> (r: Option<(Vec<(String, String)>, usize)>)
    requires
        pos <= v@.len(),
    ensures
        match r {
            Option::Some(p) => pos <= p.1 <= v@.len() && spec_parse_strmap(v@.skip(pos as int))
                == Option::Some((p.0.deep_view(), v@.skip(p.1 as int))),
            Option::None => spec_parse_strmap(v@.skip(pos as int)) is None,
        },
{
    let n = v.len();
    let ghost whole = v@.skip(pos as int);
    if pos >= n || v[pos] != '{' {
        proof {
            if pos < n {
                assert(whole[0] == v@[pos as int]);
            }
        }
        return None;
    }
    proof {
        assert(whole[0] == v@[pos as int]);
        assert(whole.skip(1) =~= v@.skip(pos + 1));
    }
    if pos + 1 < n && v[pos + 1] == '}' {
        let out: Vec<(String, String)> = Vec::new();
        proof {
            assert(v@.skip(pos + 1)[0] == v@[pos + 1]);
            assert(v@.skip(pos + 1).skip(1) =~= v@.skip(pos + 2));
            assert(out.deep_view() =~= Seq::<(Seq<char>, Seq<char>)>::empty());
        }
        return Some((out, pos + 2));
    }
    proof {
        if pos + 1 < n {
            assert(v@.skip(pos + 1)[0] == v@[pos + 1]);
        }
    }
    let mut out: Vec<(String, String)> = Vec::new();
    let mut i: usize = pos + 1;
    while i <= n
        invariant
            pos + 1 <= i <= n,
            n == v@.len(),
            spec_parse_strmap(v@.skip(pos as int)) == spec_parse_strmap_items(v@.skip(pos + 1)),
            spec_parse_strmap_items(v@.skip(pos + 1)) == (match spec_parse_strmap_items(
                v@.skip(i as int),
            ) {
                Option::None => Option::None::<(Seq<(Seq<char>, Seq<char>)>, Seq<char>)>,
                Option::Some((kvs, r)) => Option::Some((out.deep_view() + kvs, r)),
            }),
        decreases n + 1 - i,
    {
        let ghost tail = v@.skip(i as int);
        match parse_jstr(v, i) {
            None => {
                return None;
            },
            Some((k, j)) => {
                if !(j < n && v[j] == ':') {
                    proof {
                        let after = v@.skip(j as int);
                        if j < n {
                            assert(after[0] == v@[j as int]);
                        }
                    }
                    return None;
                }
                proof {
                    let after = v@.skip(j as int);
                    assert(after[0] == v@[j as int]);
                    assert(after.skip(1) =~= v@.skip(j + 1));
                }
                match parse_jstr(v, j + 1) {
                    None => {
                        return None;
                    },
                    Some((w, j2)) => {
                        let sk = from_chars(&k);
                        let sw = from_chars(&w);
                        let ghost out0 = out.deep_view();
                        out.push((sk, sw));
                        proof {
                            assert(out.deep_view() =~= out0.push((k@, w@)));
                        }
                        if j2 < n && v[j2] == ',' {
                            proof {
                                let after = v@.skip(j2 as int);
                                assert(after[0] == v@[j2 as int]);
                                assert(after.skip(1) =~= v@.skip(j2 + 1));
                                let rem = spec_parse_strmap_items(v@.skip(j2 + 1));
                                if rem is Some {
                                    let kvs2 = (rem->0).0;
                                    assert(out0 + (seq![(k@, w@)] + kvs2) =~= out.deep_view()
                                        + kvs2);
                                }
                            }
                            i = j2 + 1;
                        } else if j2 < n && v[j2] == '}' {
                            proof {
                                let after = v@.skip(j2 as int);
                                assert(after[0] == v@[j2 as int]);
                                assert(after.skip(1) =~= v@.skip(j2 + 1));
                                assert(out0 + seq![(k@, w@)] =~= out.deep_view());
                            }
                            return Some((out, j2 + 1));
                        } else {
                            proof {
                                let after = v@.skip(j2 as int);
                                if j2 < n {
                                    assert(after[0] == v@[j2 as int]);
                                }
                            }
                            return None;
                        }
                    },
                }
            },
        }
    }
    proof {
        assert(v@.skip(i as int).len() == 0);
    }
    None
}

} // verus!
