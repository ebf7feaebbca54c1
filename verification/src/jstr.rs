use vstd::prelude::*;

verus! {

/// The escaped form of one character inside a JSON string literal.
/// Quotes, backslashes and the common whitespace controls are escaped;
/// every other character stands for itself.
pub open spec fn esc_char(c: char) -> Seq<char> {
    if c == '"' {
        seq!['\\', '"']
    } else if c == '\\' {
        seq!['\\', '\\']
    } else if c == '\n' {
        seq!['\\', 'n']
    } else if c == '\r' {
        seq!['\\', 'r']
    } else if c == '\t' {
        seq!['\\', 't']
    } else {
        seq![c]
    }
}

/// The character named by an escape sequence, when recognized.
pub open spec fn unesc_char(c: char) -> Option<char> {
    if c == '"' {
        Option::Some('"')
    } else if c == '\\' {
        Option::Some('\\')
    } else if c == 'n' {
        Option::Some('\n')
    } else if c == 'r' {
        Option::Some('\r')
    } else if c == 't' {
        Option::Some('\t')
    } else {
        Option::None
    }
}

/// The body of a JSON string literal for `s`: each character escaped.
pub open spec fn spec_esc(s: Seq<char>) -> Seq<char>
    decreases s.len(),
{
    if s.len() == 0 {
        Seq::empty()
    } else {
        esc_char(s[0]) + spec_esc(s.skip(1))
    }
}

/// The JSON string literal for `s`, quotes included.
pub open spec fn spec_jstr(s: Seq<char>) -> Seq<char> {
    seq!['"'] + spec_esc(s) + seq!['"']
}

/// Parses the body of a JSON string literal (the opening quote already
/// consumed) up to and including the closing quote; returns the unescaped
/// content and the rest of the input.
pub open spec fn spec_parse_jstr_body(s: Seq<char>) -> Option<(Seq<char>, Seq<char>)>
    decreases s.len(),
{
    if s.len() == 0 {
        Option::None
    } else if s[0] == '"' {
        Option::Some((Seq::empty(), s.skip(1)))
    } else if s[0] == '\\' {
        if s.len() < 2 {
            Option::None
        } else {
            match unesc_char(s[1]) {
                Option::None => Option::None,
                Option::Some(c) => match spec_parse_jstr_body(s.skip(2)) {
                    Option::None => Option::None,
                    Option::Some((t, r)) => Option::Some((seq![c] + t, r)),
                },
            }
        }
    } else {
        match spec_parse_jstr_body(s.skip(1)) {
            Option::None => Option::None,
            Option::Some((t, r)) => Option::Some((seq![s[0]] + t, r)),
        }
    }
}

/// Parses a whole JSON string literal from the front of `s`.
pub open spec fn spec_parse_jstr(s: Seq<char>) -> Option<(Seq<char>, Seq<char>)> {
    if s.len() > 0 && s[0] == '"' {
        spec_parse_jstr_body(s.skip(1))
    } else {
        Option::None
    }
}

/// A successful string parse consumes at least one character.
pub proof fn lemma_jstr_body_shrinks(s: Seq<char>)
    ensures
        spec_parse_jstr_body(s) matches Option::Some(p) ==> p.1.len() < s.len(),
    decreases s.len(),
{
    if s.len() == 0 {
    } else if s[0] == '"' {
    } else if s[0] == '\\' {
        if s.len() >= 2 {
            lemma_jstr_body_shrinks(s.skip(2));
        }
    } else {
        lemma_jstr_body_shrinks(s.skip(1));
    }
}

pub proof fn lemma_jstr_shrinks(s: Seq<char>)
    ensures
        spec_parse_jstr(s) matches Option::Some(p) ==> p.1.len() < s.len(),
{
    if s.len() > 0 && s[0] == '"' {
        lemma_jstr_body_shrinks(s.skip(1));
    }
}

proof fn lemma_parse_esc_rt(x: Seq<char>, rest: Seq<char>)
    ensures
        spec_parse_jstr_body(spec_esc(x) + seq!['"'] + rest) == Option::Some((x, rest)),
    decreases x.len(),
{
    let s = spec_esc(x) + seq!['"'] + rest;
    if x.len() == 0 {
        assert(spec_esc(x) =~= Seq::<char>::empty());
        assert(s =~= seq!['"'] + rest);
        assert(s[0] == '"');
        assert(s.skip(1) =~= rest);
    } else {
        let c = x[0];
        let t = x.skip(1);
        lemma_parse_esc_rt(t, rest);
        let inner = spec_esc(t) + seq!['"'] + rest;
        assert(s =~= esc_char(c) + inner);
        if c == '"' || c == '\\' || c == '\n' || c == '\r' || c == '\t' {
            assert(s[0] == '\\');
            assert(s.len() >= 2);
            assert(s[1] == esc_char(c)[1]);
            assert(unesc_char(s[1]) == Option::Some(c));
            assert(s.skip(2) =~= inner);
            assert(seq![c] + t =~= x);
        } else {
            assert(s[0] == c);
            assert(c != '"' && c != '\\');
            assert(s.skip(1) =~= inner);
            assert(seq![c] + t =~= x);
        }
    }
}

/// A JSON string literal written by `spec_jstr` parses back to its content.
pub proof fn lemma_parse_jstr_rt(x: Seq<char>, rest: Seq<char>)
    ensures
        spec_parse_jstr(spec_jstr(x) + rest) == Option::Some((x, rest)),
{
    let s = spec_jstr(x) + rest;
    assert(s[0] == '"');
    assert(s.skip(1) =~= spec_esc(x) + seq!['"'] + rest);
    lemma_parse_esc_rt(x, rest);
}

proof fn lemma_esc_push(s: Seq<char>, c: char)
    ensures
        spec_esc(s.push(c)) == spec_esc(s) + esc_char(c),
    decreases s.len(),
{
    if s.len() == 0 {
        assert(s.push(c)[0] == c);
        assert(s.push(c).skip(1) =~= Seq::<char>::empty());
        assert(spec_esc(Seq::<char>::empty()) == Seq::<char>::empty());
        assert(spec_esc(s.push(c)) =~= esc_char(c));
        assert(spec_esc(s) + esc_char(c) =~= esc_char(c));
    } else {
        assert(s.push(c)[0] == s[0]);
        assert(s.push(c).skip(1) =~= s.skip(1).push(c));
        lemma_esc_push(s.skip(1), c);
        assert(spec_esc(s.push(c)) =~= esc_char(s[0]) + (spec_esc(s.skip(1)) + esc_char(c)));
        assert(esc_char(s[0]) + (spec_esc(s.skip(1)) + esc_char(c)) =~= (esc_char(s[0])
            + spec_esc(s.skip(1))) + esc_char(c));
    }
}

/// Appends the JSON string literal for `s` (quotes included) to `out`.
pub fn push_jstr(out: &mut Vec<char>, s: &Vec<char>)
    ensures
        final(out)@ == old(out)@ + spec_jstr(s@),
{
    out.push('"');
    let ghost base = out@;
    let mut i: usize = 0;
    while i < s.len()
        invariant
            i <= s@.len(),
            out@ == base + spec_esc(s@.take(i as int)),
        decreases s.len() - i,
    {
        let c = s[i];
        proof {
            assert(s@.take(i + 1) =~= s@.take(i as int).push(s@[i as int]));
            lemma_esc_push(s@.take(i as int), s@[i as int]);
        }
        if c == '"' {
            out.push('\\');
            out.push('"');
        } else if c == '\\' {
            out.push('\\');
            out.push('\\');
        } else if c == '\n' {
            out.push('\\');
            out.push('n');
        } else if c == '\r' {
            out.push('\\');
            out.push('r');
        } else if c == '\t' {
            out.push('\\');
            out.push('t');
        } else {
            out.push(c);
        }
        proof {
            assert(out@ =~= base + spec_esc(s@.take(i + 1)));
        }
        i = i + 1;
    }
    out.push('"');
    proof {
        assert(s@.take(s@.len() as int) =~= s@);
        assert(out@ =~= old(out)@ + spec_jstr(s@));
    }
}

/// Parses a JSON string literal at `pos`; mirrors `spec_parse_jstr` on the
/// tail of the view starting at `pos`.
pub fn parse_jstr(v: &Vec<char>, pos: usize) -> (r: Option<(Vec<char>, usize)>)
    requires
        pos <= v@.len(),
    ensures
        match r {
            Option::Some(p) => pos <= p.1 <= v@.len() && spec_parse_jstr(v@.skip(pos as int))
                == Option::Some((p.0@, v@.skip(p.1 as int))),
            Option::None => spec_parse_jstr(v@.skip(pos as int)) is None,
        },
{
    let n = v.len();
    if pos >= n || v[pos] != '"' {
        proof {
            if pos < n {
                assert(v@.skip(pos as int)[0] == v@[pos as int]);
            }
        }
        return None;
    }
    proof {
        assert(v@.skip(pos as int)[0] == v@[pos as int]);
        assert(v@.skip(pos as int).skip(1) =~= v@.skip(pos + 1));
    }
    let mut out: Vec<char> = Vec::new();
    let mut i: usize = pos + 1;
    while i < n
        invariant
            pos + 1 <= i <= n,
            n == v@.len(),
            spec_parse_jstr(v@.skip(pos as int)) == spec_parse_jstr_body(v@.skip(pos + 1)),
            spec_parse_jstr_body(v@.skip(pos + 1)) == (match spec_parse_jstr_body(
                v@.skip(i as int),
            ) {
                Option::None => Option::None::<(Seq<char>, Seq<char>)>,
                Option::Some((t, r)) => Option::Some((out@ + t, r)),
            }),
        decreases n - i,
    {
        let ghost tail = v@.skip(i as int);
        proof {
            assert(tail[0] == v@[i as int]);
        }
        let c = v[i];
        if c == '"' {
            proof {
                assert(tail.skip(1) =~= v@.skip(i + 1));
                assert(out@ + Seq::<char>::empty() =~= out@);
            }
            return Some((out, i + 1));
        } else if c == '\\' {
            if i + 1 >= n {
                return None;
            }
            proof {
                assert(tail.len() >= 2);
                assert(tail[1] == v@[i + 1]);
                assert(tail.skip(2) =~= v@.skip(i + 2));
            }
            let e = v[i + 1];
            let u_opt: Option<char> = if e == '"' {
                Some('"')
            } else if e == '\\' {
                Some('\\')
            } else if e == 'n' {
                Some('\n')
            } else if e == 'r' {
                Some('\r')
            } else if e == 't' {
                Some('\t')
            } else {
                None
            };
            proof {
                assert(u_opt == unesc_char(tail[1]));
            }
            match u_opt {
                None => {
                    return None;
                },
                Some(u) => {
                    let ghost out0 = out@;
                    out.push(u);
                    proof {
                        let rem = spec_parse_jstr_body(v@.skip(i + 2));
                        if rem is Some {
                            let t2 = (rem->0).0;
                            assert(out0 + (seq![u] + t2) =~= out@ + t2);
                        }
                    }
                    i = i + 2;
                },
            }
        } else {
            proof {
                assert(tail.skip(1) =~= v@.skip(i + 1));
            }
            let ghost out0 = out@;
            out.push(c);
            proof {
                let rem = spec_parse_jstr_body(v@.skip(i + 1));
                if rem is Some {
                    let t2 = (rem->0).0;
                    assert(out0 + (seq![c] + t2) =~= out@ + t2);
                }
            }
            i = i + 1;
        }
    }
    proof {
        assert(v@.skip(i as int).len() == 0);
    }
    None
}

} // verus!
