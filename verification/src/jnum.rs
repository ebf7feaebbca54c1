use vstd::prelude::*;

verus! {

/// Whether a character is a decimal digit.
pub open spec fn is_digit(c: char) -> bool {
    48 <= (c as u32) && (c as u32) <= 57
}

/// The numeric value of a digit character.
pub open spec fn digit_val(c: char) -> int {
    (c as u32) - 48
}

/// The digit character for a value in 0..=9.
pub open spec fn digit_char(d: int) -> char {
    if d == 0 {
        '0'
    } else if d == 1 {
        '1'
    } else if d == 2 {
        '2'
    } else if d == 3 {
        '3'
    } else if d == 4 {
        '4'
    } else if d == 5 {
        '5'
    } else if d == 6 {
        '6'
    } else if d == 7 {
        '7'
    } else if d == 8 {
        '8'
    } else {
        '9'
    }
}

proof fn lemma_digit_char_val(d: int)
    requires
        0 <= d <= 9,
    ensures
        is_digit(digit_char(d)),
        digit_val(digit_char(d)) == d,
{
}

/// The canonical decimal form of a natural number: no sign, no leading
/// zeros (except for zero itself).
pub open spec fn spec_dec_nat(n: nat) -> Seq<char>
    decreases n,
{
    if n < 10 {
        seq![digit_char(n as int)]
    } else {
        spec_dec_nat(n / 10) + seq![digit_char((n % 10) as int)]
    }
}

/// The canonical decimal form of a (signed) integer.
pub open spec fn spec_dec_int(n: int) -> Seq<char> {
    if n >= 0 {
        spec_dec_nat(n as nat)
    } else {
        seq!['-'] + spec_dec_nat((-n) as nat)
    }
}

/// The value of a sequence of digit characters, most significant first.
pub open spec fn spec_digits_val(s: Seq<char>) -> int
    decreases s.len(),
{
    if s.len() == 0 {
        0
    } else {
        spec_digits_val(s.drop_last()) * 10 + digit_val(s.last())
    }
}

pub open spec fn all_digits(s: Seq<char>) -> bool {
    forall|i: int| 0 <= i < s.len() ==> is_digit(s[i])
}

/// The length of the run of digit characters at the front of `s`.
pub open spec fn spec_digit_run(s: Seq<char>) -> nat
    decreases s.len(),
{
    if s.len() > 0 && is_digit(s[0]) {
        1 + spec_digit_run(s.skip(1))
    } else {
        0
    }
}

/// Parses an unsigned decimal number from the front of `s`: takes the
/// maximal run of digit characters; fails when the run is empty or the
/// value does not fit in a u64. Returns the value and the rest of `s`.
pub open spec fn spec_parse_u64(s: Seq<char>) -> Option<(u64, Seq<char>)> {
    let k = spec_digit_run(s) as int;
    if k == 0 {
        None
    } else {
        let v = spec_digits_val(s.take(k));
        if v <= u64::MAX {
            Some(((v as u64), s.skip(k)))
        } else {
            None
        }
    }
}

/// Parses a signed decimal number from the front of `s`: an optional
/// leading minus sign, then as for `spec_parse_u64`; fails when the value
/// does not fit in an i64.
pub open spec fn spec_parse_i64(s: Seq<char>) -> Option<(i64, Seq<char>)> {
    if s.len() > 0 && s[0] == '-' {
        match spec_parse_u64(s.skip(1)) {
            Option::None => Option::None,
            Option::Some((v, r)) => if v <= 0x8000_0000_0000_0000u64 {
                Option::Some(((-(v as int)) as i64, r))
            } else {
                Option::None
            },
        }
    } else {
        match spec_parse_u64(s) {
            Option::None => Option::None,
            Option::Some((v, r)) => if v <= (i64::MAX as u64) {
                Option::Some((v as i64, r))
            } else {
                Option::None
            },
        }
    }
}

fn exec_digit_char(d: u64) -> (r: char)
    requires
        d < 10,
    ensures
        r == digit_char(d as int),
{
    if d == 0 {
        '0'
    } else if d == 1 {
        '1'
    } else if d == 2 {
        '2'
    } else if d == 3 {
        '3'
    } else if d == 4 {
        '4'
    } else if d == 5 {
        '5'
    } else if d == 6 {
        '6'
    } else if d == 7 {
        '7'
    } else if d == 8 {
        '8'
    } else {
        '9'
    }
}

fn exec_digit_val(c: char) -> (r: Option<u64>)
    ensures
        r is Some <==> is_digit(c),
        r is Some ==> r->0 == digit_val(c) && r->0 <= 9,
{
    let u = c as u32;
    if 48 <= u && u <= 57 {
        Some((u - 48) as u64)
    } else {
        None
    }
}

/// The decimal digits of `n`, most significant first.
pub fn dec_u64_chars(n: u64) -> (r: Vec<char>)
    ensures
        r@ == spec_dec_nat(n as nat),
{
    let mut out: Vec<char> = Vec::new();
    out.push(exec_digit_char(n % 10));
    let mut m: u64 = n / 10;
    proof {
        if m == 0 {
            assert(n < 10 && n % 10 == n);
            assert(out@ =~= spec_dec_nat(n as nat));
        } else {
            assert(spec_dec_nat(n as nat) =~= spec_dec_nat(m as nat) + out@);
        }
    }
    while m > 0
        invariant
            spec_dec_nat(n as nat) == if m == 0 {
                out@
            } else {
                spec_dec_nat(m as nat) + out@
            },
        decreases m,
    {
        let d = exec_digit_char(m % 10);
        out.insert(0, d);
        let m2: u64 = m / 10;
        proof {
            if m2 == 0 {
                assert(m < 10 && m % 10 == m);
                assert(spec_dec_nat(m as nat) =~= seq![digit_char(m as int)]);
                assert(spec_dec_nat(n as nat) =~= out@);
            } else {
                assert(spec_dec_nat(m as nat) =~= spec_dec_nat(m2 as nat) + seq![
                    digit_char((m % 10) as int),
                ]);
                assert(spec_dec_nat(n as nat) =~= spec_dec_nat(m2 as nat) + out@);
            }
        }
        m = m2;
    }
    out
}

/// The decimal form of `n`, with a minus sign when negative.
pub fn dec_i64_chars(n: i64) -> (r: Vec<char>)
    ensures
        r@ == spec_dec_int(n as int),
{
    if n >= 0 {
        dec_u64_chars(n as u64)
    } else {
        // -(i64::MIN) does not fit in i64; step through n + 1 so the
        // negation stays in range, then add the 1 back in u64 space.
        let mag: u64 = ((-(n + 1)) as u64) + 1;
        assert(mag == -(n as int));
        let digits = dec_u64_chars(mag);
        let mut out: Vec<char> = Vec::new();
        out.push('-');
        let mut i: usize = 0;
        while i < digits.len()
            invariant
                i <= digits@.len(),
                out@ == seq!['-'] + digits@.take(i as int),
            decreases digits.len() - i,
        {
            out.push(digits[i]);
            i = i + 1;
            proof {
                assert(out@ =~= seq!['-'] + digits@.take(i as int));
            }
        }
        proof {
            assert(digits@.take(digits@.len() as int) =~= digits@);
            assert(out@ =~= spec_dec_int(n as int));
        }
        out
    }
}

proof fn lemma_digits_val_nonneg(s: Seq<char>)
    requires
        all_digits(s),
    ensures
        spec_digits_val(s) >= 0,
    decreases s.len(),
{
    if s.len() > 0 {
        assert(all_digits(s.drop_last()));
        lemma_digits_val_nonneg(s.drop_last());
    }
}

pub proof fn lemma_dec_nat_shape(n: nat)
    ensures
        spec_dec_nat(n).len() >= 1,
        all_digits(spec_dec_nat(n)),
        spec_digits_val(spec_dec_nat(n)) == n,
    decreases n,
{
    if n < 10 {
        lemma_digit_char_val(n as int);
        let s = spec_dec_nat(n);
        assert(s.len() == 1 && s[0] == digit_char(n as int));
        assert(s.drop_last() =~= Seq::<char>::empty());
        assert(spec_digits_val(Seq::<char>::empty()) == 0);
        assert(spec_digits_val(s) == spec_digits_val(s.drop_last()) * 10 + digit_val(s.last()));
    } else {
        lemma_dec_nat_shape(n / 10);
        lemma_digit_char_val((n % 10) as int);
        let s = spec_dec_nat(n);
        let d = spec_dec_nat(n / 10);
        assert(s.drop_last() =~= d);
        assert(s.last() == digit_char((n % 10) as int));
        assert(spec_digits_val(s) == spec_digits_val(d) * 10 + digit_val(s.last()));
        assert(spec_digits_val(s) == (n / 10) * 10 + (n % 10));
        assert forall|i: int| 0 <= i < s.len() implies is_digit(s[i]) by {
            if i < d.len() {
                assert(s[i] == d[i]);
            } else {
                assert(s[i] == s.last());
            }
        }
    }
}

proof fn lemma_digit_run_exact(s: Seq<char>, m: int)
    requires
        0 <= m <= s.len(),
        forall|j: int| 0 <= j < m ==> is_digit(s[j]),
        m == s.len() || !is_digit(s[m]),
    ensures
        spec_digit_run(s) == m,
    decreases m,
{
    if m == 0 {
    } else {
        assert(is_digit(s[0]));
        lemma_digit_run_exact(s.skip(1), m - 1);
    }
}

proof fn lemma_digit_run_concat(ds: Seq<char>, rest: Seq<char>)
    requires
        all_digits(ds),
        rest.len() == 0 || !is_digit(rest[0]),
    ensures
        spec_digit_run(ds + rest) == ds.len(),
{
    let s = ds + rest;
    assert forall|j: int| 0 <= j < ds.len() implies is_digit(s[j]) by {
        assert(s[j] == ds[j]);
    }
    if ds.len() < s.len() {
        assert(s[ds.len() as int] == rest[0]);
    }
    lemma_digit_run_exact(s, ds.len() as int);
}

/// A canonical decimal form followed by anything that does not extend the
/// digit run parses back to the same number.
pub proof fn lemma_parse_u64_rt(n: u64, rest: Seq<char>)
    requires
        rest.len() == 0 || !is_digit(rest[0]),
    ensures
        spec_parse_u64(spec_dec_nat(n as nat) + rest) == Option::Some((n, rest)),
{
    let ds = spec_dec_nat(n as nat);
    lemma_dec_nat_shape(n as nat);
    lemma_digit_run_concat(ds, rest);
    let s = ds + rest;
    assert(s.take(ds.len() as int) =~= ds);
    assert(s.skip(ds.len() as int) =~= rest);
}

/// As `lemma_parse_u64_rt`, for signed numbers.
pub proof fn lemma_parse_i64_rt(n: i64, rest: Seq<char>)
    requires
        rest.len() == 0 || !is_digit(rest[0]),
    ensures
        spec_parse_i64(spec_dec_int(n as int) + rest) == Option::Some((n, rest)),
{
    if n >= 0 {
        let ds = spec_dec_nat(n as nat);
        lemma_dec_nat_shape(n as nat);
        lemma_parse_u64_rt(n as u64, rest);
        let s = ds + rest;
        assert(s[0] == ds[0]);
        assert(is_digit(ds[0]));
        assert(s[0] != '-');
        assert(spec_dec_int(n as int) + rest == s);
    } else {
        let m = (-(n as int)) as nat;
        let mag = m as u64;
        let ds = spec_dec_nat(m);
        lemma_dec_nat_shape(m);
        lemma_parse_u64_rt(mag, rest);
        let s = spec_dec_int(n as int) + rest;
        assert(s[0] == '-');
        assert(s.skip(1) =~= ds + rest);
        assert(mag <= 0x8000_0000_0000_0000u64);
        assert((-(mag as int)) as i64 == n);
    }
}

/// The length of the run of digit characters at `pos`.
pub fn digit_run_from(v: &Vec<char>, pos: usize) -> (r: usize)
    requires
        pos <= v@.len(),
    ensures
        r == spec_digit_run(v@.skip(pos as int)),
        pos + r <= v@.len(),
{
    let ghost tail = v@.skip(pos as int);
    let n = v.len();
    let mut i: usize = pos;
    while i < n && exec_digit_val(v[i]).is_some()
        invariant
            pos <= i <= n,
            n == v@.len(),
            forall|j: int| pos <= j < i ==> is_digit(v@[j]),
        decreases n - i,
    {
        i = i + 1;
    }
    proof {
        assert forall|j: int| 0 <= j < i - pos implies is_digit(tail[j]) by {
            assert(tail[j] == v@[pos + j]);
        }
        if i - pos < tail.len() {
            assert(tail[i - pos] == v@[i as int]);
        }
        lemma_digit_run_exact(tail, i - pos);
    }
    i - pos
}

/// Parses an unsigned decimal number at `pos`; mirrors `spec_parse_u64` on
/// the tail of the view starting at `pos`.
pub fn parse_u64(v: &Vec<char>, pos: usize) -> (r: Option<(u64, usize)>)
    requires
        pos <= v@.len(),
    ensures
        match r {
            Option::Some(p) => pos <= p.1 <= v@.len() && spec_parse_u64(v@.skip(pos as int))
                == Option::Some((p.0, v@.skip(p.1 as int))),
            Option::None => spec_parse_u64(v@.skip(pos as int)) is None,
        },
{
    let ghost tail = v@.skip(pos as int);
    let n = v.len();
    // Find the end of the digit run.
    let mut i: usize = pos;
    while i < n && exec_digit_val(v[i]).is_some()
        invariant
            pos <= i <= n,
            n == v@.len(),
            forall|j: int| pos <= j < i ==> is_digit(v@[j]),
        decreases n - i,
    {
        i = i + 1;
    }
    proof {
        assert forall|j: int| 0 <= j < i - pos implies is_digit(tail[j]) by {
            assert(tail[j] == v@[pos + j]);
        }
        if i - pos < tail.len() {
            assert(tail[i - pos] == v@[i as int]);
        }
        lemma_digit_run_exact(tail, i - pos);
    }
    if i == pos {
        return None;
    }
    // Accumulate the value, watching for overflow.
    let ghost run = tail.take((i - pos) as int);
    let mut acc: u64 = 0;
    let mut over = false;
    let mut j: usize = pos;
    while j < i
        invariant
            pos <= j <= i <= n,
            n == v@.len(),
            run == tail.take((i - pos) as int),
            forall|k: int| pos <= k < i ==> is_digit(v@[k]),
            tail == v@.skip(pos as int),
            !over ==> acc == spec_digits_val(v@.subrange(pos as int, j as int)),
            over ==> spec_digits_val(v@.subrange(pos as int, j as int)) > u64::MAX,
        decreases i - j,
    {
        let ghost pre = v@.subrange(pos as int, j as int);
        let ghost post = v@.subrange(pos as int, j + 1);
        proof {
            assert(post.drop_last() =~= pre);
            assert(post.last() == v@[j as int]);
            assert(all_digits(pre));
            lemma_digits_val_nonneg(pre);
        }
        let d = match exec_digit_val(v[j]) {
            Some(d) => d,
            None => 0,  // unreachable: the run is all digits
        };
        if !over {
            let step = match acc.checked_mul(10) {
                Some(x) => x.checked_add(d),
                None => None,
            };
            match step {
                Some(x) => {
                    acc = x;
                },
                None => {
                    over = true;
                },
            }
        } else {
            proof {
                let old_val = spec_digits_val(pre);
                assert(old_val * 10 >= old_val + old_val) by (nonlinear_arith)
                    requires
                        old_val > 0,
                ;
            }
        }
        j = j + 1;
    }
    proof {
        assert(v@.subrange(pos as int, i as int) =~= tail.take((i - pos) as int));
        assert(tail.skip((i - pos) as int) =~= v@.skip(i as int));
    }
    if over {
        None
    } else {
        Some((acc, i))
    }
}

/// Parses a signed decimal number at `pos`; mirrors `spec_parse_i64`.
pub fn parse_i64(v: &Vec<char>, pos: usize) -> (r: Option<(i64, usize)>)
    requires
        pos <= v@.len(),
    ensures
        match r {
            Option::Some(p) => pos <= p.1 <= v@.len() && spec_parse_i64(v@.skip(pos as int))
                == Option::Some((p.0, v@.skip(p.1 as int))),
            Option::None => spec_parse_i64(v@.skip(pos as int)) is None,
        },
{
    let ghost tail = v@.skip(pos as int);
    if pos < v.len() && v[pos] == '-' {
        proof {
            assert(tail[0] == v@[pos as int]);
            assert(tail.skip(1) =~= v@.skip(pos + 1));
        }
        match parse_u64(v, pos + 1) {
            Some((mag, next)) => {
                if mag <= 0x7fff_ffff_ffff_ffffu64 {
                    Some((-(mag as i64), next))
                } else if mag == 0x8000_0000_0000_0000u64 {
                    Some((i64::MIN, next))
                } else {
                    None
                }
            },
            None => None,
        }
    } else {
        proof {
            if tail.len() > 0 {
                assert(tail[0] == v@[pos as int]);
            }
        }
        match parse_u64(v, pos) {
            Some((mag, next)) => {
                if mag <= 0x7fff_ffff_ffff_ffffu64 {
                    Some((mag as i64, next))
                } else {
                    None
                }
            },
            None => None,
        }
    }
}

} // verus!
