use vstd::prelude::*;

verus! {

/// Relies on str::chars: the iterator yields exactly the characters of the
/// string, in order.
#[verifier::external_body]
pub fn to_chars(s: &str) -> (r: Vec<char>)
    ensures
        r@ == s@,
{
    s.chars().collect()
}

/// Relies on String's FromIterator over char: the collected string holds
/// exactly the characters of the vector, in order.
#[verifier::external_body]
pub fn from_chars(v: &Vec<char>) -> (r: String)
    ensures
        r@ == v@,
{
    v.iter().collect()
}

/// Character-by-character equality of two vectors.
pub fn chars_eq(a: &Vec<char>, b: &Vec<char>) -> (r: bool)
    ensures
        r == (a@ == b@),
{
    if a.len() != b.len() {
        return false;
    }
    let mut i: usize = 0;
    while i < a.len()
        invariant
            i <= a.len(),
            a@.len() == b@.len(),
            forall|j: int| 0 <= j < i ==> a@[j] == b@[j],
        decreases a.len() - i,
    {
        if a[i] != b[i] {
            return false;
        }
        i = i + 1;
    }
    assert(a@ =~= b@);
    true
}

/// String equality, stated over the views.
pub fn str_eq(a: &str, b: &str) -> (r: bool)
    ensures
        r == (a@ == b@),
{
    let av = to_chars(a);
    let bv = to_chars(b);
    chars_eq(&av, &bv)
}

/// Appends all characters of `src` to `out`.
pub fn push_chars(out: &mut Vec<char>, src: &Vec<char>)
    ensures
        final(out)@ == old(out)@ + src@,
{
    let mut i: usize = 0;
    while i < src.len()
        invariant
            i <= src@.len(),
            out@ == old(out)@ + src@.take(i as int),
        decreases src.len() - i,
    {
        out.push(src[i]);
        i = i + 1;
        proof {
            assert(old(out)@ + src@.take(i as int) =~= out@);
        }
    }
    proof {
        assert(old(out)@ + src@.take(src@.len() as int) =~= old(out)@ + src@);
    }
}

/// Appends all characters of the literal `lit` to `out`.
pub fn push_lit(out: &mut Vec<char>, lit: &str)
    ensures
        final(out)@ == old(out)@ + lit@,
{
    let cs = to_chars(lit);
    push_chars(out, &cs);
}

/// Whether `lit` occurs in `v` starting at index `pos`.
pub fn match_at(v: &Vec<char>, pos: usize, lit: &Vec<char>) -> (r: bool)
    ensures
        r == (pos + lit@.len() <= v@.len() && v@.subrange(
            pos as int,
            pos + lit@.len(),
        ) == lit@),
{
    if lit.len() > v.len() || pos > v.len() - lit.len() {
        return false;
    }
    let n = v.len();
    let mut i: usize = 0;
    while i < lit.len()
        invariant
            i <= lit@.len(),
            n == v@.len(),
            pos + lit@.len() <= v@.len(),
            forall|j: int| 0 <= j < i ==> v@[pos + j] == lit@[j],
        decreases lit.len() - i,
    {
        if v[pos + i] != lit[i] {
            assert(v@.subrange(pos as int, pos + lit@.len()) != lit@) by {
                assert(v@.subrange(pos as int, pos + lit@.len())[i as int] == v@[pos + i]);
            }
            return false;
        }
        i = i + 1;
    }
    assert(v@.subrange(pos as int, pos + lit@.len()) =~= lit@);
    true
}

} // verus!
