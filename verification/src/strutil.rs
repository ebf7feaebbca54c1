use vstd::prelude::*;
use crate::chars::{from_chars, match_at, push_chars, to_chars};
use crate::engine::spec_join;

verus! {

/// What `String::from_utf8` yields for these bytes when they are valid
/// UTF-8, and the empty string otherwise; a function of the bytes alone.
pub uninterp spec fn utf8_or_default(bytes: Seq<u8>) -> Seq<char>;

/// The captured output of a process as text.
///
/// Relies on String::from_utf8: decodes the bytes as UTF-8, falling back
/// to the empty string when they are not valid; the result depends on the
/// bytes alone.
#[verifier::external_body]
pub fn output_to_string(data: Vec<u8>) -> (r: String)
    ensures
        r@ == utf8_or_default(data@),
{
    String::from_utf8(data).unwrap_or_default()
}

/// The directory of one named fixture below the fixtures root.
pub fn get_fixtures_dir(root: &str, dir: &str) -> (r: String)
    ensures
        r@ == spec_join(root@, dir@),
{
    crate::engine::join(root, dir)
}

/// `s` with every backslash turned into a forward slash, so that paths
/// and glob patterns read the same on every platform.
pub open spec fn spec_forward_slashes(s: Seq<char>) -> Seq<char> {
    Seq::new(
        s.len(),
        |i: int|
            if s[i] == '\\' {
                '/'
            } else {
                s[i]
            },
    )
}

/// A path made safe for use in a glob pattern: separators standardized to
/// forward slashes.
pub fn wrap_glob(path: &str) -> (r: String)
    ensures
        r@ == spec_forward_slashes(path@),
{
    let v = to_chars(path);
    let mut out: Vec<char> = Vec::new();
    let mut i: usize = 0;
    while i < v.len()
        invariant
            i <= v@.len(),
            v@ == path@,
            out@ == spec_forward_slashes(path@).take(i as int),
        decreases v.len() - i,
    {
        let c = v[i];
        if c == '\\' {
            out.push('/');
        } else {
            out.push(c);
        }
        i = i + 1;
        proof {
            assert(out@ =~= spec_forward_slashes(path@).take(i as int));
        }
    }
    proof {
        assert(spec_forward_slashes(path@).take(v@.len() as int) =~= spec_forward_slashes(path@));
    }
    from_chars(&out)
}

/// `s` with every occurrence of `from` replaced by `to`, scanning left to
/// right without re-scanning what was substituted; an empty `from` leaves
/// `s` alone.
pub open spec fn spec_replace(s: Seq<char>, from: Seq<char>, to: Seq<char>) -> Seq<char>
    decreases s.len(),
{
    if from.len() == 0 || s.len() < from.len() {
        s
    } else if s.take(from.len() as int) == from {
        to + spec_replace(s.skip(from.len() as int), from, to)
    } else {
        seq![s[0]] + spec_replace(s.skip(1), from, to)
    }
}

fn replace_all(value: &str, from: &str, to: &str) -> (r: String)
    ensures
        r@ == spec_replace(value@, from@, to@),
{
    let v = to_chars(value);
    let f = to_chars(from);
    let t = to_chars(to);
    if f.len() == 0 {
        proof {
            assert(spec_replace(value@, from@, to@) == value@);
        }
        return value.to_owned();
    }
    let n = v.len();
    let mut out: Vec<char> = Vec::new();
    let mut i: usize = 0;
    proof {
        assert(v@.skip(0) =~= v@);
        assert(out@ + spec_replace(v@, from@, to@) =~= spec_replace(value@, from@, to@));
    }
    while i < n
        invariant
            i <= n,
            n == v@.len(),
            v@ == value@,
            f@ == from@,
            t@ == to@,
            f@.len() > 0,
            spec_replace(value@, from@, to@) == out@ + spec_replace(v@.skip(i as int), from@, to@),
        decreases n - i,
    {
        let ghost tail = v@.skip(i as int);
        if match_at(&v, i, &f) {
            proof {
                assert(tail.take(f@.len() as int) =~= v@.subrange(i as int, i + f@.len()));
                assert(tail.skip(f@.len() as int) =~= v@.skip(i + f@.len()));
            }
            push_chars(&mut out, &t);
            proof {
                assert(out@ + spec_replace(v@.skip(i + f@.len()), from@, to@) =~= spec_replace(
                    value@,
                    from@,
                    to@,
                ));
            }
            i = i + f.len();
        } else {
            proof {
                if f@.len() <= tail.len() {
                    assert(tail.take(f@.len() as int) =~= v@.subrange(i as int, i + f@.len()));
                }
                assert(tail[0] == v@[i as int]);
                assert(tail.skip(1) =~= v@.skip(i + 1));
            }
            out.push(v[i]);
            proof {
                assert(out@ + spec_replace(v@.skip(i + 1), from@, to@) =~= spec_replace(
                    value@,
                    from@,
                    to@,
                ));
            }
            i = i + 1;
        }
    }
    proof {
        assert(v@.skip(n as int).len() == 0);
        assert(out@ =~= spec_replace(value@, from@, to@));
    }
    from_chars(&out)
}

/// Blots out the fixtures directory in captured output: every occurrence
/// of `dir`, written with either kind of separator, becomes the
/// `<WORKSPACE>` placeholder, so snapshots do not depend on where the
/// fixtures live.
pub fn replace_fixtures_dir(value: &str, dir: &str) -> (r: String)
    ensures
        r@ == spec_replace(
            spec_replace(value@, dir@, "<WORKSPACE>"@),
            spec_forward_slashes(dir@),
            "<WORKSPACE>"@,
        ),
{
    let pass1 = replace_all(value, dir, "<WORKSPACE>");
    let standardized = wrap_glob(dir);
    replace_all(pass1.as_str(), standardized.as_str(), "<WORKSPACE>")
}

// ------------------------------------------------------------------
// Snapshot filtering of command output.
// ------------------------------------------------------------------
/// The length of the first line of `s`: the characters before its first
/// newline, or all of `s` when it has none.
pub open spec fn spec_line_len(s: Seq<char>) -> int
    decreases s.len(),
{
    if s.len() == 0 {
        0
    } else if s[0] == '\n' {
        0
    } else {
        1 + spec_line_len(s.skip(1))
    }
}

pub open spec fn spec_starts_with(s: Seq<char>, p: Seq<char>) -> bool {
    p.len() <= s.len() && s.take(p.len() as int) == p
}

/// Whether a line of command output belongs in a snapshot: log lines and
/// environment listings are dropped.
pub open spec fn spec_keep_line(l: Seq<char>) -> bool {
    !spec_starts_with(l, "[error"@) && !spec_starts_with(l, "[ warn"@) && !spec_starts_with(
        l,
        "[ info"@,
    ) && !spec_starts_with(l, "[debug"@) && !spec_starts_with(l, "[trace"@) && !spec_starts_with(
        l,
        "  MOON_"@,
    ) && !spec_starts_with(l, "  NODE_"@)
}

/// `s` split at newlines, with every kept line written back followed by
/// one newline.
pub open spec fn spec_filter_lines(s: Seq<char>) -> Seq<char>
    decreases s.len(),
    via spec_filter_lines_dec
{
    let k = spec_line_len(s);
    let line = s.take(k);
    let kept = if spec_keep_line(line) {
        line + seq!['\n']
    } else {
        Seq::empty()
    };
    if k == s.len() {
        kept
    } else {
        kept + spec_filter_lines(s.skip(k + 1))
    }
}

#[via_fn]
proof fn spec_filter_lines_dec(s: Seq<char>) {
    lemma_line_len_bound(s);
}

proof fn lemma_line_len_bound(s: Seq<char>)
    ensures
        0 <= spec_line_len(s) <= s.len(),
    decreases s.len(),
{
    if s.len() > 0 && s[0] != '\n' {
        lemma_line_len_bound(s.skip(1));
    }
}

proof fn lemma_line_len_exact(s: Seq<char>, m: int)
    requires
        0 <= m <= s.len(),
        forall|j: int| 0 <= j < m ==> s[j] != '\n',
        m == s.len() || s[m] == '\n',
    ensures
        spec_line_len(s) == m,
    decreases m,
{
    if m > 0 {
        lemma_line_len_exact(s.skip(1), m - 1);
    }
}

fn starts_with_lit(line: &Vec<char>, p: &str) -> (r: bool)
    ensures
        r == spec_starts_with(line@, p@),
{
    let pv = to_chars(p);
    let r = match_at(line, 0, &pv);
    proof {
        if p@.len() <= line@.len() {
            assert(line@.subrange(0, p@.len() as int) =~= line@.take(p@.len() as int));
        }
    }
    r
}

/// The stderr of a command with log lines and environment listings
/// removed, so that snapshots stay stable while logging is on. Every kept
/// line is followed by one newline.
pub fn get_assert_stderr_output(stderr: &str) -> (r: String)
    ensures
        r@ == spec_filter_lines(stderr@),
{
    let v = to_chars(stderr);
    let n = v.len();
    let mut out: Vec<char> = Vec::new();
    let mut i: usize = 0;
    let mut done = false;
    proof {
        assert(v@.skip(0) =~= v@);
        assert(out@ + spec_filter_lines(stderr@) =~= spec_filter_lines(stderr@));
    }
    while !done
        invariant
            n == v@.len(),
            v@ == stderr@,
            done ==> spec_filter_lines(stderr@) == out@,
            !done ==> i <= n && spec_filter_lines(stderr@) == out@ + spec_filter_lines(
                v@.skip(i as int),
            ),
        decreases n - i + (if done {
            0int
        } else {
            1int
        }),
    {
        let ghost tail = v@.skip(i as int);
        // Collect the line that starts at `i`.
        let mut line: Vec<char> = Vec::new();
        let mut j = i;
        while j < n && v[j] != '\n'
            invariant
                i <= j <= n,
                n == v@.len(),
                line@ == v@.subrange(i as int, j as int),
                forall|m: int| i <= m < j ==> v@[m] != '\n',
            decreases n - j,
        {
            line.push(v[j]);
            j = j + 1;
            proof {
                assert(line@ =~= v@.subrange(i as int, j as int));
            }
        }
        proof {
            assert forall|m: int| 0 <= m < j - i implies tail[m] != '\n' by {
                assert(tail[m] == v@[i + m]);
            }
            if j < n {
                assert(tail[j - i] == v@[j as int]);
            }
            lemma_line_len_exact(tail, j - i);
            assert(tail.take(j - i) =~= v@.subrange(i as int, j as int));
        }
        let keep = !(starts_with_lit(&line, "[error") || starts_with_lit(&line, "[ warn")
            || starts_with_lit(&line, "[ info") || starts_with_lit(&line, "[debug")
            || starts_with_lit(&line, "[trace") || starts_with_lit(&line, "  MOON_")
            || starts_with_lit(&line, "  NODE_"));
        if keep {
            push_chars(&mut out, &line);
            out.push('\n');
        }
        if j == n {
            done = true;
        } else {
            proof {
                assert(tail.skip(j - i + 1) =~= v@.skip(j + 1));
            }
            i = j + 1;
        }
    }
    from_chars(&out)
}

/// The full output of a command: its stdout followed by its filtered
/// stderr.
pub fn get_assert_output(stdout: &str, stderr: &str) -> (r: String)
    ensures
        r@ == stdout@ + spec_filter_lines(stderr@),
{
    let mut out = stdout.to_owned();
    let filtered = get_assert_stderr_output(stderr);
    out.append(filtered.as_str());
    out
}

} // verus!
