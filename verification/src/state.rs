use vstd::prelude::*;
use crate::chars::{from_chars, match_at, push_chars, push_lit, to_chars};
use crate::jnum::{
    dec_i64_chars, dec_u64_chars, is_digit, lemma_parse_i64_rt, lemma_parse_u64_rt, parse_i64,
    parse_u64, spec_dec_int, spec_dec_nat, spec_parse_i64, spec_parse_u64,
};
use crate::jstr::{lemma_parse_jstr_rt, parse_jstr, push_jstr, spec_jstr, spec_parse_jstr};
use crate::jcoll::{
    lemma_parse_strlist_rt, lemma_parse_strmap_rt, parse_strlist, parse_strmap, push_strlist,
    push_strmap, spec_enc_strlist, spec_enc_strmap, spec_parse_strlist, spec_parse_strmap,
};

verus! {

// ------------------------------------------------------------------
// Optional object fields.
//
// A record's JSON text is an object whose known fields appear in schema
// order, each field optional; a missing field takes the record's default.
// The prefix of a present field is `"name":` for the first field written
// and `,"name":` for every later one.
// ------------------------------------------------------------------
/// Parses one optional unsigned field: when the expected prefix is there,
/// the field must follow; when it is not, the default is taken and the
/// input is left alone. The last component tells whether the next field
/// would still be the first one written.
pub open spec fn spec_opt_u64_field(
    s: Seq<char>,
    pf: Seq<char>,
    pl: Seq<char>,
    first: bool,
    dflt: u64,
) -> Option<(u64, Seq<char>, bool)> {
    let p = if first {
        pf
    } else {
        pl
    };
    if p.len() <= s.len() && s.take(p.len() as int) == p {
        match spec_parse_u64(s.skip(p.len() as int)) {
            Option::None => Option::None,
            Option::Some((x, r)) => Option::Some((x, r, false)),
        }
    } else {
        Option::Some((dflt, s, first))
    }
}

/// As `spec_opt_u64_field`, for signed numbers.
pub open spec fn spec_opt_i64_field(
    s: Seq<char>,
    pf: Seq<char>,
    pl: Seq<char>,
    first: bool,
    dflt: i64,
) -> Option<(i64, Seq<char>, bool)> {
    let p = if first {
        pf
    } else {
        pl
    };
    if p.len() <= s.len() && s.take(p.len() as int) == p {
        match spec_parse_i64(s.skip(p.len() as int)) {
            Option::None => Option::None,
            Option::Some((x, r)) => Option::Some((x, r, false)),
        }
    } else {
        Option::Some((dflt, s, first))
    }
}

/// As `spec_opt_u64_field`, for string values; the default is the empty
/// string.
pub open spec fn spec_opt_str_field(s: Seq<char>, pf: Seq<char>, pl: Seq<char>, first: bool) -> Option<
    (Seq<char>, Seq<char>, bool),
> {
    let p = if first {
        pf
    } else {
        pl
    };
    if p.len() <= s.len() && s.take(p.len() as int) == p {
        match spec_parse_jstr(s.skip(p.len() as int)) {
            Option::None => Option::None,
            Option::Some((x, r)) => Option::Some((x, r, false)),
        }
    } else {
        Option::Some((Seq::empty(), s, first))
    }
}

/// As `spec_opt_u64_field`, for string-array values; the default is empty.
pub open spec fn spec_opt_strlist_field(
    s: Seq<char>,
    pf: Seq<char>,
    pl: Seq<char>,
    first: bool,
) -> Option<(Seq<Seq<char>>, Seq<char>, bool)> {
    let p = if first {
        pf
    } else {
        pl
    };
    if p.len() <= s.len() && s.take(p.len() as int) == p {
        match spec_parse_strlist(s.skip(p.len() as int)) {
            Option::None => Option::None,
            Option::Some((x, r)) => Option::Some((x, r, false)),
        }
    } else {
        Option::Some((Seq::empty(), s, first))
    }
}

/// As `spec_opt_u64_field`, for string-object values; the default is empty.
pub open spec fn spec_opt_strmap_field(
    s: Seq<char>,
    pf: Seq<char>,
    pl: Seq<char>,
    first: bool,
) -> Option<(Seq<(Seq<char>, Seq<char>)>, Seq<char>, bool)> {
    let p = if first {
        pf
    } else {
        pl
    };
    if p.len() <= s.len() && s.take(p.len() as int) == p {
        match spec_parse_strmap(s.skip(p.len() as int)) {
            Option::None => Option::None,
            Option::Some((x, r)) => Option::Some((x, r, false)),
        }
    } else {
        Option::Some((Seq::empty(), s, first))
    }
}

// Exec counterparts. Each one mirrors its spec function on the tail of the
// view starting at `pos`.
fn key_at(v: &Vec<char>, pos: usize, kf: &str, kl: &str, first: bool) -> (r: Option<usize>)
    requires
        pos <= v@.len(),
    ensures
        ({
            let p = if first {
                kf@
            } else {
                kl@
            };
            let s = v@.skip(pos as int);
            match r {
                Option::Some(next) => pos <= next <= v@.len() && p.len() <= s.len() && s.take(
                    p.len() as int,
                ) == p && v@.skip(next as int) == s.skip(p.len() as int),
                Option::None => !(p.len() <= s.len() && s.take(p.len() as int) == p),
            }
        }),
{
    let key = if first {
        to_chars(kf)
    } else {
        to_chars(kl)
    };
    let n = v.len();
    let ghost s = v@.skip(pos as int);
    let ghost p = key@;
    proof {
        if pos + p.len() <= v@.len() {
            assert(s.take(p.len() as int) =~= v@.subrange(pos as int, pos + p.len()));
            assert(s.skip(p.len() as int) =~= v@.skip(pos + p.len()));
        } else {
            assert(p.len() > s.len());
        }
    }
    if match_at(v, pos, &key) {
        Some(pos + key.len())
    } else {
        None
    }
}

fn opt_u64_field(v: &Vec<char>, pos: usize, kf: &str, kl: &str, first: bool, dflt: u64) -> (r:
    Option<(u64, usize, bool)>)
    requires
        pos <= v@.len(),
    ensures
        match r {
            Option::Some(t) => pos <= t.1 <= v@.len() && spec_opt_u64_field(
                v@.skip(pos as int),
                kf@,
                kl@,
                first,
                dflt,
            ) == Option::Some((t.0, v@.skip(t.1 as int), t.2)),
            Option::None => spec_opt_u64_field(v@.skip(pos as int), kf@, kl@, first, dflt)
                is None,
        },
{
    match key_at(v, pos, kf, kl, first) {
        Option::Some(next) => match parse_u64(v, next) {
            Option::Some((x, j)) => Some((x, j, false)),
            Option::None => None,
        },
        Option::None => Some((dflt, pos, first)),
    }
}

fn opt_i64_field(v: &Vec<char>, pos: usize, kf: &str, kl: &str, first: bool, dflt: i64) -> (r:
    Option<(i64, usize, bool)>)
    requires
        pos <= v@.len(),
    ensures
        match r {
            Option::Some(t) => pos <= t.1 <= v@.len() && spec_opt_i64_field(
                v@.skip(pos as int),
                kf@,
                kl@,
                first,
                dflt,
            ) == Option::Some((t.0, v@.skip(t.1 as int), t.2)),
            Option::None => spec_opt_i64_field(v@.skip(pos as int), kf@, kl@, first, dflt)
                is None,
        },
{
    match key_at(v, pos, kf, kl, first) {
        Option::Some(next) => match parse_i64(v, next) {
            Option::Some((x, j)) => Some((x, j, false)),
            Option::None => None,
        },
        Option::None => Some((dflt, pos, first)),
    }
}

fn opt_str_field(v: &Vec<char>, pos: usize, kf: &str, kl: &str, first: bool) -> (r: Option<
    (String, usize, bool),
>)
    requires
        pos <= v@.len(),
    ensures
        match r {
            Option::Some(t) => pos <= t.1 <= v@.len() && spec_opt_str_field(
                v@.skip(pos as int),
                kf@,
                kl@,
                first,
            ) == Option::Some((t.0@, v@.skip(t.1 as int), t.2)),
            Option::None => spec_opt_str_field(v@.skip(pos as int), kf@, kl@, first) is None,
        },
{
    match key_at(v, pos, kf, kl, first) {
        Option::Some(next) => match parse_jstr(v, next) {
            Option::Some((x, j)) => Some((from_chars(&x), j, false)),
            Option::None => None,
        },
        Option::None => {
            let empty = String::new();
            Some((empty, pos, first))
        },
    }
}

fn opt_strlist_field(v: &Vec<char>, pos: usize, kf: &str, kl: &str, first: bool) -> (r: Option<
    (Vec<String>, usize, bool),
>)
    requires
        pos <= v@.len(),
    ensures
        match r {
            Option::Some(t) => pos <= t.1 <= v@.len() && spec_opt_strlist_field(
                v@.skip(pos as int),
                kf@,
                kl@,
                first,
            ) == Option::Some((t.0.deep_view(), v@.skip(t.1 as int), t.2)),
            Option::None => spec_opt_strlist_field(v@.skip(pos as int), kf@, kl@, first) is None,
        },
{
    match key_at(v, pos, kf, kl, first) {
        Option::Some(next) => match parse_strlist(v, next) {
            Option::Some((x, j)) => Some((x, j, false)),
            Option::None => None,
        },
        Option::None => {
            let empty: Vec<String> = Vec::new();
            proof {
                assert(empty.deep_view() =~= Seq::<Seq<char>>::empty());
            }
            Some((empty, pos, first))
        },
    }
}

fn opt_strmap_field(v: &Vec<char>, pos: usize, kf: &str, kl: &str, first: bool) -> (r: Option<
    (Vec<(String, String)>, usize, bool),
>)
    requires
        pos <= v@.len(),
    ensures
        match r {
            Option::Some(t) => pos <= t.1 <= v@.len() && spec_opt_strmap_field(
                v@.skip(pos as int),
                kf@,
                kl@,
                first,
            ) == Option::Some((t.0.deep_view(), v@.skip(t.1 as int), t.2)),
            Option::None => spec_opt_strmap_field(v@.skip(pos as int), kf@, kl@, first) is None,
        },
{
    match key_at(v, pos, kf, kl, first) {
        Option::Some(next) => match parse_strmap(v, next) {
            Option::Some((x, j)) => Some((x, j, false)),
            Option::None => None,
        },
        Option::None => {
            let empty: Vec<(String, String)> = Vec::new();
            proof {
                assert(empty.deep_view() =~= Seq::<(Seq<char>, Seq<char>)>::empty());
            }
            Some((empty, pos, first))
        },
    }
}

// ------------------------------------------------------------------
// Field round trips: a field written with its key parses back.
// ------------------------------------------------------------------
proof fn lemma_field_u64_hit(
    n: u64,
    k: Seq<char>,
    rest: Seq<char>,
    pf: Seq<char>,
    pl: Seq<char>,
    first: bool,
    dflt: u64,
)
    requires
        (if first {
            pf
        } else {
            pl
        }) == k,
        rest.len() == 0 || !is_digit(rest[0]),
    ensures
        spec_opt_u64_field(k + (spec_dec_nat(n as nat) + rest), pf, pl, first, dflt)
            == Option::Some((n, rest, false)),
{
    let s = k + (spec_dec_nat(n as nat) + rest);
    assert(s.take(k.len() as int) =~= k);
    assert(s.skip(k.len() as int) =~= spec_dec_nat(n as nat) + rest);
    lemma_parse_u64_rt(n, rest);
}

proof fn lemma_field_i64_hit(
    n: i64,
    k: Seq<char>,
    rest: Seq<char>,
    pf: Seq<char>,
    pl: Seq<char>,
    first: bool,
    dflt: i64,
)
    requires
        (if first {
            pf
        } else {
            pl
        }) == k,
        rest.len() == 0 || !is_digit(rest[0]),
    ensures
        spec_opt_i64_field(k + (spec_dec_int(n as int) + rest), pf, pl, first, dflt)
            == Option::Some((n, rest, false)),
{
    let s = k + (spec_dec_int(n as int) + rest);
    assert(s.take(k.len() as int) =~= k);
    assert(s.skip(k.len() as int) =~= spec_dec_int(n as int) + rest);
    lemma_parse_i64_rt(n, rest);
}

proof fn lemma_field_str_hit(
    x: Seq<char>,
    k: Seq<char>,
    rest: Seq<char>,
    pf: Seq<char>,
    pl: Seq<char>,
    first: bool,
)
    requires
        (if first {
            pf
        } else {
            pl
        }) == k,
    ensures
        spec_opt_str_field(k + (spec_jstr(x) + rest), pf, pl, first) == Option::Some(
            (x, rest, false),
        ),
{
    let s = k + (spec_jstr(x) + rest);
    assert(s.take(k.len() as int) =~= k);
    assert(s.skip(k.len() as int) =~= spec_jstr(x) + rest);
    lemma_parse_jstr_rt(x, rest);
}

proof fn lemma_field_strlist_hit(
    xs: Seq<Seq<char>>,
    k: Seq<char>,
    rest: Seq<char>,
    pf: Seq<char>,
    pl: Seq<char>,
    first: bool,
)
    requires
        (if first {
            pf
        } else {
            pl
        }) == k,
    ensures
        spec_opt_strlist_field(k + (spec_enc_strlist(xs) + rest), pf, pl, first) == Option::Some(
            (xs, rest, false),
        ),
{
    let s = k + (spec_enc_strlist(xs) + rest);
    assert(s.take(k.len() as int) =~= k);
    assert(s.skip(k.len() as int) =~= spec_enc_strlist(xs) + rest);
    lemma_parse_strlist_rt(xs, rest);
}

proof fn lemma_field_strmap_hit(
    kvs: Seq<(Seq<char>, Seq<char>)>,
    k: Seq<char>,
    rest: Seq<char>,
    pf: Seq<char>,
    pl: Seq<char>,
    first: bool,
)
    requires
        (if first {
            pf
        } else {
            pl
        }) == k,
    ensures
        spec_opt_strmap_field(k + (spec_enc_strmap(kvs) + rest), pf, pl, first) == Option::Some(
            (kvs, rest, false),
        ),
{
    let s = k + (spec_enc_strmap(kvs) + rest);
    assert(s.take(k.len() as int) =~= k);
    assert(s.skip(k.len() as int) =~= spec_enc_strmap(kvs) + rest);
    lemma_parse_strmap_rt(kvs, rest);
}

// ------------------------------------------------------------------
// The record trait.
// ------------------------------------------------------------------
/// A record that a state cache can persist: it has a default value, a
/// canonical JSON text, and a parser.
///
/// The canonical text is compact single-line JSON with the fields in
/// schema order — the shape the engine itself writes and the stored files
/// carry. The parser accepts exactly that shape, with each field optional
/// (a missing field takes the default) and no whitespace between tokens;
/// a record rewritten by another tool must keep the canonical form, or the
/// load reports data corruption rather than guessing. Writing a record and
/// parsing the text back yields the same record (`lemma_round_trip`).
pub trait StateRecord: View + Sized {
    /// The default value, at the spec level.
    spec fn spec_default() -> Self::V;

    /// The canonical JSON text of a record value.
    spec fn spec_encode(v: Self::V) -> Seq<char>;

    /// The parse of `s` as a record value; `None` when `s` is not accepted.
    spec fn spec_decode(s: Seq<char>) -> Option<Self::V>;

    /// Builds the default value.
    fn default_value() -> (r: Self)
        ensures
            r@ == Self::spec_default(),
    ;

    /// Writes the canonical JSON text of this record.
    fn encode(&self) -> (r: String)
        ensures
            r@ == Self::spec_encode(self@),
    ;

    /// Parses a record from JSON text.
    fn decode(s: &str) -> (r: Option<Self>)
        ensures
            match r {
                Option::Some(x) => Self::spec_decode(s@) == Option::Some(x@),
                Option::None => Self::spec_decode(s@) is None,
            },
    ;

    /// The canonical JSON text of a record parses back to the same value.
    proof fn lemma_round_trip(v: Self::V)
        ensures
            Self::spec_decode(Self::spec_encode(v)) == Option::Some(v),
    ;
}

// ------------------------------------------------------------------
// WorkspaceState
// ------------------------------------------------------------------
/// Workspace-wide record: timestamps (ms since the epoch) of the last
/// toolchain install and the last update check.
#[derive(Clone, Copy, Debug, PartialEq, Eq, Structural)]
pub struct WorkspaceState {
    pub last_node_install_time: u64,
    pub last_version_check_time: u64,
}

impl View for WorkspaceState {
    type V = WorkspaceState;

    open spec fn view(&self) -> WorkspaceState {
        *self
    }
}

impl StateRecord for WorkspaceState {
    open spec fn spec_default() -> WorkspaceState {
        WorkspaceState { last_node_install_time: 0, last_version_check_time: 0 }
    }

    open spec fn spec_encode(v: WorkspaceState) -> Seq<char> {
        "{\"lastNodeInstallTime\":"@ + spec_dec_nat(v.last_node_install_time as nat)
            + ",\"lastVersionCheckTime\":"@ + spec_dec_nat(v.last_version_check_time as nat)
            + "}"@
    }

    open spec fn spec_decode(s: Seq<char>) -> Option<WorkspaceState> {
        if s.len() == 0 || s[0] != '{' {
            Option::None
        } else {
            match spec_opt_u64_field(
                s.skip(1),
                "\"lastNodeInstallTime\":"@,
                ",\"lastNodeInstallTime\":"@,
                true,
                0,
            ) {
                Option::None => Option::None,
                Option::Some((a, r1, f1)) => match spec_opt_u64_field(
                    r1,
                    "\"lastVersionCheckTime\":"@,
                    ",\"lastVersionCheckTime\":"@,
                    f1,
                    0,
                ) {
                    Option::None => Option::None,
                    Option::Some((b, r2, _)) => if r2 =~= seq!['}'] {
                        Option::Some(
                            WorkspaceState {
                                last_node_install_time: a,
                                last_version_check_time: b,
                            },
                        )
                    } else {
                        Option::None
                    },
                },
            }
        }
    }

    fn default_value() -> (r: WorkspaceState) {
        WorkspaceState { last_node_install_time: 0, last_version_check_time: 0 }
    }

    fn encode(&self) -> (r: String) {
        let mut out: Vec<char> = Vec::new();
        push_lit(&mut out, "{\"lastNodeInstallTime\":");
        let a = dec_u64_chars(self.last_node_install_time);
        push_chars(&mut out, &a);
        push_lit(&mut out, ",\"lastVersionCheckTime\":");
        let b = dec_u64_chars(self.last_version_check_time);
        push_chars(&mut out, &b);
        push_lit(&mut out, "}");
        proof {
            assert(out@ =~= Self::spec_encode(self@));
        }
        from_chars(&out)
    }

    fn decode(s: &str) -> (r: Option<WorkspaceState>) {
        let v = to_chars(s);
        let n = v.len();
        if n == 0 || v[0] != '{' {
            return None;
        }
        proof {
            assert(v@.skip(1) == s@.skip(1));
        }
        let f1 = opt_u64_field(
            &v,
            1,
            "\"lastNodeInstallTime\":",
            ",\"lastNodeInstallTime\":",
            true,
            0,
        );
        match f1 {
            None => None,
            Some((a, p1, first1)) => {
                let f2 = opt_u64_field(
                    &v,
                    p1,
                    "\"lastVersionCheckTime\":",
                    ",\"lastVersionCheckTime\":",
                    first1,
                    0,
                );
                match f2 {
                    None => None,
                    Some((b, p2, _)) => {
                        if p2 == n - 1 && v[p2] == '}' {
                            proof {
                                assert(v@.skip(p2 as int) =~= seq!['}']);
                            }
                            Some(
                                WorkspaceState {
                                    last_node_install_time: a,
                                    last_version_check_time: b,
                                },
                            )
                        } else {
                            proof {
                                let r2 = v@.skip(p2 as int);
                                if p2 < n {
                                    assert(r2[0] == v@[p2 as int]);
                                }
                                assert(!(r2 =~= seq!['}']));
                            }
                            None
                        }
                    },
                }
            },
        }
    }

    proof fn lemma_round_trip(v: WorkspaceState) {
        let p1: Seq<char> = "{\"lastNodeInstallTime\":"@;
        let k1: Seq<char> = "\"lastNodeInstallTime\":"@;
        let k2: Seq<char> = ",\"lastVersionCheckTime\":"@;
        let close: Seq<char> = "}"@;
        let a = spec_dec_nat(v.last_node_install_time as nat);
        let b = spec_dec_nat(v.last_version_check_time as nat);
        let s = Self::spec_encode(v);
        reveal_strlit("{\"lastNodeInstallTime\":");
        reveal_strlit("\"lastNodeInstallTime\":");
        reveal_strlit(",\"lastVersionCheckTime\":");
        reveal_strlit("}");
        assert(p1 =~= seq!['{'] + k1);
        assert(s[0] == '{');
        let r0 = s.skip(1);
        assert(r0 =~= k1 + (a + k2 + b + close));
        let rest1 = a + k2 + b + close;
        assert(r0.take(k1.len() as int) =~= k1);
        assert(r0.skip(k1.len() as int) =~= rest1);
        assert(rest1 =~= a + (k2 + b + close));
        assert((k2 + b + close)[0] == ',');
        assert(!is_digit(','));
        lemma_parse_u64_rt(v.last_node_install_time, k2 + b + close);
        let r1 = k2 + b + close;
        assert(r1.take(k2.len() as int) =~= k2);
        assert(r1.skip(k2.len() as int) =~= b + close);
        assert(close[0] == '}');
        assert(!is_digit('}'));
        lemma_parse_u64_rt(v.last_version_check_time, close);
        assert(close =~= seq!['}']);
    }
}

// ------------------------------------------------------------------
// RunTargetState
// ------------------------------------------------------------------
/// Per-target record: the latest run of one `project:task` target.
#[derive(Clone, Debug, PartialEq)]
pub struct RunTargetState {
    pub exit_code: i64,
    pub hash: String,
    pub last_run_time: u64,
    pub stderr: String,
    pub stdout: String,
    pub target: String,
}

/// The mathematical value of a `RunTargetState`.
#[verifier::ext_equal]
pub struct RunTargetStateV {
    pub exit_code: i64,
    pub hash: Seq<char>,
    pub last_run_time: u64,
    pub stderr: Seq<char>,
    pub stdout: Seq<char>,
    pub target: Seq<char>,
}

impl View for RunTargetState {
    type V = RunTargetStateV;

    open spec fn view(&self) -> RunTargetStateV {
        RunTargetStateV {
            exit_code: self.exit_code,
            hash: self.hash@,
            last_run_time: self.last_run_time,
            stderr: self.stderr@,
            stdout: self.stdout@,
            target: self.target@,
        }
    }
}

impl StateRecord for RunTargetState {
    open spec fn spec_default() -> RunTargetStateV {
        RunTargetStateV {
            exit_code: 0,
            hash: Seq::empty(),
            last_run_time: 0,
            stderr: Seq::empty(),
            stdout: Seq::empty(),
            target: Seq::empty(),
        }
    }

    open spec fn spec_encode(v: RunTargetStateV) -> Seq<char> {
        "{\"exitCode\":"@ + spec_dec_int(v.exit_code as int) + ",\"hash\":"@ + spec_jstr(v.hash)
            + ",\"lastRunTime\":"@ + spec_dec_nat(v.last_run_time as nat) + ",\"stderr\":"@
            + spec_jstr(v.stderr) + ",\"stdout\":"@ + spec_jstr(v.stdout) + ",\"target\":"@
            + spec_jstr(v.target) + "}"@
    }

    open spec fn spec_decode(s: Seq<char>) -> Option<RunTargetStateV> {
        if s.len() == 0 || s[0] != '{' {
            Option::None
        } else {
            match spec_opt_i64_field(s.skip(1), "\"exitCode\":"@, ",\"exitCode\":"@, true, 0) {
                Option::None => Option::None,
                Option::Some((ec, r1, f1)) => match spec_opt_str_field(
                    r1,
                    "\"hash\":"@,
                    ",\"hash\":"@,
                    f1,
                ) {
                    Option::None => Option::None,
                    Option::Some((h, r2, f2)) => match spec_opt_u64_field(
                        r2,
                        "\"lastRunTime\":"@,
                        ",\"lastRunTime\":"@,
                        f2,
                        0,
                    ) {
                        Option::None => Option::None,
                        Option::Some((lrt, r3, f3)) => match spec_opt_str_field(
                            r3,
                            "\"stderr\":"@,
                            ",\"stderr\":"@,
                            f3,
                        ) {
                            Option::None => Option::None,
                            Option::Some((se, r4, f4)) => match spec_opt_str_field(
                                r4,
                                "\"stdout\":"@,
                                ",\"stdout\":"@,
                                f4,
                            ) {
                                Option::None => Option::None,
                                Option::Some((so, r5, f5)) => match spec_opt_str_field(
                                    r5,
                                    "\"target\":"@,
                                    ",\"target\":"@,
                                    f5,
                                ) {
                                    Option::None => Option::None,
                                    Option::Some((t, r6, _)) => if r6 =~= seq!['}'] {
                                        Option::Some(
                                            RunTargetStateV {
                                                exit_code: ec,
                                                hash: h,
                                                last_run_time: lrt,
                                                stderr: se,
                                                stdout: so,
                                                target: t,
                                            },
                                        )
                                    } else {
                                        Option::None
                                    },
                                },
                            },
                        },
                    },
                },
            }
        }
    }

    fn default_value() -> (r: RunTargetState) {
        RunTargetState {
            exit_code: 0,
            hash: String::new(),
            last_run_time: 0,
            stderr: String::new(),
            stdout: String::new(),
            target: String::new(),
        }
    }

    fn encode(&self) -> (r: String) {
        let mut out: Vec<char> = Vec::new();
        push_lit(&mut out, "{\"exitCode\":");
        let ec = dec_i64_chars(self.exit_code);
        push_chars(&mut out, &ec);
        push_lit(&mut out, ",\"hash\":");
        let h = to_chars(self.hash.as_str());
        push_jstr(&mut out, &h);
        push_lit(&mut out, ",\"lastRunTime\":");
        let lrt = dec_u64_chars(self.last_run_time);
        push_chars(&mut out, &lrt);
        push_lit(&mut out, ",\"stderr\":");
        let se = to_chars(self.stderr.as_str());
        push_jstr(&mut out, &se);
        push_lit(&mut out, ",\"stdout\":");
        let so = to_chars(self.stdout.as_str());
        push_jstr(&mut out, &so);
        push_lit(&mut out, ",\"target\":");
        let t = to_chars(self.target.as_str());
        push_jstr(&mut out, &t);
        push_lit(&mut out, "}");
        proof {
            assert(out@ =~= Self::spec_encode(self@));
        }
        from_chars(&out)
    }

    fn decode(s: &str) -> (r: Option<RunTargetState>) {
        let v = to_chars(s);
        let n = v.len();
        if n == 0 || v[0] != '{' {
            return None;
        }
        proof {
            assert(v@.skip(1) == s@.skip(1));
        }
        let f1 = match opt_i64_field(&v, 1, "\"exitCode\":", ",\"exitCode\":", true, 0) {
            None => {
                return None;
            },
            Some(t) => t,
        };
        let (ec, p1, first1) = f1;
        let f2 = match opt_str_field(&v, p1, "\"hash\":", ",\"hash\":", first1) {
            None => {
                return None;
            },
            Some(t) => t,
        };
        let (h, p2, first2) = f2;
        let f3 = match opt_u64_field(&v, p2, "\"lastRunTime\":", ",\"lastRunTime\":", first2, 0) {
            None => {
                return None;
            },
            Some(t) => t,
        };
        let (lrt, p3, first3) = f3;
        let f4 = match opt_str_field(&v, p3, "\"stderr\":", ",\"stderr\":", first3) {
            None => {
                return None;
            },
            Some(t) => t,
        };
        let (se, p4, first4) = f4;
        let f5 = match opt_str_field(&v, p4, "\"stdout\":", ",\"stdout\":", first4) {
            None => {
                return None;
            },
            Some(t) => t,
        };
        let (so, p5, first5) = f5;
        let f6 = match opt_str_field(&v, p5, "\"target\":", ",\"target\":", first5) {
            None => {
                return None;
            },
            Some(t) => t,
        };
        let (t, p6, _) = f6;
        if p6 == n - 1 && v[p6] == '}' {
            proof {
                assert(v@.skip(p6 as int) =~= seq!['}']);
            }
            let rec = RunTargetState {
                exit_code: ec,
                hash: h,
                last_run_time: lrt,
                stderr: se,
                stdout: so,
                target: t,
            };
            proof {
                assert(Self::spec_decode(s@) == Option::Some(rec@));
            }
            Some(rec)
        } else {
            proof {
                let r6 = v@.skip(p6 as int);
                if p6 < n {
                    assert(r6[0] == v@[p6 as int]);
                }
                assert(!(r6 =~= seq!['}']));
            }
            None
        }
    }

    #[verifier::rlimit(100)]
    #[verifier::spinoff_prover]
    proof fn lemma_round_trip(v: RunTargetStateV) {
        reveal_strlit("{\"exitCode\":");
        reveal_strlit("\"exitCode\":");
        reveal_strlit(",\"hash\":");
        reveal_strlit(",\"lastRunTime\":");
        reveal_strlit(",\"stderr\":");
        reveal_strlit(",\"stdout\":");
        reveal_strlit(",\"target\":");
        reveal_strlit("}");
        let k1: Seq<char> = "\"exitCode\":"@;
        let k2: Seq<char> = ",\"hash\":"@;
        let k3: Seq<char> = ",\"lastRunTime\":"@;
        let k4: Seq<char> = ",\"stderr\":"@;
        let k5: Seq<char> = ",\"stdout\":"@;
        let k6: Seq<char> = ",\"target\":"@;
        let close: Seq<char> = "}"@;
        let ec = spec_dec_int(v.exit_code as int);
        let h = spec_jstr(v.hash);
        let lrt = spec_dec_nat(v.last_run_time as nat);
        let se = spec_jstr(v.stderr);
        let so = spec_jstr(v.stdout);
        let t = spec_jstr(v.target);
        let s = Self::spec_encode(v);
        let in6 = k6 + (t + close);
        let in5 = k5 + (so + in6);
        let in4 = k4 + (se + in5);
        let in3 = k3 + (lrt + in4);
        let in2 = k2 + (h + in3);
        let in1 = k1 + (ec + in2);
        assert(s[0] == '{');
        assert(s.skip(1) =~= in1);
        assert(in2[0] == ',' && !is_digit(','));
        lemma_field_i64_hit(v.exit_code, k1, in2, k1, ",\"exitCode\":"@, true, 0);
        lemma_field_str_hit(v.hash, k2, in3, "\"hash\":"@, k2, false);
        assert(in4[0] == ',');
        lemma_field_u64_hit(v.last_run_time, k3, in4, "\"lastRunTime\":"@, k3, false, 0);
        lemma_field_str_hit(v.stderr, k4, in5, "\"stderr\":"@, k4, false);
        lemma_field_str_hit(v.stdout, k5, in6, "\"stdout\":"@, k5, false);
        lemma_field_str_hit(v.target, k6, close, "\"target\":"@, k6, false);
        assert(close =~= seq!['}']);
        assert(Self::spec_decode(Self::spec_encode(v)) == Option::Some(
            RunTargetStateV {
                exit_code: v.exit_code,
                hash: v.hash,
                last_run_time: v.last_run_time,
                stderr: v.stderr,
                stdout: v.stdout,
                target: v.target,
            },
        ));
        assert(RunTargetStateV {
            exit_code: v.exit_code,
            hash: v.hash,
            last_run_time: v.last_run_time,
            stderr: v.stderr,
            stdout: v.stdout,
            target: v.target,
        } =~= v);
    }
}

// ------------------------------------------------------------------
// ProjectsState
// ------------------------------------------------------------------
/// Workspace-wide record: the source globs used to discover projects, and
/// the discovered mapping from project id to its relative path. The
/// mapping is kept as a sequence of pairs in insertion order, so the
/// persisted form is deterministic.
#[derive(Clone, Debug, PartialEq)]
pub struct ProjectsState {
    pub globs: Vec<String>,
    pub projects: Vec<(String, String)>,
}

/// The mathematical value of a `ProjectsState`.
#[verifier::ext_equal]
pub struct ProjectsStateV {
    pub globs: Seq<Seq<char>>,
    pub projects: Seq<(Seq<char>, Seq<char>)>,
}

impl View for ProjectsState {
    type V = ProjectsStateV;

    open spec fn view(&self) -> ProjectsStateV {
        ProjectsStateV { globs: self.globs.deep_view(), projects: self.projects.deep_view() }
    }
}

/// Whether a sequence of pairs has pairwise-distinct keys: the shape of a
/// mapping kept as ordered entries.
pub open spec fn spec_unique_keys(kvs: Seq<(Seq<char>, Seq<char>)>) -> bool {
    forall|i: int, j: int|
        0 <= i < j < kvs.len() ==> (#[trigger] kvs[i]).0 != (#[trigger] kvs[j]).0
}

impl ProjectsState {
    /// The intended shape of the projects entries: they stand for a map
    /// from project id to relative path, so an id never repeats. The code
    /// that fills the map writes each id once; loading keeps whatever the
    /// file holds.
    pub open spec fn spec_keys_unique(self) -> bool {
        spec_unique_keys(self.projects.deep_view())
    }
}

impl StateRecord for ProjectsState {
    open spec fn spec_default() -> ProjectsStateV {
        ProjectsStateV { globs: Seq::empty(), projects: Seq::empty() }
    }

    open spec fn spec_encode(v: ProjectsStateV) -> Seq<char> {
        "{\"globs\":"@ + spec_enc_strlist(v.globs) + ",\"projects\":"@ + spec_enc_strmap(
            v.projects,
        ) + "}"@
    }

    open spec fn spec_decode(s: Seq<char>) -> Option<ProjectsStateV> {
        if s.len() == 0 || s[0] != '{' {
            Option::None
        } else {
            match spec_opt_strlist_field(s.skip(1), "\"globs\":"@, ",\"globs\":"@, true) {
                Option::None => Option::None,
                Option::Some((gs, r1, f1)) => match spec_opt_strmap_field(
                    r1,
                    "\"projects\":"@,
                    ",\"projects\":"@,
                    f1,
                ) {
                    Option::None => Option::None,
                    Option::Some((ps, r2, _)) => if r2 =~= seq!['}'] {
                        Option::Some(ProjectsStateV { globs: gs, projects: ps })
                    } else {
                        Option::None
                    },
                },
            }
        }
    }

    fn default_value() -> (r: ProjectsState) {
        let r = ProjectsState { globs: Vec::new(), projects: Vec::new() };
        proof {
            assert(r.globs.deep_view() =~= Seq::<Seq<char>>::empty());
            assert(r.projects.deep_view() =~= Seq::<(Seq<char>, Seq<char>)>::empty());
            assert(r@ =~= Self::spec_default());
        }
        r
    }

    fn encode(&self) -> (r: String) {
        let mut out: Vec<char> = Vec::new();
        push_lit(&mut out, "{\"globs\":");
        push_strlist(&mut out, &self.globs);
        push_lit(&mut out, ",\"projects\":");
        push_strmap(&mut out, &self.projects);
        push_lit(&mut out, "}");
        proof {
            assert(out@ =~= Self::spec_encode(self@));
        }
        from_chars(&out)
    }

    fn decode(s: &str) -> (r: Option<ProjectsState>) {
        let v = to_chars(s);
        let n = v.len();
        if n == 0 || v[0] != '{' {
            return None;
        }
        proof {
            assert(v@.skip(1) == s@.skip(1));
        }
        let f1 = match opt_strlist_field(&v, 1, "\"globs\":", ",\"globs\":", true) {
            None => {
                return None;
            },
            Some(t) => t,
        };
        let (gs, p1, first1) = f1;
        let f2 = match opt_strmap_field(&v, p1, "\"projects\":", ",\"projects\":", first1) {
            None => {
                return None;
            },
            Some(t) => t,
        };
        let (ps, p2, _) = f2;
        if p2 == n - 1 && v[p2] == '}' {
            proof {
                assert(v@.skip(p2 as int) =~= seq!['}']);
            }
            let rec = ProjectsState { globs: gs, projects: ps };
            proof {
                assert(Self::spec_decode(s@) == Option::Some(rec@));
            }
            Some(rec)
        } else {
            proof {
                let r2 = v@.skip(p2 as int);
                if p2 < n {
                    assert(r2[0] == v@[p2 as int]);
                }
                assert(!(r2 =~= seq!['}']));
            }
            None
        }
    }

    proof fn lemma_round_trip(v: ProjectsStateV) {
        reveal_strlit("{\"globs\":");
        reveal_strlit("\"globs\":");
        reveal_strlit(",\"projects\":");
        reveal_strlit("}");
        let k1: Seq<char> = "\"globs\":"@;
        let k2: Seq<char> = ",\"projects\":"@;
        let close: Seq<char> = "}"@;
        let gs = spec_enc_strlist(v.globs);
        let ps = spec_enc_strmap(v.projects);
        let s = Self::spec_encode(v);
        assert("{\"globs\":"@ =~= seq!['{'] + k1);
        assert(s[0] == '{');
        let rest1 = gs + k2 + ps + close;
        assert(s.skip(1) =~= k1 + rest1);
        assert(s.skip(1).take(k1.len() as int) =~= k1);
        assert(s.skip(1).skip(k1.len() as int) =~= rest1);
        let after1 = k2 + ps + close;
        assert(rest1 =~= gs + after1);
        lemma_parse_strlist_rt(v.globs, after1);
        let rest2 = ps + close;
        assert(after1.take(k2.len() as int) =~= k2);
        assert(after1.skip(k2.len() as int) =~= rest2);
        lemma_parse_strmap_rt(v.projects, close);
        assert(close =~= seq!['}']);
        assert(Self::spec_decode(Self::spec_encode(v)) == Option::Some(
            ProjectsStateV { globs: v.globs, projects: v.projects },
        ));
        assert(ProjectsStateV { globs: v.globs, projects: v.projects } =~= v);
    }
}

} // verus!
