use vstd::prelude::*;
use crate::chars::{from_chars, str_eq, to_chars};
use crate::jnum::{digit_run_from, spec_digit_run};
use crate::state::spec_unique_keys;

verus! {

/// The reserved key that marks a projects map as produced from a list of
/// globs, still to be resolved.
pub open spec fn spec_glob_flag() -> Seq<char> {
    "globs"@
}

/// What is wrong with one projects entry.
#[derive(Clone, Copy, Debug, PartialEq, Eq, Structural)]
pub enum ProjectIssue {
    /// The project id holds a character outside letters, digits, `-`, `_`,
    /// `.` and `@`, or is empty.
    InvalidId,
    /// The project path is absolute; only workspace-relative paths are
    /// accepted.
    AbsolutePath,
    /// The project path climbs out of the workspace with a leading `..`.
    ParentRelativePath,
}

pub open spec fn spec_id_char(c: char) -> bool {
    ('a' <= c && c <= 'z') || ('A' <= c && c <= 'Z') || ('0' <= c && c <= '9') || c == '-' || c
        == '_' || c == '.' || c == '@'
}

pub open spec fn spec_valid_id(s: Seq<char>) -> bool {
    s.len() > 0 && forall|i: int| 0 <= i < s.len() ==> spec_id_char(#[trigger] s[i])
}

/// The issue of one `(id, path)` entry, if any: the id must be a valid
/// identifier, and the path must stay inside the workspace.
pub open spec fn spec_entry_issue(kv: (Seq<char>, Seq<char>)) -> Option<ProjectIssue> {
    if !spec_valid_id(kv.0) {
        Option::Some(ProjectIssue::InvalidId)
    } else if kv.1.len() > 0 && kv.1[0] == '/' {
        Option::Some(ProjectIssue::AbsolutePath)
    } else if kv.1.len() >= 2 && kv.1[0] == '.' && kv.1[1] == '.' {
        Option::Some(ProjectIssue::ParentRelativePath)
    } else {
        Option::None
    }
}

pub open spec fn spec_has_glob_flag(kvs: Seq<(Seq<char>, Seq<char>)>) -> bool {
    exists|i: int| 0 <= i < kvs.len() && (#[trigger] kvs[i]).0 == spec_glob_flag()
}

fn entry_issue(id: &str, path: &str) -> (r: Option<ProjectIssue>)
    ensures
        r == spec_entry_issue((id@, path@)),
{
    let iv = to_chars(id);
    if iv.len() == 0 {
        return Some(ProjectIssue::InvalidId);
    }
    let mut i: usize = 0;
    while i < iv.len()
        invariant
            i <= iv@.len(),
            iv@ == id@,
            forall|j: int| 0 <= j < i ==> spec_id_char(#[trigger] iv@[j]),
        decreases iv.len() - i,
    {
        let c = iv[i];
        let ok = (('a' <= c && c <= 'z') || ('A' <= c && c <= 'Z') || ('0' <= c && c <= '9') || c
            == '-' || c == '_' || c == '.' || c == '@');
        if !ok {
            return Some(ProjectIssue::InvalidId);
        }
        i = i + 1;
    }
    let pv = to_chars(path);
    if pv.len() > 0 && pv[0] == '/' {
        return Some(ProjectIssue::AbsolutePath);
    }
    if pv.len() >= 2 && pv[0] == '.' && pv[1] == '.' {
        return Some(ProjectIssue::ParentRelativePath);
    }
    None
}

/// Checks that the `projects` entries are valid ids mapped to
/// workspace-relative paths. A map that carries the glob-flag key is
/// accepted as it stands: its globs are resolved later. On failure, the
/// index of the first offending entry is returned with its issue.
pub fn validate_projects(projects: &Vec<(String, String)>) -> (r: Result<(), (usize, ProjectIssue)>)
    ensures
        ({
            let dv = projects.deep_view();
            match r {
                Result::Ok(()) => spec_has_glob_flag(dv) || (forall|i: int|
                    0 <= i < dv.len() ==> spec_entry_issue(#[trigger] dv[i]) is None),
                Result::Err((idx, issue)) => !spec_has_glob_flag(dv) && idx < dv.len()
                    && spec_entry_issue(dv[idx as int]) == Option::Some(issue) && (forall|j: int|
                    0 <= j < idx ==> spec_entry_issue(#[trigger] dv[j]) is None),
            }
        }),
{
    let ghost dv = projects.deep_view();
    let mut i: usize = 0;
    while i < projects.len()
        invariant
            i <= projects@.len(),
            dv == projects.deep_view(),
            dv.len() == projects@.len(),
            forall|j: int| 0 <= j < i ==> (#[trigger] dv[j]).0 != spec_glob_flag(),
        decreases projects.len() - i,
    {
        proof {
            assert(dv[i as int] == (projects@[i as int].0@, projects@[i as int].1@));
        }
        if str_eq(projects[i].0.as_str(), "globs") {
            return Ok(());
        }
        i = i + 1;
    }
    proof {
        assert(!spec_has_glob_flag(dv));
    }
    let mut i: usize = 0;
    while i < projects.len()
        invariant
            i <= projects@.len(),
            dv == projects.deep_view(),
            dv.len() == projects@.len(),
            !spec_has_glob_flag(dv),
            forall|j: int| 0 <= j < i ==> spec_entry_issue(#[trigger] dv[j]) is None,
        decreases projects.len() - i,
    {
        proof {
            assert(dv[i as int] == (projects@[i as int].0@, projects@[i as int].1@));
        }
        match entry_issue(projects[i].0.as_str(), projects[i].1.as_str()) {
            Some(issue) => {
                return Err((i, issue));
            },
            None => {},
        }
        i = i + 1;
    }
    Ok(())
}

/// Whether `s` has the `major.minor.patch` shape a pinned toolchain
/// version must have: three dot-separated, non-empty runs of digits and
/// nothing else.
pub open spec fn spec_version_triple(s: Seq<char>) -> bool {
    let a = spec_digit_run(s) as int;
    if a < 1 || a >= s.len() || s[a] != '.' {
        false
    } else {
        let r1 = s.skip(a + 1);
        let b = spec_digit_run(r1) as int;
        if b < 1 || b >= r1.len() || r1[b] != '.' {
            false
        } else {
            let r2 = r1.skip(b + 1);
            let c = spec_digit_run(r2) as int;
            c >= 1 && c == r2.len()
        }
    }
}

/// Checks the `major.minor.patch` shape of a version: the form the
/// workspace configuration demands before a toolchain version is taken.
pub fn is_version_triple(s: &str) -> (r: bool)
    ensures
        r == spec_version_triple(s@),
{
    let v = to_chars(s);
    let n = v.len();
    let a = digit_run_from(&v, 0);
    proof {
        assert(v@.skip(0) =~= v@);
        if a < n {
            assert(v@.skip(0)[a as int] == v@[a as int]);
        }
    }
    if a < 1 || a >= n || v[a] != '.' {
        return false;
    }
    let ghost r1 = v@.skip(a + 1);
    let b = digit_run_from(&v, a + 1);
    proof {
        assert(spec_digit_run(r1) == b);
        if a + 1 + b < n {
            assert(r1[b as int] == v@[a + 1 + b]);
        }
        assert(r1.len() == n - a - 1);
    }
    if b < 1 || a + 1 + b >= n || v[a + 1 + b] != '.' {
        return false;
    }
    let ghost r2 = r1.skip(b + 1);
    let c = digit_run_from(&v, a + b + 2);
    proof {
        assert(r2 =~= v@.skip(a + b + 2));
        assert(spec_digit_run(r2) == c);
        assert(r2.len() == n - a - b - 2);
    }
    c >= 1 && a + b + 2 + c == n
}

/// Whether `s` names one of the supported package managers.
pub fn is_package_manager(s: &str) -> (r: bool)
    ensures
        r == (s@ == "npm"@ || s@ == "pnpm"@ || s@ == "yarn"@),
{
    str_eq(s, "npm") || str_eq(s, "pnpm") || str_eq(s, "yarn")
}

/// Turns a list of project globs into a projects map: each glob is keyed
/// by a single letter taken in order from `A` upward, and the glob-flag
/// entry is added last, so glob resolution can be deferred and cached.
pub fn projects_from_glob_list(globs: &Vec<String>) -> (r: Vec<(String, String)>)
    requires
        globs@.len() <= 190,
    ensures
        ({
            let dv = r.deep_view();
            let gv = globs.deep_view();
            &&& dv.len() == gv.len() + 1
            &&& (forall|i: int|
                0 <= i < gv.len() ==> #[trigger] dv[i] == (seq![((65 + i) as u8) as char],
                gv[i]))
            &&& dv[gv.len() as int] == (spec_glob_flag(), "true"@)
            &&& spec_unique_keys(dv)
        }),
{
    let ghost gv = globs.deep_view();
    let mut out: Vec<(String, String)> = Vec::new();
    let mut i: usize = 0;
    while i < globs.len()
        invariant
            i <= globs@.len(),
            globs@.len() <= 190,
            gv == globs.deep_view(),
            gv.len() == globs@.len(),
            out.deep_view().len() == i,
            forall|j: int|
                0 <= j < i ==> #[trigger] out.deep_view()[j] == (seq![((65 + j) as u8) as char],
                gv[j]),
        decreases globs.len() - i,
    {
        let c: char = ((65 + i as u8) as u8) as char;
        let mut key: Vec<char> = Vec::new();
        key.push(c);
        let ks = from_chars(&key);
        proof {
            assert(key@ =~= seq![((65 + i) as u8) as char]);
            assert(gv[i as int] == globs@[i as int]@);
        }
        let ghost out0 = out.deep_view();
        out.push((ks, globs[i].clone()));
        proof {
            assert(out.deep_view() =~= out0.push((ks@, globs@[i as int]@)));
        }
        i = i + 1;
    }
    let ghost out1 = out.deep_view();
    out.push(("globs".to_owned(), "true".to_owned()));
    proof {
        assert(out.deep_view() =~= out1.push(("globs"@, "true"@)));
        let dv = out.deep_view();
        reveal_strlit("globs");
        assert forall|a: int, b: int| 0 <= a < b < dv.len() implies (#[trigger] dv[a]).0 != (
        #[trigger] dv[b]).0 by {
            if b < dv.len() - 1 {
                // Two letter keys: the letters differ, so the singletons do.
                let x = ((65 + a) as u8) as char;
                let y = ((65 + b) as u8) as char;
                assert(dv[a].0 == seq![x] && dv[b].0 == seq![y]);
                assert(x != y);
                assert(seq![x][0] == x && seq![y][0] == y);
            } else {
                // The glob-flag key has five characters; a letter key one.
                assert(dv[b].0 == spec_glob_flag());
                assert(spec_glob_flag().len() == 5);
                assert(dv[a].0.len() == 1);
            }
        }
    }
    out
}

} // verus!
