use vstd::prelude::*;
use crate::chars::{from_chars, push_chars, to_chars};
use crate::errors::{CacheError, IoKind};
use crate::fsio::{
    fs_create_dir_all, fs_hard_link, fs_is_file, fs_list_dir, fs_remove_dir_all, fs_remove_file,
    fs_write, io_kind, map_io,
};
use crate::item::{parent_dir, CacheItem};
use crate::mode::CacheMode;
use crate::state::{ProjectsState, RunTargetState, RunTargetStateV, StateRecord, WorkspaceState};

verus! {

/// `a` and `b` joined by the path separator.
pub open spec fn spec_join(a: Seq<char>, b: Seq<char>) -> Seq<char> {
    a + seq!['/'] + b
}

/// Joins two path fragments with the separator.
pub fn join(a: &str, b: &str) -> (r: String)
    ensures
        r@ == spec_join(a@, b@),
{
    let mut out = to_chars(a);
    out.push('/');
    let bs = to_chars(b);
    push_chars(&mut out, &bs);
    proof {
        assert(out@ =~= spec_join(a@, b@));
    }
    from_chars(&out)
}

/// The target id with each `:` replaced by the path separator. A target id
/// holds no other separator, so distinct targets keep distinct paths.
pub open spec fn spec_colon_to_slash(s: Seq<char>) -> Seq<char> {
    Seq::new(
        s.len(),
        |i: int|
            if s[i] == ':' {
                '/'
            } else {
                s[i]
            },
    )
}

pub fn colon_to_slash(s: &str) -> (r: String)
    ensures
        r@ == spec_colon_to_slash(s@),
{
    let v = to_chars(s);
    let mut out: Vec<char> = Vec::new();
    let mut i: usize = 0;
    while i < v.len()
        invariant
            i <= v@.len(),
            v@ == s@,
            out@ == spec_colon_to_slash(s@).take(i as int),
        decreases v.len() - i,
    {
        let c = v[i];
        if c == ':' {
            out.push('/');
        } else {
            out.push(c);
        }
        i = i + 1;
        proof {
            assert(out@ =~= spec_colon_to_slash(s@).take(i as int));
        }
    }
    proof {
        assert(spec_colon_to_slash(s@).take(v@.len() as int) =~= spec_colon_to_slash(s@));
    }
    from_chars(&out)
}

/// The path of `sub` relative to `root`: the rest of `sub` after `root`
/// and one separator; `None` when `sub` does not lie strictly under `root`.
pub open spec fn spec_rel_to(sub: Seq<char>, root: Seq<char>) -> Option<Seq<char>> {
    if sub.len() > root.len() + 1 && sub.take(root.len() as int) == root && sub[root.len() as int]
        == '/' {
        Option::Some(sub.skip(root.len() as int + 1))
    } else {
        Option::None
    }
}

pub fn rel_to(sub: &str, root: &str) -> (r: Option<String>)
    ensures
        match r {
            Option::Some(x) => spec_rel_to(sub@, root@) == Option::Some(x@),
            Option::None => spec_rel_to(sub@, root@) is None,
        },
{
    let sv = to_chars(sub);
    let rv = to_chars(root);
    let n = sv.len();
    let k = rv.len();
    if n <= k {
        return None;
    }
    if n - k < 2 {
        return None;
    }
    if !crate::chars::match_at(&sv, 0, &rv) {
        proof {
            assert(sv@.subrange(0, k as int) =~= sv@.take(k as int));
        }
        return None;
    }
    if sv[k] != '/' {
        return None;
    }
    proof {
        assert(sv@.subrange(0, k as int) =~= sv@.take(k as int));
    }
    let pre = from_chars(&sv);
    let out = pre.as_str().substring_char(k + 1, n);
    proof {
        assert(out@ =~= sub@.skip(root@.len() as int + 1));
    }
    Some(out.to_owned())
}

/// Whether a target id is free of the path separator; the target grammar
/// allows no separator but its own `:`.
pub open spec fn spec_separator_free(t: Seq<char>) -> bool {
    forall|i: int| 0 <= i < t.len() ==> t[i] != '/'
}

proof fn lemma_append_injective(p: Seq<char>, a: Seq<char>, b: Seq<char>, s: Seq<char>)
    requires
        a != b,
    ensures
        p + a + s != p + b + s,
{
    if a.len() != b.len() {
        assert((p + a + s).len() != (p + b + s).len());
    } else {
        if !(exists|i: int| 0 <= i < a.len() && a[i] != b[i]) {
            assert(forall|i: int| 0 <= i < a.len() ==> a[i] == b[i]);
            assert(a =~= b);
        }
        let i = choose|i: int| 0 <= i < a.len() && a[i] != b[i];
        assert((p + a + s)[p.len() + i] == a[i]);
        assert((p + b + s)[p.len() + i] == b[i]);
    }
}

proof fn lemma_colon_to_slash_injective(t1: Seq<char>, t2: Seq<char>)
    requires
        spec_separator_free(t1),
        spec_separator_free(t2),
        t1 != t2,
    ensures
        spec_colon_to_slash(t1) != spec_colon_to_slash(t2),
{
    let a = spec_colon_to_slash(t1);
    let b = spec_colon_to_slash(t2);
    if t1.len() != t2.len() {
        assert(a.len() != b.len());
    } else {
        if !(exists|i: int| 0 <= i < t1.len() && t1[i] != t2[i]) {
            assert(forall|i: int| 0 <= i < t1.len() ==> t1[i] == t2[i]);
            assert(t1 =~= t2);
        }
        let i = choose|i: int| 0 <= i < t1.len() && t1[i] != t2[i];
        // The substitution is invertible because no id character is the
        // separator itself.
        assert(a[i] != b[i]) by {
            assert(t1[i] != '/' && t2[i] != '/');
        }
    }
}

/// Distinct target ids keep distinct run-state files: the id grammar
/// forbids the path separator, so substituting `:` stays invertible and
/// the derived paths cannot collide. Concurrent operations on different
/// targets therefore never touch the same file.
pub proof fn lemma_distinct_targets_distinct_paths(e: CacheEngine, t1: Seq<char>, t2: Seq<char>)
    requires
        spec_separator_free(t1),
        spec_separator_free(t2),
        t1 != t2,
    ensures
        e.spec_run_state_path(t1) != e.spec_run_state_path(t2),
{
    lemma_colon_to_slash_injective(t1, t2);
    let p = e.runs_dir@ + seq!['/'];
    let s = seq!['/'] + "lastRunState.json"@;
    let a = spec_colon_to_slash(t1);
    let b = spec_colon_to_slash(t2);
    lemma_append_injective(p, a, b, s);
    assert(e.spec_run_state_path(t1) =~= p + a + s);
    assert(e.spec_run_state_path(t2) =~= p + b + s);
}

/// Distinct hashes keep distinct record files and distinct output
/// snapshot directories, so operations on different hashes never touch
/// the same path.
pub proof fn lemma_distinct_hashes_distinct_paths(e: CacheEngine, h1: Seq<char>, h2: Seq<char>)
    requires
        h1 != h2,
    ensures
        e.spec_hash_path(h1) != e.spec_hash_path(h2),
        spec_join(e.outputs_dir@, h1) != spec_join(e.outputs_dir@, h2),
{
    let p = e.hashes_dir@ + seq!['/'];
    lemma_append_injective(p, h1, h2, ".json"@);
    assert(e.spec_hash_path(h1) =~= p + h1 + ".json"@);
    assert(e.spec_hash_path(h2) =~= p + h2 + ".json"@);
    let q = e.outputs_dir@ + seq!['/'];
    lemma_append_injective(q, h1, h2, Seq::empty());
    assert(spec_join(e.outputs_dir@, h1) =~= q + h1 + Seq::<char>::empty());
    assert(spec_join(e.outputs_dir@, h2) =~= q + h2 + Seq::<char>::empty());
}

/// A transient per-project handoff file, rewritten on every creation call.
pub struct CacheRunfile {
    /// The file that was written.
    pub path: String,
}

/// The cache engine: owner of the on-disk cache tree of one workspace.
///
/// The tree lies at `<workspace root>/.moon/cache` and holds `hashes/`
/// (content-addressed fingerprint records), `runs/` (per-target run states
/// and per-project runfiles) and `out/` (hardlinked output snapshots),
/// plus the two workspace-wide state files. The access mode is resolved
/// once by the caller and fixed on the engine; the state-cache primitives
/// also take the mode explicitly, so one operation can run under an
/// override without touching any global state.
pub struct CacheEngine {
    /// The cache root, `<workspace root>/.moon/cache`.
    pub dir: String,
    /// `<dir>/hashes`: fingerprint records.
    pub hashes_dir: String,
    /// `<dir>/runs`: run states and runfiles.
    pub runs_dir: String,
    /// `<dir>/out`: task output snapshots.
    pub outputs_dir: String,
    /// The access mode every engine operation runs under.
    pub mode: CacheMode,
}

impl CacheEngine {
    /// The cache root below a workspace root.
    pub open spec fn spec_dir_of(root: Seq<char>) -> Seq<char> {
        spec_join(spec_join(root, ".moon"@), "cache"@)
    }

    /// Whether the four directory fields stand where `create` puts them:
    /// each one is a function of the workspace root alone, so a second
    /// engine on the same root names the same tree.
    pub open spec fn spec_wf(self, root: Seq<char>) -> bool {
        &&& self.dir@ == Self::spec_dir_of(root)
        &&& self.hashes_dir@ == spec_join(Self::spec_dir_of(root), "hashes"@)
        &&& self.runs_dir@ == spec_join(Self::spec_dir_of(root), "runs"@)
        &&& self.outputs_dir@ == spec_join(Self::spec_dir_of(root), "out"@)
    }

    /// Builds the engine for a workspace and creates the cache tree;
    /// directories that already exist are not an error, so creating the
    /// engine twice on one root succeeds and names the same directories.
    pub fn create(workspace_root: &str, mode: CacheMode) -> (r: Result<CacheEngine, CacheError>)
        ensures
            r matches Result::Ok(e) ==> e.spec_wf(workspace_root@) && e.mode == mode,
            r matches Result::Err(e) ==> e matches CacheError::Filesystem(_, _),
    {
        let dir = join(join(workspace_root, ".moon").as_str(), "cache");
        let hashes_dir = join(dir.as_str(), "hashes");
        let runs_dir = join(dir.as_str(), "runs");
        let outputs_dir = join(dir.as_str(), "out");
        if let Err(e) = fs_create_dir_all(hashes_dir.as_str()) {
            return Err(map_io(e, hashes_dir.as_str()));
        }
        if let Err(e) = fs_create_dir_all(runs_dir.as_str()) {
            return Err(map_io(e, runs_dir.as_str()));
        }
        if let Err(e) = fs_create_dir_all(outputs_dir.as_str()) {
            return Err(map_io(e, outputs_dir.as_str()));
        }
        Ok(CacheEngine { dir, hashes_dir, runs_dir, outputs_dir, mode })
    }

    /// The run-state file of one target: `runs/<project>/<task>/lastRunState.json`.
    pub open spec fn spec_run_state_path(self, target_id: Seq<char>) -> Seq<char> {
        spec_join(spec_join(self.runs_dir@, spec_colon_to_slash(target_id)), "lastRunState.json"@)
    }

    /// Loads the per-target run state: TTL-free, defaulting to an empty
    /// record that carries the target id.
    pub fn cache_run_target_state(&self, target_id: &str) -> (r: Result<
        CacheItem<RunTargetState>,
        CacheError,
    >)
        ensures
            r matches Result::Ok(i) ==> i.path@ == self.spec_run_state_path(target_id@) && i.ttl
                == 0,
            !self.mode.spec_can_read() ==> (r matches Result::Ok(i) && i.item@
                == (RunTargetStateV {
                exit_code: 0,
                hash: Seq::empty(),
                last_run_time: 0,
                stderr: Seq::empty(),
                stdout: Seq::empty(),
                target: target_id@,
            }) && i.last_modified == 0),
    {
        let path = join(
            join(self.runs_dir.as_str(), colon_to_slash(target_id).as_str()).as_str(),
            "lastRunState.json",
        );
        let mut default = RunTargetState::default_value();
        default.target = target_id.to_owned();
        CacheItem::load(path, default, 0, self.mode)
    }

    /// The projects-state file: `projectsState.json` at the cache root.
    pub open spec fn spec_projects_state_path(self) -> Seq<char> {
        spec_join(self.dir@, "projectsState.json"@)
    }

    /// Loads the workspace-wide projects state, fresh for three minutes.
    pub fn cache_projects_state(&self) -> (r: Result<CacheItem<ProjectsState>, CacheError>)
        ensures
            r matches Result::Ok(i) ==> i.path@ == self.spec_projects_state_path() && i.ttl
                == 180000,
            !self.mode.spec_can_read() ==> (r matches Result::Ok(i) && i.item@
                == ProjectsState::spec_default() && i.last_modified == 0),
    {
        let path = join(self.dir.as_str(), "projectsState.json");
        CacheItem::load(path, ProjectsState::default_value(), 180000, self.mode)
    }

    /// The workspace-state file: `workspaceState.json` at the cache root.
    pub open spec fn spec_workspace_state_path(self) -> Seq<char> {
        spec_join(self.dir@, "workspaceState.json"@)
    }

    /// Loads the workspace-wide state; exact values matter, so no TTL.
    pub fn cache_workspace_state(&self) -> (r: Result<CacheItem<WorkspaceState>, CacheError>)
        ensures
            r matches Result::Ok(i) ==> i.path@ == self.spec_workspace_state_path() && i.ttl == 0,
            !self.mode.spec_can_read() ==> (r matches Result::Ok(i) && i.item@
                == WorkspaceState::spec_default() && i.last_modified == 0),
    {
        let path = join(self.dir.as_str(), "workspaceState.json");
        CacheItem::load(path, WorkspaceState::default_value(), 0, self.mode)
    }

    /// The runfile of one project: `runs/<project>/runfile.json`.
    pub open spec fn spec_runfile_path(self, project_id: Seq<char>) -> Seq<char> {
        spec_join(spec_join(self.runs_dir@, project_id), "runfile.json"@)
    }

    /// Writes the runfile of a project: `data` — the record already
    /// serialized by its owner — written verbatim, rewritten
    /// unconditionally. Runfiles are working data of the current
    /// invocation, so the access mode does not gate them.
    pub fn create_runfile(&self, project_id: &str, data: &str) -> (r: Result<
        CacheRunfile,
        CacheError,
    >)
        ensures
            r matches Result::Ok(f) ==> f.path@ == self.spec_runfile_path(project_id@),
            r matches Result::Err(e) ==> e matches CacheError::Filesystem(_, _),
    {
        let parent = join(self.runs_dir.as_str(), project_id);
        if let Err(e) = fs_create_dir_all(parent.as_str()) {
            return Err(map_io(e, parent.as_str()));
        }
        let path = join(parent.as_str(), "runfile.json");
        if let Err(e) = fs_write(path.as_str(), data) {
            return Err(map_io(e, path.as_str()));
        }
        Ok(CacheRunfile { path })
    }

    /// The fingerprint record of one hash: `hashes/<hash>.json`.
    pub open spec fn spec_hash_path(self, hash: Seq<char>) -> Seq<char> {
        spec_join(self.hashes_dir@, hash + ".json"@)
    }

    /// Persists a fingerprint record, already serialized by its owner, at
    /// `hashes/<hash>.json`; hashes are deterministic per input set, so an
    /// existing record is overwritten. A no-op success when the mode
    /// forbids writing.
    pub fn save_hash(&self, hash: &str, contents: &str) -> (r: Result<(), CacheError>)
        ensures
            !self.mode.spec_can_write() ==> r is Ok,
            r matches Result::Err(e) ==> e matches CacheError::Filesystem(_, _),
    {
        if !self.mode.can_write() {
            return Ok(());
        }
        let mut name = hash.to_owned();
        name.append(".json");
        let path = join(self.hashes_dir.as_str(), name.as_str());
        if let Err(e) = fs_write(path.as_str(), contents) {
            return Err(map_io(e, path.as_str()));
        }
        Ok(())
    }

    /// Deletes the fingerprint record of `hash` and then its output
    /// snapshot `out/<hash>/`; either being absent is not an error, so the
    /// deletion is idempotent. A no-op success when the mode forbids
    /// writing. The two removals are sequential, not atomic: a crash
    /// between them can leave an orphaned snapshot, which is never served
    /// as a hit.
    pub fn delete_hash(&self, hash: &str) -> (r: Result<(), CacheError>)
        ensures
            !self.mode.spec_can_write() ==> r is Ok,
            r matches Result::Err(e) ==> e matches CacheError::Filesystem(_, _),
    {
        if !self.mode.can_write() {
            return Ok(());
        }
        let mut name = hash.to_owned();
        name.append(".json");
        let path = join(self.hashes_dir.as_str(), name.as_str());
        if let Err(e) = fs_remove_file(path.as_str()) {
            if !matches!(io_kind(&e), IoKind::NotFound) {
                return Err(map_io(e, path.as_str()));
            }
        }
        let out_dir = join(self.outputs_dir.as_str(), hash);
        if let Err(e) = fs_remove_dir_all(out_dir.as_str()) {
            if !matches!(io_kind(&e), IoKind::NotFound) {
                return Err(map_io(e, out_dir.as_str()));
            }
        }
        Ok(())
    }

    /// The runfile of each directory entry, in order: one removal path
    /// `<runs_dir>/<name>/runfile.json` per entry that is a directory, and
    /// nothing for any other entry — so run-state files and the
    /// directories themselves are never named.
    pub open spec fn spec_runfile_removal_paths(
        runs_dir: Seq<char>,
        entries: Seq<(Seq<char>, bool)>,
    ) -> Seq<Seq<char>>
        decreases entries.len(),
    {
        if entries.len() == 0 {
            Seq::empty()
        } else {
            let head: Seq<Seq<char>> = if entries[0].1 {
                seq![spec_join(spec_join(runs_dir, entries[0].0), "runfile.json"@)]
            } else {
                Seq::empty()
            };
            head + Self::spec_runfile_removal_paths(runs_dir, entries.skip(1))
        }
    }

    proof fn lemma_runfile_removal_paths_push(
        runs_dir: Seq<char>,
        entries: Seq<(Seq<char>, bool)>,
        e: (Seq<char>, bool),
    )
        ensures
            Self::spec_runfile_removal_paths(runs_dir, entries.push(e))
                == Self::spec_runfile_removal_paths(runs_dir, entries) + (if e.1 {
                seq![spec_join(spec_join(runs_dir, e.0), "runfile.json"@)]
            } else {
                Seq::empty()
            }),
        decreases entries.len(),
    {
        let s = entries.push(e);
        if entries.len() == 0 {
            assert(s[0] == e);
            assert(s.skip(1) =~= Seq::<(Seq<char>, bool)>::empty());
            assert(Self::spec_runfile_removal_paths(runs_dir, Seq::empty())
                == Seq::<Seq<char>>::empty());
            assert(Self::spec_runfile_removal_paths(runs_dir, entries.push(e))
                =~= Self::spec_runfile_removal_paths(runs_dir, entries) + (if e.1 {
                seq![spec_join(spec_join(runs_dir, e.0), "runfile.json"@)]
            } else {
                Seq::empty()
            }));
        } else {
            assert(s[0] == entries[0]);
            assert(s.skip(1) =~= entries.skip(1).push(e));
            Self::lemma_runfile_removal_paths_push(runs_dir, entries.skip(1), e);
            assert(Self::spec_runfile_removal_paths(runs_dir, entries.push(e))
                =~= Self::spec_runfile_removal_paths(runs_dir, entries) + (if e.1 {
                seq![spec_join(spec_join(runs_dir, e.0), "runfile.json"@)]
            } else {
                Seq::empty()
            }));
        }
    }

    /// Selects, from the entries of `runs/`, exactly the files that a
    /// runfile sweep removes: the `runfile.json` of each immediate
    /// subdirectory, in directory order.
    pub fn runfile_removal_paths(&self, entries: &Vec<(String, bool)>) -> (r: Vec<String>)
        ensures
            r.deep_view() == Self::spec_runfile_removal_paths(
                self.runs_dir@,
                entries.deep_view(),
            ),
    {
        let ghost dv = entries.deep_view();
        let mut out: Vec<String> = Vec::new();
        proof {
            assert(dv.take(0) =~= Seq::<(Seq<char>, bool)>::empty());
            assert(out.deep_view() =~= Self::spec_runfile_removal_paths(
                self.runs_dir@,
                dv.take(0),
            ));
        }
        let mut i: usize = 0;
        while i < entries.len()
            invariant
                i <= entries@.len(),
                dv == entries.deep_view(),
                dv.len() == entries@.len(),
                out.deep_view() == Self::spec_runfile_removal_paths(
                    self.runs_dir@,
                    dv.take(i as int),
                ),
            decreases entries.len() - i,
        {
            proof {
                assert(dv[i as int] == (entries@[i as int].0@, entries@[i as int].1));
                assert(dv.take(i + 1) =~= dv.take(i as int).push(dv[i as int]));
                let ghost entry = dv[i as int];
                Self::lemma_runfile_removal_paths_push(self.runs_dir@, dv.take(i as int), entry);
            }
            if entries[i].1 {
                let sub = join(self.runs_dir.as_str(), entries[i].0.as_str());
                let runfile = join(sub.as_str(), "runfile.json");
                let ghost out0 = out.deep_view();
                out.push(runfile);
                proof {
                    assert(out.deep_view() =~= out0.push(
                        spec_join(spec_join(self.runs_dir@, dv[i as int].0), "runfile.json"@),
                    ));
                    assert(out.deep_view() =~= Self::spec_runfile_removal_paths(
                        self.runs_dir@,
                        dv.take(i + 1),
                    ));
                }
            } else {
                proof {
                    assert(out.deep_view() + Seq::<Seq<char>>::empty() =~= out.deep_view());
                }
            }
            i = i + 1;
        }
        proof {
            assert(dv.take(dv.len() as int) =~= dv);
        }
        out
    }

    /// Deletes the `runfile.json` of every project directory under
    /// `runs/`, leaving the run-state files and the directories
    /// themselves; a missing runfile is not an error. The files removed
    /// are exactly those that `runfile_removal_paths` selects from the
    /// directory listing, so nothing else under `runs/` is ever named.
    pub fn delete_runfiles(&self) -> (r: Result<(), CacheError>)
        ensures
            r matches Result::Err(e) ==> e matches CacheError::Filesystem(_, _),
    {
        let entries = match fs_list_dir(self.runs_dir.as_str()) {
            Ok(v) => v,
            Err(e) => {
                return Err(map_io(e, self.runs_dir.as_str()));
            },
        };
        let paths = self.runfile_removal_paths(&entries);
        let mut i: usize = 0;
        while i < paths.len()
            decreases paths.len() - i,
        {
            if let Err(e) = fs_remove_file(paths[i].as_str()) {
                if !matches!(io_kind(&e), IoKind::NotFound) {
                    return Err(map_io(e, paths[i].as_str()));
                }
            }
            i = i + 1;
        }
        Ok(())
    }

    /// Hardlinks one file, replacing a link that is already there so that
    /// re-materializing is idempotent.
    fn link_file_replacing(&self, src: &str, dst: &str) -> (r: Result<(), CacheError>)
        ensures
            r matches Result::Err(e) ==> e matches CacheError::Filesystem(_, _),
    {
        let parent = parent_dir(dst);
        if let Err(e) = fs_create_dir_all(parent.as_str()) {
            return Err(map_io(e, parent.as_str()));
        }
        if let Err(e) = fs_hard_link(src, dst) {
            if !matches!(io_kind(&e), IoKind::AlreadyExists) {
                return Err(map_io(e, dst));
            }
            if let Err(e2) = fs_remove_file(dst) {
                return Err(map_io(e2, dst));
            }
            if let Err(e2) = fs_hard_link(src, dst) {
                return Err(map_io(e2, dst));
            }
        }
        Ok(())
    }

    /// Mirrors a task's output into `out/<hash>/`, preserving its path
    /// relative to `source_root`: one hardlink for a single file, or one
    /// hardlink per contained file for a directory, whose subdirectories
    /// are recreated rather than linked. No bytes are copied, so the cache
    /// root and the workspace must share one volume; a link across volumes
    /// fails with a cross-device filesystem error. A no-op success when
    /// the mode forbids writing.
    pub fn link_task_output_to_out(
        &self,
        hash: &str,
        source_root: &str,
        source_path: &str,
    ) -> (r: Result<(), CacheError>)
        ensures
            !self.mode.spec_can_write() ==> r is Ok,
            self.mode.spec_can_write() && spec_rel_to(source_path@, source_root@) is None ==> (
            r matches Result::Err(CacheError::Filesystem(IoKind::Other, p)) && p@
                == source_path@),
            r matches Result::Err(e) ==> e matches CacheError::Filesystem(_, _),
    {
        if !self.mode.can_write() {
            return Ok(());
        }
        let rel = match rel_to(source_path, source_root) {
            Some(rel) => rel,
            None => {
                // The output must lie under the source root for a relative
                // destination to exist.
                return Err(CacheError::Filesystem(IoKind::Other, source_path.to_owned()));
            },
        };
        let dest_root = join(self.outputs_dir.as_str(), hash);
        if let Err(e) = fs_create_dir_all(dest_root.as_str()) {
            return Err(map_io(e, dest_root.as_str()));
        }
        let is_file = match fs_is_file(source_path) {
            Ok(b) => b,
            Err(e) => {
                return Err(map_io(e, source_path));
            },
        };
        if is_file {
            let dst = join(dest_root.as_str(), rel.as_str());
            return self.link_file_replacing(source_path, dst.as_str());
        }
        // Walk the directory tree with an explicit worklist. The step
        // budget only bounds the loop; no real tree comes near it.
        let mut stack: Vec<(String, String)> = Vec::new();
        stack.push((source_path.to_owned(), rel));
        let mut fuel: u64 = 0xffff_ffff_ffff_ffffu64;
        while stack.len() > 0 && fuel > 0
            invariant
                self.mode.spec_can_write(),
                spec_rel_to(source_path@, source_root@) is Some,
            decreases fuel,
        {
            fuel = fuel - 1;
            let (src_dir, rel_dir) = match stack.pop() {
                Some(p) => p,
                None => {
                    return Ok(());
                },
            };
            let entries = match fs_list_dir(src_dir.as_str()) {
                Ok(v) => v,
                Err(e) => {
                    return Err(map_io(e, src_dir.as_str()));
                },
            };
            let mut i: usize = 0;
            while i < entries.len()
                invariant
                    self.mode.spec_can_write(),
                    spec_rel_to(source_path@, source_root@) is Some,
                decreases entries.len() - i,
            {
                let child_src = join(src_dir.as_str(), entries[i].0.as_str());
                let child_rel = join(rel_dir.as_str(), entries[i].0.as_str());
                if entries[i].1 {
                    stack.push((child_src, child_rel));
                } else {
                    let dst = join(dest_root.as_str(), child_rel.as_str());
                    if let Err(e) = self.link_file_replacing(child_src.as_str(), dst.as_str()) {
                        return Err(e);
                    }
                }
                i = i + 1;
            }
        }
        Ok(())
    }
}

} // verus!
