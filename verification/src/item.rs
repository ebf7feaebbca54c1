use vstd::prelude::*;
use crate::errors::CacheError;
use crate::fsio::{fs_create_dir_all, fs_mtime_millis, fs_read_to_string, fs_rename, fs_write,
    map_io, now_millis};
use crate::mode::CacheMode;
use crate::state::StateRecord;

verus! {

/// The length of the longest prefix of `s` that ends just before its last
/// path separator; 0 when `s` holds no separator.
pub open spec fn spec_parent_len(s: Seq<char>) -> int
    decreases s.len(),
{
    if s.len() == 0 {
        0
    } else if s.last() == '/' {
        s.len() - 1
    } else {
        spec_parent_len(s.drop_last())
    }
}

proof fn lemma_parent_len_bound(s: Seq<char>)
    ensures
        0 <= spec_parent_len(s) <= s.len(),
    decreases s.len(),
{
    if s.len() > 0 && s.last() != '/' {
        lemma_parent_len_bound(s.drop_last());
    }
}

/// The directory part of a path: everything before the last separator.
pub fn parent_dir(path: &str) -> (r: String)
    ensures
        r@ == path@.take(spec_parent_len(path@)),
{
    let v = crate::chars::to_chars(path);
    let mut i = v.len();
    proof {
        assert(v@.take(v@.len() as int) =~= v@);
    }
    while i > 0
        invariant
            i <= v@.len(),
            v@ == path@,
            spec_parent_len(v@) == spec_parent_len(v@.take(i as int)),
        decreases i,
    {
        proof {
            lemma_parent_len_bound(v@.take(i as int));
        }
        if v[i - 1] == '/' {
            proof {
                assert(v@.take(i as int).len() == i);
                assert(v@.take(i as int).last() == v@[i - 1]);
                assert(spec_parent_len(v@.take(i as int)) == i - 1);
                assert(spec_parent_len(path@) == i - 1);
            }
            let pre = crate::chars::from_chars(&v);
            let s = pre.as_str();
            let out = s.substring_char(0, i - 1);
            proof {
                assert(out@ == v@.subrange(0, i - 1));
                assert(out@ =~= path@.take(spec_parent_len(path@)));
            }
            return out.to_owned();
        }
        proof {
            assert(v@.take(i as int).last() == v@[i - 1]);
            assert(v@.take(i as int).drop_last() =~= v@.take(i - 1));
        }
        i = i - 1;
    }
    proof {
        assert(v@.take(0) =~= Seq::<char>::empty());
        assert(path@.take(spec_parent_len(path@)) =~= Seq::<char>::empty());
    }
    String::new()
}

/// Whether a file last modified at `mtime` is stale at `now` under a
/// time-to-live of `ttl` milliseconds; a TTL of 0 never goes stale.
pub open spec fn spec_is_stale(now: u64, mtime: u64, ttl: u64) -> bool {
    ttl > 0 && now > mtime && now - mtime > ttl
}

pub fn is_stale(now: u64, mtime: u64, ttl: u64) -> (r: bool)
    ensures
        r == spec_is_stale(now, mtime, ttl),
{
    ttl > 0 && now > mtime && now - mtime > ttl
}

/// The TTL law: with a TTL of `ttl` and a file last modified at `t0`, a
/// load any amount past `t0 + ttl` sees a stale file, and a load at or
/// before `t0 + ttl` does not.
pub proof fn lemma_ttl_boundary(t0: u64, ttl: u64, eps: u64)
    requires
        ttl > 0,
        eps > 0,
        eps <= ttl,
        t0 + ttl + eps <= u64::MAX,
    ensures
        spec_is_stale((t0 + ttl + eps) as u64, t0, ttl),
        !spec_is_stale((t0 + ttl - eps) as u64, t0, ttl),
{
}

/// A TTL of zero never makes a file stale, whatever the times are.
pub proof fn lemma_ttl_zero_never_stale(now: u64, mtime: u64)
    ensures
        !spec_is_stale(now, mtime, 0),
{
}

/// The round-trip law: `save` writes exactly `spec_encode` of the item,
/// `load` parses what it reads with `spec_decode`, and the one parses back
/// to the other. So a load that sees the text a save wrote — same path,
/// both directions of the mode allowed, no TTL elapsed — yields a value
/// equal to the saved one; the filesystem returning the written text
/// unchanged is the only assumption.
pub proof fn lemma_save_load_round_trip<T: StateRecord>(v: T::V)
    ensures
        T::spec_decode(T::spec_encode(v)) == Option::Some(v),
{
    T::lemma_round_trip(v);
}

/// A typed value persisted in one JSON file, with mode-aware loading and
/// saving and TTL staleness. Created by `load`; the in-memory value is the
/// caller's to change; `save` persists it.
pub struct CacheItem<T: StateRecord> {
    /// The backing file.
    pub path: String,
    /// The in-memory value.
    pub item: T,
    /// The modification time of the backing file when it was loaded, in
    /// milliseconds since the epoch; 0 when it did not exist or was not
    /// read.
    pub last_modified: u64,
    /// The time-to-live in milliseconds; 0 means never stale.
    pub ttl: u64,
}

impl<T: StateRecord> CacheItem<T> {
    /// Loads the value persisted at `path`, under `mode`.
    ///
    /// When the mode forbids reading, the default is returned and the
    /// filesystem is left alone. Otherwise the parent directory (when the
    /// path has one) is created first, so that a later `save` cannot fail
    /// on a missing directory;
    /// then a missing or stale file yields the default, and an existing
    /// fresh file is parsed — text that does not parse is a
    /// `DataCorruption` error, never a silent default.
    pub fn load(path: String, default: T, ttl_millis: u64, mode: CacheMode) -> (r: Result<
        CacheItem<T>,
        CacheError,
    >)
        ensures
            !mode.spec_can_read() ==> (r matches Result::Ok(i) && i.item@ == default@
                && i.last_modified == 0 && i.path@ == path@ && i.ttl == ttl_millis),
            r matches Result::Ok(i) ==> i.path@ == path@ && i.ttl == ttl_millis,
            r matches Result::Err(e) ==> (e matches CacheError::Filesystem(_, _) || (
            e matches CacheError::DataCorruption(p) && p@ == path@)),
    {
        if !mode.can_read() {
            return Ok(CacheItem { path, item: default, last_modified: 0, ttl: ttl_millis });
        }
        let parent = parent_dir(path.as_str());
        if parent.as_str().len() > 0 {
            if let Err(e) = fs_create_dir_all(parent.as_str()) {
                return Err(map_io(e, parent.as_str()));
            }
        }
        let mtime_opt = match fs_mtime_millis(path.as_str()) {
            Ok(m) => m,
            Err(e) => {
                return Err(map_io(e, path.as_str()));
            },
        };
        match mtime_opt {
            None => Ok(CacheItem { path, item: default, last_modified: 0, ttl: ttl_millis }),
            Some(mtime) => {
                let now = now_millis();
                if is_stale(now, mtime, ttl_millis) {
                    // The stale file stays on disk; the next save replaces it.
                    Ok(CacheItem { path, item: default, last_modified: mtime, ttl: ttl_millis })
                } else {
                    let text = match fs_read_to_string(path.as_str()) {
                        Ok(t) => t,
                        Err(e) => {
                            return Err(map_io(e, path.as_str()));
                        },
                    };
                    match T::decode(text.as_str()) {
                        Some(x) => Ok(
                            CacheItem { path, item: x, last_modified: mtime, ttl: ttl_millis },
                        ),
                        None => Err(CacheError::DataCorruption(path)),
                    }
                }
            },
        }
    }

    /// Persists the value, under `mode`.
    ///
    /// When the mode forbids writing this is a successful no-op and the
    /// filesystem is left alone. Otherwise the canonical JSON text of the
    /// value is written through a temporary file in the same directory and
    /// moved over the target, so a failed write cannot leave a half file.
    pub fn save(&self, mode: CacheMode) -> (r: Result<(), CacheError>)
        ensures
            !mode.spec_can_write() ==> r is Ok,
            r matches Result::Err(e) ==> e matches CacheError::Filesystem(_, _),
    {
        if !mode.can_write() {
            return Ok(());
        }
        // A load under a read-forbidding mode leaves the filesystem alone,
        // so the parent directory may not exist yet.
        let parent = parent_dir(self.path.as_str());
        if parent.as_str().len() > 0 {
            if let Err(e) = fs_create_dir_all(parent.as_str()) {
                return Err(map_io(e, parent.as_str()));
            }
        }
        let text = self.item.encode();
        let mut tmp = self.path.clone();
        tmp.append(".tmp");
        if let Err(e) = fs_write(tmp.as_str(), text.as_str()) {
            return Err(map_io(e, tmp.as_str()));
        }
        if let Err(e) = fs_rename(tmp.as_str(), self.path.as_str()) {
            return Err(map_io(e, self.path.as_str()));
        }
        Ok(())
    }
}

} // verus!
