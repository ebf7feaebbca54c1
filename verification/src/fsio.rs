use vstd::prelude::*;
use crate::errors::{CacheError, IoKind};

verus! {

#[verifier::external_type_specification]
#[verifier::external_body]
pub struct ExIoError(std::io::Error);

/// Relies on fs_err::create_dir_all: creates the directory and every
/// missing parent; succeeds when the directory already exists.
#[verifier::external_body]
pub(crate) fn fs_create_dir_all(path: &str) -> Result<(), std::io::Error> {
    fs_err::create_dir_all(path)
}

/// Relies on fs_err::read_to_string: returns the contents of the file as
/// UTF-8 text.
#[verifier::external_body]
pub(crate) fn fs_read_to_string(path: &str) -> Result<String, std::io::Error> {
    fs_err::read_to_string(path)
}

/// Relies on fs_err::write: creates the file, or truncates it, and writes
/// the given bytes.
#[verifier::external_body]
pub(crate) fn fs_write(path: &str, contents: &str) -> Result<(), std::io::Error> {
    fs_err::write(path, contents.as_bytes())
}

/// Relies on fs_err::rename: moves `from` over `to`, replacing `to`
/// atomically when both are on the same filesystem.
#[verifier::external_body]
pub(crate) fn fs_rename(from: &str, to: &str) -> Result<(), std::io::Error> {
    fs_err::rename(from, to)
}

/// Relies on fs_err::remove_file: removes the file; fails with a not-found
/// error when it does not exist.
#[verifier::external_body]
pub(crate) fn fs_remove_file(path: &str) -> Result<(), std::io::Error> {
    fs_err::remove_file(path)
}

/// Relies on fs_err::remove_dir_all: removes the directory tree; fails
/// with a not-found error when it does not exist.
#[verifier::external_body]
pub(crate) fn fs_remove_dir_all(path: &str) -> Result<(), std::io::Error> {
    fs_err::remove_dir_all(path)
}

/// Relies on fs_err::hard_link: creates a hardlink at `dst` to the file at
/// `src`; fails when `dst` exists or when the two paths are on different
/// volumes.
#[verifier::external_body]
pub(crate) fn fs_hard_link(src: &str, dst: &str) -> Result<(), std::io::Error> {
    fs_err::hard_link(src, dst)
}

/// Relies on fs_err::metadata: the modification time of the file, as
/// milliseconds since the epoch; `None` when the path does not exist.
#[verifier::external_body]
pub(crate) fn fs_mtime_millis(path: &str) -> Result<Option<u64>, std::io::Error> {
    match fs_err::metadata(path) {
        Ok(m) => {
            let t = m.modified()?;
            match t.duration_since(std::time::UNIX_EPOCH) {
                Ok(d) => Ok(Some(d.as_millis() as u64)),
                Err(_) => Ok(Some(0)),
            }
        },
        Err(e) => if e.kind() == std::io::ErrorKind::NotFound {
            Ok(None)
        } else {
            Err(e)
        },
    }
}

/// Relies on fs_err::metadata: whether the path names a regular file.
#[verifier::external_body]
pub(crate) fn fs_is_file(path: &str) -> Result<bool, std::io::Error> {
    Ok(fs_err::metadata(path)?.is_file())
}

/// Relies on fs_err::read_dir: the name of each immediate entry of the
/// directory, with whether that entry is itself a directory.
#[verifier::external_body]
pub(crate) fn fs_list_dir(path: &str) -> Result<Vec<(String, bool)>, std::io::Error> {
    let mut out = Vec::new();
    for entry in fs_err::read_dir(path)? {
        let e = entry?;
        let name = e.file_name().to_string_lossy().into_owned();
        let is_dir = e.file_type()?.is_dir();
        out.push((name, is_dir));
    }
    Ok(out)
}

/// Relies on std::io::Error::kind: classifies the failure.
#[verifier::external_body]
pub(crate) fn io_kind(e: &std::io::Error) -> IoKind {
    match e.kind() {
        std::io::ErrorKind::NotFound => IoKind::NotFound,
        std::io::ErrorKind::PermissionDenied => IoKind::PermissionDenied,
        std::io::ErrorKind::AlreadyExists => IoKind::AlreadyExists,
        std::io::ErrorKind::CrossesDevices => IoKind::CrossDevice,
        _ => IoKind::Other,
    }
}

/// Relies on std::time::SystemTime::now: the current time in milliseconds
/// since the epoch; nothing is promised of the value.
#[verifier::external_body]
pub(crate) fn now_millis() -> u64 {
    match std::time::SystemTime::now().duration_since(std::time::UNIX_EPOCH) {
        Ok(d) => d.as_millis() as u64,
        Err(_) => 0,
    }
}

/// Turns a filesystem failure into the engine's error for `path`.
pub(crate) fn map_io(e: std::io::Error, path: &str) -> (r: CacheError)
    ensures
        r matches CacheError::Filesystem(_, p) && p@ == path@,
{
    let k = io_kind(&e);
    CacheError::Filesystem(k, path.to_owned())
}

} // verus!
