use vstd::prelude::*;
use crate::chars::str_eq;
use crate::errors::CacheError;

verus! {

/// The effective cache access mode. It is resolved once, from a single
/// environment toggle, by the caller at engine construction, and then passed
/// explicitly through every operation; the library itself never consults
/// global state.
#[derive(Clone, Copy, Debug, PartialEq, Eq, Structural)]
pub enum CacheMode {
    /// Neither reads nor writes touch the cache.
    Off,
    /// Cached data may be read, but nothing is persisted.
    ReadOnly,
    /// Data is persisted, but existing cache content is ignored.
    WriteOnly,
    /// Reads and writes are both honoured (the default).
    Full,
}

impl CacheMode {
    /// Whether cached data may be read under this mode.
    pub open spec fn spec_can_read(self) -> bool {
        self is ReadOnly || self is Full
    }

    /// Whether cache files may be created or modified under this mode.
    pub open spec fn spec_can_write(self) -> bool {
        self is WriteOnly || self is Full
    }

    #[verifier::when_used_as_spec(spec_can_read)]
    pub fn can_read(self) -> (r: bool)
        ensures
            r == self.spec_can_read(),
    {
        match self {
            CacheMode::ReadOnly | CacheMode::Full => true,
            _ => false,
        }
    }

    #[verifier::when_used_as_spec(spec_can_write)]
    pub fn can_write(self) -> (r: bool)
        ensures
            r == self.spec_can_write(),
    {
        match self {
            CacheMode::WriteOnly | CacheMode::Full => true,
            _ => false,
        }
    }
}

/// Resolves the cache mode from the value of the environment toggle:
/// unset or empty means full access, `off`, `read` and `write` name the
/// three restricted modes, and anything else is a configuration error.
pub fn parse_cache_mode(s: &str) -> (r: Result<CacheMode, CacheError>)
    ensures
        s@.len() == 0 ==> r == Result::<CacheMode, CacheError>::Ok(CacheMode::Full),
        s@ == "off"@ ==> r == Result::<CacheMode, CacheError>::Ok(CacheMode::Off),
        s@ == "read"@ ==> r == Result::<CacheMode, CacheError>::Ok(CacheMode::ReadOnly),
        s@ == "write"@ ==> r == Result::<CacheMode, CacheError>::Ok(CacheMode::WriteOnly),
        (s@.len() != 0 && s@ != "off"@ && s@ != "read"@ && s@ != "write"@) ==> (
        r matches Result::Err(CacheError::Configuration(v)) && v@ == s@),
{
    proof {
        reveal_strlit("off");
        reveal_strlit("read");
        reveal_strlit("write");
    }
    if s.is_empty() {
        Ok(CacheMode::Full)
    } else if str_eq(s, "off") {
        Ok(CacheMode::Off)
    } else if str_eq(s, "read") {
        Ok(CacheMode::ReadOnly)
    } else if str_eq(s, "write") {
        Ok(CacheMode::WriteOnly)
    } else {
        Err(CacheError::Configuration(s.to_owned()))
    }
}

} // verus!
