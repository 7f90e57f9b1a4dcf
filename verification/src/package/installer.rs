//! Installing Python packages.
use vstd::prelude::*;

verus! {

/// Installs packages into environments.
#[derive(Clone, Copy, Debug)]
pub struct Installer {
    /// Whether the package cache is bypassed.
    pub ignore_cache: bool,
}

impl Installer {
    /// An installer that uses the cache.
    pub fn new() -> (i: Installer)
        ensures
            !i.ignore_cache,
    {
        Installer { ignore_cache: false }
    }
}

} // verus!
