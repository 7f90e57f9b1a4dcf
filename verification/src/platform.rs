//! The operating-system family that decides file layouts.
use vstd::prelude::*;
use crate::text::str_eq;

verus! {

/// Windows, or any other system (treated as Unix-like).
#[derive(Clone, Copy, Debug, PartialEq, Eq, Structural)]
pub enum Platform {
    Windows,
    Unix,
}

impl Platform {
    /// The platform named by an OS name such as `std::env::consts::OS`:
    /// Windows for `"windows"`, Unix-like otherwise.
    pub fn from_os_name(os: &str) -> (p: Platform)
        ensures
            p == (if os@ == "windows"@ { Platform::Windows } else { Platform::Unix }),
    {
        if str_eq(os, "windows") {
            Platform::Windows
        } else {
            Platform::Unix
        }
    }
}

} // verus!
