//! Records of installed distributions (PEP 376).
use vstd::prelude::*;

verus! {

/// The hash algorithms of a record.
#[derive(Clone, Copy, Debug, PartialEq, Eq, Structural)]
pub enum HashAlgo {
    SHA256,
}

impl HashAlgo {
    /// The name of the algorithm.
    pub fn as_str(&self) -> (r: &'static str)
        ensures
            r@ == "sha256"@,
    {
        match self {
            HashAlgo::SHA256 => "sha256",
        }
    }
}

/// A hash string: the algorithm, a separator and the hash of the contents.
#[derive(Clone, Debug)]
pub struct HashString(pub HashAlgo, pub char, pub String);

/// A recorded file: its path, its hash and its size in bytes.
#[derive(Clone, Debug)]
pub struct RecordRow(pub String, pub HashString, pub u32);

/// The rows of a distribution's `RECORD` file.
#[derive(Clone, Debug)]
pub struct RecordData(pub Vec<RecordRow>);

} // verus!
