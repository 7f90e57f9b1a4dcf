//! The Python executables searched for on a system.
use vstd::prelude::*;
use crate::path::{file_name, spec_file_name};
use crate::platform::Platform;
use crate::text::str_eq;

verus! {

/// The names a Python executable goes by.
#[derive(Clone, Copy, Debug, PartialEq, Eq, Structural)]
pub enum PythonBinary {
    Python,
    Python3,
    Python2,
}

impl PythonBinary {
    /// The executable's file name.
    pub fn as_str(&self) -> (r: &'static str)
        ensures
            r@ == match *self {
                PythonBinary::Python => "python"@,
                PythonBinary::Python3 => "python3"@,
                PythonBinary::Python2 => "python2"@,
            },
    {
        match self {
            PythonBinary::Python => "python",
            PythonBinary::Python3 => "python3",
            PythonBinary::Python2 => "python2",
        }
    }
}

/// The executables to search for, in order of preference: `python3` first,
/// then `python` (some systems name Python 3 so), then `python2` (see PEP 394).
pub fn python_binary_targets() -> (r: [PythonBinary; 3])
    ensures
        r@ == seq![PythonBinary::Python3, PythonBinary::Python, PythonBinary::Python2],
{
    let r = [PythonBinary::Python3, PythonBinary::Python, PythonBinary::Python2];
    assert(r@ =~= seq![PythonBinary::Python3, PythonBinary::Python, PythonBinary::Python2]);
    r
}

/// The deepest level below its starting directory that the search for an
/// executable reads.
pub fn binary_search_depth() -> (r: usize)
    ensures
        r == 5,
{
    5
}

/// What the search for an executable does with one entry of a directory.
#[derive(Clone, Debug)]
pub enum BinaryEntryStep {
    /// Search this directory, at this depth.
    Descend(String, usize),
    /// The executable is at this path.
    Found(String),
    /// Go on with the next entry.
    Pass,
}

/// What the search for the executable `bin_name` does with the entry at
/// path `entry` of a directory it reads at depth `step`, reading at most
/// `limit` levels deep: a directory is searched one level deeper while that
/// stays within the limit; another entry whose file name is `bin_name` is
/// found; anything else is passed over.  The search takes the first entry
/// found, in the order the entries are read.
pub fn binary_entry_step(bin_name: &str, entry: &str, is_dir: bool, step: usize, limit: usize, platform: Platform) -> (r: BinaryEntryStep)
    ensures
        is_dir && step < limit ==> (r matches BinaryEntryStep::Descend(d, n) && d@ == entry@ && n == step + 1),
        is_dir && step >= limit ==> r is Pass,
        !is_dir && spec_file_name(platform, entry@) == Some(bin_name@) ==> (r matches BinaryEntryStep::Found(p) && p@ == entry@),
        !is_dir && spec_file_name(platform, entry@) != Some(bin_name@) ==> r is Pass,
{
    if is_dir {
        if step < limit {
            BinaryEntryStep::Descend(entry.to_owned(), step + 1)
        } else {
            BinaryEntryStep::Pass
        }
    } else {
        match file_name(platform, entry) {
            Some(n) => if str_eq(n.as_str(), bin_name) {
                BinaryEntryStep::Found(entry.to_owned())
            } else {
                BinaryEntryStep::Pass
            },
            None => BinaryEntryStep::Pass,
        }
    }
}

} // verus!
