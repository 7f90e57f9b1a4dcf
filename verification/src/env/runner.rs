//! Running commands from a Python environment.
use vstd::prelude::*;
use crate::platform::Platform;
use crate::text::{chars_of, extend_chars, string_from_chars};

verus! {

/// Runs commands from a home directory.
#[derive(Clone, Debug)]
pub struct Runner {
    /// The directory commands are run from unless told otherwise.
    home: String,
}

impl Runner {
    /// The directory commands are run from unless told otherwise.
    pub closed spec fn spec_home(&self) -> Seq<char> {
        self.home@
    }

    /// A runner at `home` (the current directory, for the application).
    pub fn new(home: &str) -> (r: Runner)
        ensures
            r.spec_home() == home@,
    {
        Runner { home: home.to_owned() }
    }

    /// The directory to run from: `from` when given, else home.
    pub fn run_directory<'a>(&'a self, from: Option<&'a str>) -> (r: &'a str)
        ensures
            r@ == match from {
                Some(f) => f@,
                None => self.spec_home(),
            },
    {
        match from {
            Some(f) => f,
            None => self.home.as_str(),
        }
    }
}

/// The flag that makes a shell run a command string: `/C` on Windows, `-c` elsewhere.
pub fn shell_command_flag(platform: Platform) -> (r: &'static str)
    ensures
        r@ == match platform {
            Platform::Windows => "/C"@,
            Platform::Unix => "-c"@,
        },
{
    match platform {
        Platform::Windows => "/C",
        Platform::Unix => "-c",
    }
}

/// The `PATH` a command runs with: the environment's executables directory,
/// a `:`, then the current `PATH`.
pub fn path_with_bin(bin_path: &str, path: &str) -> (r: String)
    ensures
        r@ == bin_path@ + seq![':'] + path@,
{
    let mut out = chars_of(bin_path);
    out.push(':');
    let p = chars_of(path);
    extend_chars(&mut out, p.as_slice());
    string_from_chars(out.as_slice())
}

} // verus!
