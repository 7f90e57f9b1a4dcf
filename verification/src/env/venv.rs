//! A Python virtual environment known by its directory.
use vstd::prelude::*;
use crate::error::Error;
use crate::env::python_environment::{creation_outcome, venv_creation, VenvCreation, activation_script_name, activation_suffix, bin_name, module_path_in, no_name_message, parse_filename, spec_bin_name, spec_module_path, module_path_message};
use crate::path::{join, spec_file_name, spec_join};
use crate::platform::Platform;
use crate::text::{chars_of, extend_chars, str_eq, string_from_chars};

verus! {

/// The default name of a virtual environment's directory.
pub open spec fn default_venv_name() -> Seq<char> {
    ".venv"@
}

/// A virtual environment.
#[derive(Clone, Debug)]
pub struct Venv {
    pub path: String,
}

impl Default for Venv {
    /// The environment `.venv`, relative to the current directory.
    fn default() -> (v: Venv)
        ensures
            v.path@ == default_venv_name(),
    {
        Venv { path: ".venv".to_owned() }
    }
}

impl Venv {
    /// An environment at `path`.
    pub fn new(path: String) -> (v: Venv)
        ensures
            v.path@ == path@,
    {
        Venv { path }
    }

    /// The default environment in a directory: its `.venv`.
    pub fn in_directory(dir: &str, platform: Platform) -> (v: Venv)
        ensures
            v.path@ == spec_join(platform, dir@, default_venv_name()),
    {
        Venv { path: join(platform, dir, ".venv") }
    }

    /// The environment's name: the file name of its directory.
    pub fn name(&self, platform: Platform) -> (r: Result<String, Error>)
        ensures
            match spec_file_name(platform, self.path@) {
                Some(n) => r matches Ok(s) && s@ == n,
                None => r matches Err(Error::InternalError(m)) && m@ == no_name_message(),
            },
    {
        parse_filename(self.path.as_str(), platform)
    }

    /// The environment's executables directory (`Scripts` on Windows, `bin` elsewhere).
    pub fn bin_path(&self, platform: Platform) -> (r: String)
        ensures
            r@ == spec_join(platform, self.path@, spec_bin_name(platform)),
    {
        join(platform, self.path.as_str(), bin_name(platform))
    }

    /// The path of a module installed in the environment.
    pub fn module_file_path(&self, module: &str, platform: Platform) -> (r: Result<String, Error>)
        ensures
            match spec_module_path(spec_join(platform, self.path@, spec_bin_name(platform)), module@, platform) {
                Some(p) => r matches Ok(s) && s@ == p,
                None => r matches Err(Error::InternalError(m)) && m@ == module_path_message(module@),
            },
    {
        let bin = self.bin_path(platform);
        module_path_in(bin.as_str(), module, platform)
    }

    /// The activation script for a shell: in the executables directory,
    /// `activate` with the shell's suffix.
    pub fn get_activation_script(&self, shell: &str, platform: Platform) -> (r: Result<String, Error>)
        ensures
            r matches Ok(s) && s@ == spec_join(platform, spec_join(platform, self.path@, spec_bin_name(platform)), "activate"@ + activation_suffix(shell@)),
    {
        let bin = self.bin_path(platform);
        let script = activation_script_name(shell);
        Ok(join(platform, bin.as_str(), script.as_str()))
    }
}

impl Venv {
    /// What creating the environment runs, given whether its directory
    /// exists and which Python executable was found (see `venv_creation`).
    pub fn create(&self, exists: bool, found: Result<String, Error>, platform: Platform) -> (r: Result<Option<VenvCreation>, Error>)
        ensures
            creation_outcome(self.path@, exists, found, r, platform),
    {
        venv_creation(self.path.as_str(), exists, found, platform)
    }
}

/// The command a shell sources scripts with.
pub open spec fn source_command(shell: Seq<char>) -> Seq<char> {
    if shell == "fish"@ || shell == "csh"@ || shell == "tcsh"@ || shell == "nu"@ {
        "source"@
    } else {
        "."@
    }
}

/// The command a shell sources scripts with: `source` for fish, csh, tcsh
/// and nu, `.` for the others.
pub fn shell_source_command(shell: &str) -> (r: String)
    ensures
        r@ == source_command(shell@),
{
    if str_eq(shell, "fish") || str_eq(shell, "csh") || str_eq(shell, "tcsh") || str_eq(shell, "nu") {
        "source".to_owned()
    } else {
        ".".to_owned()
    }
}

/// The command that activates an environment: the shell's source command,
/// a space, then the script.
pub fn activation_command(shell: &str, script: &str) -> (r: String)
    ensures
        r@ == source_command(shell@) + " "@ + script@,
{
    let cmd = shell_source_command(shell);
    let mut out = chars_of(cmd.as_str());
    out.push(' ');
    let s = chars_of(script);
    extend_chars(&mut out, s.as_slice());
    proof { reveal_strlit(" "); }
    assert(out@ =~= source_command(shell@) + " "@ + script@);
    string_from_chars(out.as_slice())
}

} // verus!
