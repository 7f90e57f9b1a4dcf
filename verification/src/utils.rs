//! Small helpers: file names of paths, executables directories, and the
//! muting of subcommands.
use vstd::prelude::*;
use crate::error::Error;
use crate::path::{file_name, spec_file_name};
use crate::platform::Platform;
use crate::text::{chars_of, extend_chars, str_eq, string_from_chars};

verus! {

/// The message of a path without a file name.
pub open spec fn unreadable_name_message() -> Seq<char> {
    "failed to read name from path"@
}

/// The file name of a path as the platform reads it, or an error when it has none.
pub fn get_filename_from_path(path: &str, platform: Platform) -> (r: Result<String, Error>)
    ensures
        match spec_file_name(platform, path@) {
            Some(n) => r matches Ok(s) && s@ == n,
            None => r matches Err(Error::InternalError(m)) && m@ == unreadable_name_message(),
        },
{
    match file_name(platform, path) {
        Some(n) => Ok(n),
        None => Err(Error::InternalError("failed to read name from path".to_owned())),
    }
}

/// The executables directory of a virtual environment: `Scripts` on Windows, `bin` elsewhere.
pub fn get_venv_bin(platform: Platform) -> (r: String)
    ensures
        r@ == match platform {
            Platform::Windows => "Scripts"@,
            Platform::Unix => "bin"@,
        },
{
    match platform {
        Platform::Windows => "Scripts".to_owned(),
        Platform::Unix => "bin".to_owned(),
    }
}

/// Whether subcommands are muted: the `HUAK_MUTE_SUBCOMMAND` value (`False`
/// when unset) is `TRUE`, `True`, `true` or `1`.
pub open spec fn spec_should_mute(value: Option<Seq<char>>) -> bool {
    match value {
        Some(v) => v == "TRUE"@ || v == "True"@ || v == "true"@ || v == "1"@,
        None => false,
    }
}

/// Whether subcommands are muted (see `spec_should_mute`).
pub fn should_mute(value: Option<&str>) -> (r: bool)
    ensures
        r == spec_should_mute(match value {
            Some(v) => Some(v@),
            None => None,
        }),
{
    let v = match value {
        Some(v) => v,
        None => "False",
    };
    proof {
        reveal_strlit("False");
        reveal_strlit("TRUE");
        reveal_strlit("True");
        reveal_strlit("true");
        reveal_strlit("1");
        assert("False"@.len() == 5);
    }
    str_eq(v, "TRUE") || str_eq(v, "True") || str_eq(v, "true") || str_eq(v, "1")
}

/// The message of a command: its output, then, when there is error output,
/// a line break and the error output.
pub fn create_msg(stdout: &str, stderr: &str) -> (r: String)
    ensures
        r@ == if stderr@.len() > 0 {
            stdout@ + seq!['\n'] + stderr@
        } else {
            stdout@
        },
{
    let mut msg = chars_of(stdout);
    let e = chars_of(stderr);
    if e.len() > 0 {
        msg.push('\n');
        let ghost head = msg@;
        extend_chars(&mut msg, e.as_slice());
        assert(msg@ =~= stdout@ + seq!['\n'] + stderr@);
    }
    string_from_chars(msg.as_slice())
}

} // verus!

verus! {

/// Where a module of the virtual environment `.venv` in `cwd` is:
/// `cwd/.venv/BIN/module`, with the platform's executables directory.
pub fn get_venv_module_path(cwd: &str, module: &str, platform: Platform) -> (r: String)
    ensures
        r@ == crate::path::spec_join(platform, crate::path::spec_join(platform, crate::path::spec_join(platform, cwd@, ".venv"@),
            match platform {
                Platform::Windows => "Scripts"@,
                Platform::Unix => "bin"@,
            }), module@),
{
    let venv = crate::path::join(platform, cwd, ".venv");
    let bin = get_venv_bin(platform);
    let dir = crate::path::join(platform, venv.as_str(), bin.as_str());
    crate::path::join(platform, dir.as_str(), module)
}

} // verus!
