//! Terminal output: how verbose it is and how its messages read.
use vstd::prelude::*;
use crate::platform::Platform;
use crate::error::Error;
use crate::path::{file_name, spec_file_name};
use crate::text::{chars_of, extend_chars, is_whitespace, is_whitespace_exec, lemma_trim_start_at, occurs_at, occurs_at_exec, slice_to_vec, starts_with, string_from_chars, trim_start};

verus! {

/// How much the terminal prints.
#[derive(Clone, Copy, Debug, PartialEq, Eq, Structural)]
pub enum Verbosity {
    Verbose,
    Normal,
    Quiet,
}

impl Default for Verbosity {
    /// The terminal is verbose unless told otherwise.
    fn default() -> (v: Verbosity)
        ensures
            v == Verbosity::Verbose,
    {
        Verbosity::Verbose
    }
}

/// Options for the terminal.
#[derive(Clone, Copy, Debug)]
pub struct TerminalOptions {
    pub verbosity: Verbosity,
}

impl TerminalOptions {
    /// How much the terminal prints.
    pub fn verbosity(&self) -> (r: &Verbosity)
        ensures
            *r == self.verbosity,
    {
        &self.verbosity
    }
}

/// The kinds of messages the terminal prints.
#[derive(Clone, Copy, Debug, PartialEq, Eq, Structural)]
pub enum MessageKind {
    Error,
    Warning,
    Custom,
}

/// Whether a message is printed: errors always are; warnings and other
/// messages only when the terminal is not quiet.
pub fn prints(verbosity: Verbosity, kind: MessageKind) -> (r: bool)
    ensures
        r == (kind == MessageKind::Error || verbosity != Verbosity::Quiet),
{
    match kind {
        MessageKind::Error => true,
        _ => verbosity != Verbosity::Quiet,
    }
}

/// `s` without every leading repetition of `p`.
pub open spec fn strip_repeated(s: Seq<char>, p: Seq<char>) -> Seq<char>
    decreases s.len(),
{
    if p.len() > 0 && starts_with(s, p) {
        strip_repeated(s.skip(p.len() as int), p)
    } else {
        s
    }
}

/// A message without its `error:` and `ERROR:` prefixes and leading whitespace.
pub open spec fn spec_trim_error_prefix(msg: Seq<char>) -> Seq<char> {
    trim_start(strip_repeated(strip_repeated(msg, "error:"@), "ERROR:"@))
}

/// Skip every leading repetition of `p` in `s[from..]`, giving where the rest starts.
fn skip_repeated(s: &[char], from: usize, p: &[char]) -> (r: usize)
    requires
        from <= s@.len(),
    ensures
        from <= r <= s@.len(),
        strip_repeated(s@.skip(from as int), p@) == s@.skip(r as int),
{
    let mut pos = from;
    if p.len() == 0 {
        return pos;
    }
    while p.len() <= s.len() - pos && occurs_at_exec(s, p, pos)
        invariant
            from <= pos <= s@.len(),
            p@.len() > 0,
            strip_repeated(s@.skip(from as int), p@) == strip_repeated(s@.skip(pos as int), p@),
        decreases s@.len() - pos,
    {
        proof {
            let t = s@.skip(pos as int);
            assert(t.subrange(0, p@.len() as int) =~= s@.subrange(pos as int, pos + p@.len()));
            assert(t.skip(p@.len() as int) =~= s@.skip(pos + p@.len()));
        }
        pos = pos + p.len();
    }
    proof {
        let t = s@.skip(pos as int);
        if p@.len() <= t.len() && starts_with(t, p@) {
            assert(t.subrange(0, p@.len() as int) =~= s@.subrange(pos as int, pos + p@.len()));
            assert(occurs_at(s@, p@, pos as int));
        }
    }
    pos
}

/// A message without its `error:` and `ERROR:` prefixes and leading
/// whitespace (see `spec_trim_error_prefix`).
pub fn trim_error_prefix(msg: &str) -> (r: String)
    ensures
        r@ == spec_trim_error_prefix(msg@),
{
    let s = chars_of(msg);
    let lower = chars_of("error:");
    let upper = chars_of("ERROR:");
    assert(s@.skip(0) =~= s@);
    let a = skip_repeated(s.as_slice(), 0, lower.as_slice());
    let b = skip_repeated(s.as_slice(), a, upper.as_slice());
    let mut c = b;
    let ghost t = s@.skip(b as int);
    while c < s.len() && is_whitespace_exec(s[c])
        invariant
            b <= c <= s@.len(),
            t == s@.skip(b as int),
            forall|j: int| 0 <= j < c - b ==> #[trigger] is_whitespace(t[j]),
        decreases s@.len() - c,
    {
        c = c + 1;
    }
    proof {
        lemma_trim_start_at(t, c - b);
        assert(t.skip(c - b) =~= s@.skip(c as int));
    }
    let rest = slice_to_vec(s.as_slice(), c, s.len());
    assert(rest@ =~= s@.skip(c as int));
    string_from_chars(rest.as_slice())
}

/// The messages a failed quiet command reports as errors: its output and
/// its error output, each without error prefixes, when not empty; nothing
/// when the command succeeded.
pub open spec fn spec_quiet_failure_messages(code: i32, stdout: Seq<char>, stderr: Seq<char>) -> Seq<Seq<char>> {
    if code > 0 {
        (if spec_trim_error_prefix(stdout).len() > 0 {
            seq![spec_trim_error_prefix(stdout)]
        } else {
            Seq::empty()
        }) + (if spec_trim_error_prefix(stderr).len() > 0 {
            seq![spec_trim_error_prefix(stderr)]
        } else {
            Seq::empty()
        })
    } else {
        Seq::empty()
    }
}

/// The error messages of a quiet command (see `spec_quiet_failure_messages`).
pub fn quiet_failure_messages(code: i32, stdout: &str, stderr: &str) -> (r: Vec<String>)
    ensures
        crate::text::strings_view(r@) == spec_quiet_failure_messages(code, stdout@, stderr@),
{
    let mut r: Vec<String> = Vec::new();
    if code > 0 {
        let out = trim_error_prefix(stdout);
        let err = trim_error_prefix(stderr);
        if out.unicode_len() > 0 {
            r.push(out);
        }
        if err.unicode_len() > 0 {
            r.push(err);
        }
        assert(crate::text::strings_view(r@) =~= spec_quiet_failure_messages(code, stdout@, stderr@));
    } else {
        assert(crate::text::strings_view(r@) =~= Seq::<Seq<char>>::empty());
    }
    r
}

/// `s` padded on the left with spaces to twelve characters.
pub open spec fn right_aligned(s: Seq<char>) -> Seq<char> {
    if s.len() < 12 {
        Seq::new((12 - s.len()) as nat, |i: int| ' ') + s
    } else {
        s
    }
}

/// The text of a status message: the status (right-aligned to twelve
/// characters when justified, else followed by `:`), then a space and the
/// message with a line break, or just a space without a message.
pub open spec fn spec_status_line(status: Seq<char>, message: Option<Seq<char>>, justified: bool) -> Seq<char> {
    (if justified {
        right_aligned(status)
    } else {
        status.push(':')
    }) + match message {
        Some(m) => seq![' '] + m + seq!['\n'],
        None => seq![' '],
    }
}

/// The text of a status message (see `spec_status_line`).
pub fn status_line(status: &str, message: Option<&str>, justified: bool) -> (r: String)
    ensures
        r@ == spec_status_line(status@, match message {
            Some(m) => Some(m@),
            None => None,
        }, justified),
{
    let st = chars_of(status);
    let mut out: Vec<char> = Vec::new();
    if justified {
        let n = st.len();
        if n < 12 {
            let mut k: usize = 0;
            while k < 12 - n
                invariant
                    n < 12,
                    k <= 12 - n,
                    out@ == Seq::new(k as nat, |i: int| ' '),
                decreases 12 - n - k,
            {
                out.push(' ');
                k = k + 1;
                assert(out@ =~= Seq::new(k as nat, |i: int| ' '));
            }
        }
        extend_chars(&mut out, st.as_slice());
        assert(out@ =~= right_aligned(status@));
    } else {
        extend_chars(&mut out, st.as_slice());
        out.push(':');
        assert(out@ =~= status@.push(':'));
    }
    let ghost head = out@;
    match message {
        Some(m) => {
            out.push(' ');
            let mc = chars_of(m);
            extend_chars(&mut out, mc.as_slice());
            out.push('\n');
            assert(out@ =~= head + (seq![' '] + m@ + seq!['\n']));
        },
        None => {
            out.push(' ');
            assert(out@ =~= head + seq![' ']);
        },
    }
    string_from_chars(out.as_slice())
}

/// The message of a shell path without a file name.
pub open spec fn invalid_shell_message() -> Seq<char> {
    "shell path is invalid"@
}

/// The name of a shell from its path: the path's file name.
pub fn shell_name(shell_path: &str, platform: Platform) -> (r: Result<String, Error>)
    ensures
        match spec_file_name(platform, shell_path@) {
            Some(n) => r matches Ok(s) && s@ == n,
            None => r matches Err(Error::InternalError(m)) && m@ == invalid_shell_message(),
        },
{
    match file_name(platform, shell_path) {
        Some(n) => Ok(n),
        None => Err(Error::InternalError("shell path is invalid".to_owned())),
    }
}

/// The path of the shell on Unix: the `SHELL` variable, else `sh`.
pub fn shell_path(shell_var: Option<String>) -> (r: String)
    ensures
        r@ == match shell_var {
            Some(s) => s@,
            None => "sh"@,
        },
{
    match shell_var {
        Some(s) => s,
        None => "sh".to_owned(),
    }
}

/// The output of a command: what it printed, then what it printed as errors.
pub fn parse_command_output(stdout: &str, stderr: &str) -> (r: String)
    ensures
        r@ == stdout@ + stderr@,
{
    let mut out = chars_of(stdout);
    let e = chars_of(stderr);
    extend_chars(&mut out, e.as_slice());
    string_from_chars(out.as_slice())
}

} // verus!
