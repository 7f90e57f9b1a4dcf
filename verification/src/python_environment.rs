//! Python interpreters and virtual environments found on the system.
use vstd::prelude::*;
use std::cmp::Ordering;
use crate::error::Error;
use crate::number::{is_float_literal, is_float_literal_exec};
use crate::path::{file_name, spec_file_name};
use crate::platform::Platform;
use crate::text::{chars_of, ends_with, occurs_at_exec, slice_to_vec, split_once, split_once_exec, starts_with, string_from_chars, trim, trim_bounds, utf8_len, utf8_len_up_to};
use crate::version::{lemma_release_predicates, lemma_release_predicates_transitive, release_gt, release_lt, release_order, release_same, version_read, Version};

verus! {

/// The Python interpreter a virtual environment runs.
pub struct Interpreter {
    /// The version of the interpreter.
    version: Version,
    /// The path to the interpreter's executable.
    path: String,
}

impl Interpreter {
    /// The release numbers of the interpreter's version.
    pub closed spec fn spec_version(&self) -> Seq<usize> {
        self.version@
    }

    /// The path of the interpreter.
    pub closed spec fn spec_path(&self) -> Seq<char> {
        self.path@
    }

    /// An interpreter at `path` with `version`.
    pub fn new(path: &str, version: Version) -> (i: Interpreter)
        ensures
            i.spec_path() == path@,
            i.spec_version() == version@,
    {
        Interpreter { version, path: path.to_owned() }
    }

    /// The path of the interpreter.
    pub fn path(&self) -> (p: &String)
        ensures
            p@ == self.spec_path(),
    {
        &self.path
    }

    /// The version of the interpreter.
    pub fn version(&self) -> (v: &Version)
        ensures
            v@ == self.spec_version(),
    {
        &self.version
    }
}

/// Interpreters are ordered by their versions.
pub fn compare_interpreters(this: &Interpreter, other: &Interpreter) -> (o: Ordering)
    ensures
        o == release_order(this.spec_version(), other.spec_version()),
{
    if this.version != other.version {
        return crate::version::compare_release(&this.version, &other.version);
    }
    Ordering::Equal
}

/// Whether interpreter `a` orders before interpreter `b`.
pub fn interpreter_lt(a: &Interpreter, b: &Interpreter) -> (r: bool)
    ensures
        r == release_lt(a.spec_version(), b.spec_version()),
{
    match compare_interpreters(a, b) {
        Ordering::Less => true,
        _ => false,
    }
}

/// `i` is the position of the last of the greatest versions in `vs`.
pub open spec fn is_last_greatest(vs: Seq<Seq<usize>>, i: int) -> bool {
    &&& 0 <= i < vs.len()
    &&& forall|j: int| 0 <= j < vs.len() ==> !release_gt(#[trigger] vs[j], vs[i])
    &&& forall|j: int| i < j < vs.len() ==> release_lt(#[trigger] vs[j], vs[i])
}

/// `i` is the position of the first version in `vs` equal to `v`.
pub open spec fn is_first_equal(vs: Seq<Seq<usize>>, v: Seq<usize>, i: int) -> bool {
    &&& 0 <= i < vs.len()
    &&& release_same(vs[i], v)
    &&& forall|j: int| 0 <= j < i ==> !release_same(#[trigger] vs[j], v)
}

/// A collection of Python interpreters.
pub struct Interpreters {
    interpreters: Vec<Interpreter>,
}

impl Interpreters {
    /// The versions of the interpreters, in order.
    pub closed spec fn versions(&self) -> Seq<Seq<usize>> {
        self.interpreters@.map_values(|i: Interpreter| i.spec_version())
    }

    /// The paths of the interpreters, in order.
    pub closed spec fn paths(&self) -> Seq<Seq<char>> {
        self.interpreters@.map_values(|i: Interpreter| i.spec_path())
    }

    /// Wrap a collection of interpreters.
    pub fn new(interpreters: Vec<Interpreter>) -> (r: Interpreters)
        ensures
            r.versions() == interpreters@.map_values(|i: Interpreter| i.spec_version()),
            r.paths() == interpreters@.map_values(|i: Interpreter| i.spec_path()),
    {
        Interpreters { interpreters }
    }

    /// The wrapped interpreters.
    pub fn interpreters(&self) -> (v: &Vec<Interpreter>)
        ensures
            v@.map_values(|i: Interpreter| i.spec_version()) == self.versions(),
            v@.map_values(|i: Interpreter| i.spec_path()) == self.paths(),
    {
        &self.interpreters
    }

    /// The interpreter with the greatest version (the last of them when
    /// several compare equal), if there is any interpreter.
    pub fn latest(&self) -> (r: Option<&Interpreter>)
        ensures
            match r {
                None => self.versions().len() == 0,
                Some(i) => exists|k: int| is_last_greatest(self.versions(), k)
                    && i.spec_version() == self.versions()[k] && i.spec_path() == self.paths()[k],
            },
    {
        let n = self.interpreters.len();
        if n == 0 {
            return None;
        }
        let ghost vs = self.versions();
        let mut best: usize = 0;
        let mut i: usize = 1;
        let _ = self.interpreters[0].version.release_len();
        assert(vs[0] == self.interpreters@[0].spec_version());
        while i < n
            invariant
                n == self.interpreters@.len(),
                vs == self.versions(),
                vs.len() == n,
                forall|j: int| 0 <= j < i ==> #[trigger] vs[j].len() == 3,
                1 <= i <= n,
                best < i,
                forall|j: int| 0 <= j < i ==> !release_gt(#[trigger] vs[j], vs[best as int]),
                forall|j: int| best < j < i ==> release_lt(#[trigger] vs[j], vs[best as int]),
            decreases n - i,
        {
            assert(vs[i as int] == self.interpreters@[i as int].spec_version());
            assert(vs[best as int] == self.interpreters@[best as int].spec_version());
            let _ = self.interpreters[i].version.release_len();
            if !interpreter_lt(&self.interpreters[i], &self.interpreters[best]) {
                // the new element is at least as great: it becomes the best
                proof {
                    assert forall|j: int| 0 <= j < i + 1 implies !release_gt(#[trigger] vs[j], vs[i as int]) by {
                        lemma_release_predicates(vs[best as int], vs[i as int]);
                        lemma_release_predicates(vs[j], vs[i as int]);
                        lemma_release_predicates_transitive(vs[j], vs[best as int], vs[i as int]);
                    }
                }
                best = i;
            }
            i = i + 1;
        }
        let r = &self.interpreters[best];
        assert(r.spec_version() == vs[best as int]);
        assert(is_last_greatest(vs, best as int));
        Some(r)
    }

    /// The first interpreter whose version equals `version`, if any.
    pub fn exact(&self, version: &Version) -> (r: Option<&Interpreter>)
        ensures
            match r {
                None => forall|k: int| 0 <= k < self.versions().len()
                    ==> !release_same(#[trigger] self.versions()[k], version@),
                Some(i) => exists|k: int| is_first_equal(self.versions(), version@, k)
                    && i.spec_version() == self.versions()[k] && i.spec_path() == self.paths()[k],
            },
    {
        let n = self.interpreters.len();
        let ghost vs = self.versions();
        let mut i: usize = 0;
        while i < n
            invariant
                n == self.interpreters@.len(),
                vs == self.versions(),
                i <= n,
                forall|j: int| 0 <= j < i ==> !release_same(#[trigger] vs[j], version@),
            decreases n - i,
        {
            let it = &self.interpreters[i];
            assert(vs[i as int] == it.spec_version());
            if it.version == *version {
                assert(is_first_equal(vs, version@, i as int));
                return Some(it);
            }
            i = i + 1;
        }
        None
    }

    /// The first interpreter whose version displays as `text`, if any.
    pub fn with_version_text(&self, text: &str) -> (r: Option<&Interpreter>)
        ensures
            match r {
                None => forall|k: int| 0 <= k < self.versions().len()
                    ==> crate::version::version_display(#[trigger] self.versions()[k]) != text@,
                Some(i) => exists|k: int| 0 <= k < self.versions().len()
                    && crate::version::version_display(self.versions()[k]) == text@
                    && (forall|j: int| 0 <= j < k ==> crate::version::version_display(#[trigger] self.versions()[j]) != text@)
                    && i.spec_version() == self.versions()[k] && i.spec_path() == self.paths()[k],
            },
    {
        let n = self.interpreters.len();
        let ghost vs = self.versions();
        let mut i: usize = 0;
        while i < n
            invariant
                n == self.interpreters@.len(),
                vs == self.versions(),
                i <= n,
                forall|j: int| 0 <= j < i ==> crate::version::version_display(#[trigger] vs[j]) != text@,
            decreases n - i,
        {
            let it = &self.interpreters[i];
            assert(vs[i as int] == it.spec_version());
            let shown = it.version.to_string();
            if crate::text::str_eq(shown.as_str(), text) {
                return Some(it);
            }
            i = i + 1;
        }
        None
    }
}

} // verus!

verus! {

/// `s` without the suffix `suffix` when it ends with it, else `s` itself.
pub open spec fn strip_suffix_or_self(s: Seq<char>, suffix: Seq<char>) -> Seq<char> {
    if ends_with(s, suffix) {
        s.take(s.len() - suffix.len())
    } else {
        s
    }
}

/// Whether a file name names a Python interpreter.  On Unix: `python`, or
/// `python` followed by a float literal when the name is at least as long
/// (in bytes) as `python3.0`.  On Windows: `python.exe` or `python`, or
/// `python` followed by a float literal once `.exe` is stripped.
pub open spec fn is_python_interpreter_file_name(name: Seq<char>, platform: Platform) -> bool {
    match platform {
        Platform::Unix => {
            ||| name == "python"@
            ||| (starts_with(name, "python"@) && utf8_len(name) >= 9 && is_float_literal(name.skip(6)))
        },
        Platform::Windows => {
            ||| name == "python.exe"@
            ||| name == "python"@
            ||| (starts_with(name, "python"@) && utf8_len(strip_suffix_or_self(name, ".exe"@)) > 6
                && is_float_literal(strip_suffix_or_self(name, ".exe"@).skip(6)))
        },
    }
}

/// The version text in an interpreter's file name: what follows `python`
/// (once `.exe` is stripped on Windows).
pub open spec fn interpreter_version_text(name: Seq<char>, platform: Platform) -> Seq<char> {
    match platform {
        Platform::Unix => name.skip(6),
        Platform::Windows => strip_suffix_or_self(name, ".exe"@).skip(6),
    }
}

/// Test whether `s` ends with the literal `suffix`, returning the stripped length.
fn strip_suffix_len(s: &[char], suffix: &str) -> (n: usize)
    ensures
        n == strip_suffix_or_self(s@, suffix@).len(),
        strip_suffix_or_self(s@, suffix@) == s@.take(n as int),
{
    let suf = chars_of(suffix);
    if suf.len() <= s.len() && occurs_at_exec(s, suf.as_slice(), s.len() - suf.len()) {
        s.len() - suf.len()
    } else {
        assert(s@.take(s@.len() as int) =~= s@);
        s.len()
    }
}

/// Whether `name` starts with `python`.
fn starts_with_python(name: &[char]) -> (r: bool)
    ensures
        r == starts_with(name@, "python"@),
{
    let p = chars_of("python");
    assert(starts_with(name@, "python"@) == crate::text::occurs_at(name@, p@, 0));
    occurs_at_exec(name, p.as_slice(), 0)
}

/// Whether a file name names a Python interpreter (see `is_python_interpreter_file_name`).
pub fn valid_python_interpreter_file_name(file_name: &str, platform: Platform) -> (r: bool)
    ensures
        r == is_python_interpreter_file_name(file_name@, platform),
{
    let name = chars_of(file_name);
    match platform {
        Platform::Unix => {
            if crate::text::str_eq(file_name, "python") {
                return true;
            }
            if !starts_with_python(name.as_slice()) {
                return false;
            }
            proof { reveal_strlit("python"); }
            if utf8_len_up_to(name.as_slice(), 8) <= 8 {
                return false;
            }
            let rest = slice_to_vec(name.as_slice(), 6, name.len());
            assert(rest@ =~= file_name@.skip(6));
            is_float_literal_exec(rest.as_slice())
        },
        Platform::Windows => {
            if crate::text::str_eq(file_name, "python.exe") || crate::text::str_eq(file_name, "python") {
                return true;
            }
            if !starts_with_python(name.as_slice()) {
                return false;
            }
            proof { reveal_strlit("python"); reveal_strlit(".exe"); }
            let n = strip_suffix_len(name.as_slice(), ".exe");
            let stripped = slice_to_vec(name.as_slice(), 0, n);
            assert(stripped@ =~= strip_suffix_or_self(file_name@, ".exe"@));
            if utf8_len_up_to(stripped.as_slice(), 6) <= 6 {
                return false;
            }
            proof { lemma_python_exe_no_overlap(file_name@); }
            let rest = slice_to_vec(name.as_slice(), 6, n);
            assert(rest@ =~= strip_suffix_or_self(file_name@, ".exe"@).skip(6));
            is_float_literal_exec(rest.as_slice())
        },
    }
}

/// Stripping `.exe` from a name that starts with `python` keeps the `python`.
pub proof fn lemma_python_exe_no_overlap(name: Seq<char>)
    requires
        starts_with(name, "python"@),
    ensures
        strip_suffix_or_self(name, ".exe"@).len() >= 6,
{
    reveal_strlit("python");
    reveal_strlit(".exe");
    if ends_with(name, ".exe"@) && name.len() < 10 {
        let k = name.len() - 4;
        assert(name.subrange(k, name.len() as int)[0] == '.');
        assert(name[k] == '.');
        assert(name.subrange(0, 6)[k] == "python"@[k]);
    }
}

/// Each character takes at most four bytes.
pub proof fn lemma_utf8_len_le_width(s: Seq<char>)
    ensures
        utf8_len(s) <= 4 * s.len(),
    decreases s.len(),
{
    if s.len() > 0 {
        lemma_utf8_len_le_width(s.drop_last());
    }
}

/// The message of an interpreter file name without a version.
pub open spec fn no_version_message(name: Seq<char>) -> Seq<char> {
    "could not version from "@ + name
}

/// Read the version from an interpreter's file name.
pub fn version_from_python_interpreter_file_name(file_name: &str, platform: Platform) -> (r: Result<Version, Error>)
    requires
        starts_with(file_name@, "python"@),
    ensures
        r is Ok <==> version_read(interpreter_version_text(file_name@, platform)) is Some,
        r matches Ok(v) ==> version_read(interpreter_version_text(file_name@, platform)) == Some(v@),
        r matches Err(e) ==> (e matches Error::InternalError(m) && m@ == no_version_message(file_name@)),
{
    let name = chars_of(file_name);
    proof { reveal_strlit("python"); reveal_strlit(".exe"); }
    let end = match platform {
        Platform::Unix => name.len(),
        Platform::Windows => strip_suffix_len(name.as_slice(), ".exe"),
    };
    proof { lemma_python_exe_no_overlap(file_name@); }
    let text = slice_to_vec(name.as_slice(), 6, end);
    assert(text@ =~= interpreter_version_text(file_name@, platform));
    let s = string_from_chars(text.as_slice());
    match Version::from_str(s.as_str()) {
        Ok(v) => Ok(v),
        Err(_) => {
            let mut msg = chars_of("could not version from ");
            crate::text::extend_chars(&mut msg, name.as_slice());
            Err(Error::InternalError(string_from_chars(msg.as_slice())))
        },
    }
}

/// The entry a path gives when searching for interpreters: nothing unless
/// its file name names an interpreter; on Unix only when the version can
/// be read from the name, on Windows with the version when it can be read.
pub open spec fn interpreter_entry(p: Seq<char>, platform: Platform) -> Option<(Option<Seq<usize>>, Seq<char>)> {
    match spec_file_name(platform, p) {
        None => None,
        Some(name) => if is_python_interpreter_file_name(name, platform) {
            let text = interpreter_version_text(name, platform);
            match platform {
                Platform::Unix => if version_read(text) is Some {
                    Some((version_read(text), p))
                } else {
                    None
                },
                Platform::Windows => Some((version_read(text), p)),
            }
        } else {
            None
        },
    }
}

/// The entries the paths give, in order.
pub open spec fn interpreter_entries(ps: Seq<Seq<char>>, platform: Platform) -> Seq<(Option<Seq<usize>>, Seq<char>)>
    decreases ps.len(),
{
    if ps.len() == 0 {
        Seq::empty()
    } else {
        let init = interpreter_entries(ps.drop_last(), platform);
        match interpreter_entry(ps.last(), platform) {
            Some(e) => init.push(e),
            None => init,
        }
    }
}

/// The view of an interpreter entry.
pub open spec fn entry_view(e: (Option<Version>, String)) -> (Option<Seq<usize>>, Seq<char>) {
    (
        match e.0 {
            Some(v) => Some(v@),
            None => None,
        },
        e.1@,
    )
}

} // verus!

verus! {

/// The entry one path gives when searching for interpreters (see `interpreter_entry`).
pub fn python_interpreter_in_path(p: &str, platform: Platform) -> (r: Option<(Option<Version>, String)>)
    ensures
        match r {
            Some(e) => interpreter_entry(p@, platform) == Some(entry_view(e)),
            None => interpreter_entry(p@, platform) is None,
        },
{
    let name = match file_name(platform, p) {
        Some(n) => n,
        None => return None,
    };
    if !valid_python_interpreter_file_name(name.as_str(), platform) {
        return None;
    }
    proof {
        reveal_strlit("python");
        reveal_strlit("python.exe");
        if name@ == "python"@ || name@ == "python.exe"@ {
            assert(name@.subrange(0, 6) =~= "python"@);
        }
    }
    let version = version_from_python_interpreter_file_name(name.as_str(), platform);
    match platform {
        Platform::Unix => match version {
            Ok(v) => Some((Some(v), p.to_owned())),
            Err(_) => None,
        },
        Platform::Windows => match version {
            Ok(v) => Some((Some(v), p.to_owned())),
            Err(_) => Some((None, p.to_owned())),
        },
    }
}

/// The interpreters found among the paths (see `interpreter_entries`).
pub fn python_interpreters_in_paths(paths: &Vec<String>, platform: Platform) -> (r: Vec<(Option<Version>, String)>)
    ensures
        r@.map_values(|e: (Option<Version>, String)| entry_view(e))
            == interpreter_entries(paths@.map_values(|s: String| s@), platform),
{
    let mut out: Vec<(Option<Version>, String)> = Vec::new();
    let mut i: usize = 0;
    let ghost ps = paths@.map_values(|s: String| s@);
    while i < paths.len()
        invariant
            i <= paths@.len(),
            ps == paths@.map_values(|s: String| s@),
            out@.map_values(|e: (Option<Version>, String)| entry_view(e))
                == interpreter_entries(ps.take(i as int), platform),
        decreases paths@.len() - i,
    {
        let ghost before = out@;
        let r = python_interpreter_in_path(paths[i].as_str(), platform);
        proof {
            assert(ps.take(i + 1).drop_last() =~= ps.take(i as int));
            assert(ps.take(i + 1).last() == paths@[i as int]@);
        }
        match r {
            Some(e) => {
                out.push(e);
                assert(out@.map_values(|e: (Option<Version>, String)| entry_view(e))
                    =~= before.map_values(|e: (Option<Version>, String)| entry_view(e)).push(entry_view(e)));
            },
            None => {},
        }
        i = i + 1;
    }
    assert(ps.take(paths@.len() as int) =~= ps);
    out
}

/// The interpreters whose version was read from their file names, among
/// the entries the paths give.
pub open spec fn readable_entries(es: Seq<(Option<Seq<usize>>, Seq<char>)>) -> Seq<(Seq<usize>, Seq<char>)>
    decreases es.len(),
{
    if es.len() == 0 {
        Seq::empty()
    } else {
        let init = readable_entries(es.drop_last());
        match es.last().0 {
            Some(v) => init.push((v, es.last().1)),
            None => init,
        }
    }
}

/// The interpreters among the paths whose versions can be read from their file names.
pub fn interpreters_from_paths(paths: &Vec<String>, platform: Platform) -> (r: Interpreters)
    ensures
        r.versions().len() == readable_entries(interpreter_entries(paths@.map_values(|s: String| s@), platform)).len(),
        forall|k: int| 0 <= k < r.versions().len() ==>
            (#[trigger] r.versions()[k], r.paths()[k])
                == readable_entries(interpreter_entries(paths@.map_values(|s: String| s@), platform))[k],
{
    let mut rest = python_interpreters_in_paths(paths, platform);
    let ghost total = rest@.map_values(|e: (Option<Version>, String)| entry_view(e));
    let mut found: Vec<Interpreter> = Vec::new();
    // walk the entries from the front, keeping those with a version
    while rest.len() > 0
        invariant
            rest@.len() <= total.len(),
            forall|j: int| 0 <= j < rest@.len() ==> #[trigger] entry_view(rest@[j]) == total[total.len() - rest@.len() + j],
            found@.len() == readable_entries(total.take(total.len() - rest@.len())).len(),
            forall|k: int| 0 <= k < found@.len() ==>
                (#[trigger] found@[k].spec_version(), found@[k].spec_path())
                    == readable_entries(total.take(total.len() - rest@.len()))[k],
        decreases rest@.len(),
    {
        let ghost done = total.len() - rest@.len();
        let ghost rest_before = rest@;
        let e = rest.remove(0);
        proof {
            assert(entry_view(e) == total[done]);
            assert(total.take(done + 1).drop_last() =~= total.take(done));
            assert(total.take(done + 1).last() == total[done]);
            assert forall|j: int| 0 <= j < rest@.len() implies #[trigger] entry_view(rest@[j]) == total[total.len() - rest@.len() + j] by {
                assert(rest@[j] == rest_before[j + 1]);
            }
        }
        let ghost found_before = found@;
        let (v, p) = e;
        match v {
            Some(version) => {
                found.push(Interpreter::new(p.as_str(), version));
            },
            None => {},
        }
    }
    assert(total.take(total.len() as int) =~= total);
    Interpreters::new(found)
}

} // verus!

verus! {

/// The key of a `pyvenv.cfg` line: the text before the first `=`, trimmed.
pub open spec fn cfg_line_key(line: Seq<char>) -> Seq<char> {
    trim(split_once(line, "="@).0)
}

/// The value of a `pyvenv.cfg` line: the text after the first `=`, trimmed
/// (empty when there is no `=`).
pub open spec fn cfg_line_value(line: Seq<char>) -> Seq<char> {
    match split_once(line, "="@).1 {
        Some(v) => trim(v),
        None => Seq::empty(),
    }
}

/// The version text of a `pyvenv.cfg`: the value of its last `version` line,
/// `0.0.0` when it has none.
pub open spec fn cfg_version_text(lines: Seq<Seq<char>>) -> Seq<char>
    decreases lines.len(),
{
    if lines.len() == 0 {
        "0.0.0"@
    } else if cfg_line_key(lines.last()) == "version"@ {
        cfg_line_value(lines.last())
    } else {
        cfg_version_text(lines.drop_last())
    }
}

/// Key and value of one `pyvenv.cfg` line.
fn cfg_line_parts(line: &str) -> (r: (Vec<char>, Vec<char>))
    ensures
        r.0@ == cfg_line_key(line@),
        r.1@ == cfg_line_value(line@),
{
    let chars = chars_of(line);
    let eq = chars_of("=");
    let (before, after) = split_once_exec(chars.as_slice(), eq.as_slice());
    let (a, b) = trim_bounds(before.as_slice(), 0, before.len());
    assert(before@.subrange(0, before@.len() as int) =~= before@);
    let key = slice_to_vec(before.as_slice(), a, b);
    let value = match after {
        Some(v) => {
            let (c, d) = trim_bounds(v.as_slice(), 0, v.len());
            assert(v@.subrange(0, v@.len() as int) =~= v@);
            slice_to_vec(v.as_slice(), c, d)
        },
        None => Vec::new(),
    };
    (key, value)
}

/// Python virtual environment configuration data (`pyvenv.cfg`).
pub struct VenvConfig {
    /// The version of the environment's Python interpreter.
    pub version: Version,
}

/// The text of the version a `pyvenv.cfg` configures: the value of its last
/// `version` line, `0.0.0` when it has none.
pub fn config_version_text(lines: &Vec<String>) -> (r: String)
    ensures
        r@ == cfg_version_text(lines@.map_values(|s: String| s@)),
{
    let ghost ls = lines@.map_values(|s: String| s@);
    let mut text: Vec<char> = chars_of("0.0.0");
    let mut i: usize = 0;
    let version_key = chars_of("version");
    while i < lines.len()
        invariant
            i <= lines@.len(),
            ls == lines@.map_values(|s: String| s@),
            version_key@ == "version"@,
            text@ == cfg_version_text(ls.take(i as int)),
        decreases lines@.len() - i,
    {
        let (key, value) = cfg_line_parts(lines[i].as_str());
        proof {
            assert(ls.take(i + 1).drop_last() =~= ls.take(i as int));
            assert(ls.take(i + 1).last() == lines@[i as int]@);
        }
        if crate::text::chars_eq(key.as_slice(), version_key.as_slice()) {
            text = value;
        }
        i = i + 1;
    }
    assert(ls.take(lines@.len() as int) =~= ls);
    string_from_chars(text.as_slice())
}

impl VenvConfig {
    /// Read the configuration from the lines of a `pyvenv.cfg`: the version is
    /// the value of the last `version` line (`0.0.0` when there is none), which
    /// must be a version (see `config_version_text`).
    pub fn new(lines: &Vec<String>) -> (r: Result<VenvConfig, Error>)
        requires
            version_read(cfg_version_text(lines@.map_values(|s: String| s@))) is Some,
        ensures
            r matches Ok(c) && version_read(cfg_version_text(lines@.map_values(|s: String| s@))) == Some(c.version@),
    {
        let s = config_version_text(lines);
        match Version::from_str(s.as_str()) {
            Ok(version) => Ok(VenvConfig { version }),
            Err(e) => Err(e),
        }
    }
}

/// Read the configuration from the lines of a `pyvenv.cfg` when its version
/// reads (see `VenvConfig::new`); nothing when it does not.
pub fn venv_config_from_lines(lines: &Vec<String>) -> (r: Option<VenvConfig>)
    ensures
        match version_read(cfg_version_text(lines@.map_values(|s: String| s@))) {
            Some(v) => r matches Some(c) && c.version@ == v,
            None => r is None,
        },
{
    let s = config_version_text(lines);
    match Version::from_str(s.as_str()) {
        Ok(_) => match VenvConfig::new(lines) {
            Ok(c) => Some(c),
            Err(_) => None,
        },
        Err(_) => None,
    }
}

/// The version a Python interpreter prints as `MAJOR MINOR MICRO`: spaces
/// become dots and line breaks are dropped.
pub open spec fn command_output_version_text(output: Seq<char>) -> Seq<char>
    decreases output.len(),
{
    if output.len() == 0 {
        Seq::empty()
    } else {
        let init = command_output_version_text(output.drop_last());
        let c = output.last();
        if c == ' ' {
            init.push('.')
        } else if c == '\r' || c == '\n' {
            init
        } else {
            init.push(c)
        }
    }
}

/// Read an interpreter's version from what it printed for
/// `import sys;v=sys.version_info;print(v.major,v.minor,v.micro)`.
pub fn version_from_command_output(output: &str) -> (r: Option<Version>)
    ensures
        r is Some <==> version_read(command_output_version_text(output@)) is Some,
        r matches Some(v) ==> version_read(command_output_version_text(output@)) == Some(v@),
{
    let chars = chars_of(output);
    let mut text: Vec<char> = Vec::new();
    let mut i: usize = 0;
    while i < chars.len()
        invariant
            chars@ == output@,
            i <= chars@.len(),
            text@ == command_output_version_text(chars@.take(i as int)),
        decreases chars@.len() - i,
    {
        proof {
            assert(chars@.take(i + 1).drop_last() =~= chars@.take(i as int));
        }
        let c = chars[i];
        if c == ' ' {
            text.push('.');
        } else if c == '\r' || c == '\n' {
        } else {
            text.push(c);
        }
        i = i + 1;
    }
    assert(chars@.take(chars@.len() as int) =~= chars@);
    let s = string_from_chars(text.as_slice());
    match Version::from_str(s.as_str()) {
        Ok(v) => Some(v),
        Err(_) => None,
    }
}

/// The file name of a virtual environment's configuration.
pub fn venv_config_file_name() -> (r: &'static str)
    ensures
        r@ == "pyvenv.cfg"@,
{
    "pyvenv.cfg"
}

/// The default name of a virtual environment.
pub fn default_venv_name() -> (r: &'static str)
    ensures
        r@ == ".venv"@,
{
    ".venv"
}

/// Options for installing Python packages: arguments passed on to the installer.
#[derive(Clone)]
pub struct InstallOptions {
    pub values: Option<Vec<String>>,
}

} // verus!

verus! {

/// The interpreters in the directories on the search path, given each
/// directory's listing (nothing for one that could not be read).
pub fn python_paths(listings: &Vec<Option<Vec<String>>>, platform: Platform) -> (r: Vec<(Option<Version>, String)>)
    ensures
        r@.map_values(|e: (Option<Version>, String)| entry_view(e))
            == interpreter_entries(crate::fs::flattened(crate::fs::listings_view(listings@)), platform),
{
    let paths = crate::fs::flatten_directories(listings);
    let r = python_interpreters_in_paths(&paths, platform);
    assert(paths@.map_values(|s: String| s@) == crate::text::strings_view(paths@));
    r
}

} // verus!
