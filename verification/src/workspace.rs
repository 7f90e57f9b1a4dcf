//! Workspace-level helpers: options, the interpreters on the system and the
//! files a new project starts with.
use vstd::prelude::*;
use crate::fs::{flatten_directories, flattened, listings_view};
use crate::path::spec_file_name;
use crate::platform::Platform;
use crate::python_environment::{entry_view, interpreter_version_text, version_from_python_interpreter_file_name};
use crate::text::{chars_of, ends_with, extend_chars, occurs_at_exec, starts_with, string_from_chars, strings_view, utf8_len, utf8_len_up_to};
use crate::version::{version_read, Version};

verus! {

/// Options of a workspace.
#[derive(Clone, Copy, Debug)]
pub struct WorkspaceOptions {
    /// Whether the workspace uses git.
    pub uses_git: bool,
}

/// Options for installing Python packages: arguments passed on to the installer.
#[derive(Clone, Debug)]
pub struct InstallOptions {
    pub values: Option<Vec<String>>,
}

/// Whether a file name names an interpreter the workspace looks for: on Unix
/// one starting with `python` at least as long (in bytes) as `python3.0`; on
/// Windows one starting with `python` and ending with `.exe`.
pub open spec fn is_interpreter_file_name(name: Seq<char>, platform: Platform) -> bool {
    match platform {
        Platform::Unix => utf8_len(name) >= 9 && starts_with(name, "python"@),
        Platform::Windows => starts_with(name, "python"@) && ends_with(name, ".exe"@),
    }
}

/// On Unix a file name names an interpreter exactly when it starts with
/// `python` and is at least as long in bytes as `python3.0`; in particular
/// `python` followed by any one-character major, a dot and any one-character
/// minor (such as `python3.9`) does, and anything shorter does not.
pub proof fn lemma_unix_interpreter_names(name: Seq<char>, major: char, minor: char)
    requires
        (major as u32) < 0x80,
        (minor as u32) < 0x80,
    ensures
        is_interpreter_file_name(name, Platform::Unix) <==> (starts_with(name, "python"@) && utf8_len(name) >= utf8_len("python3.0"@)),
        utf8_len("python3.0"@) == 9,
        is_interpreter_file_name("python"@ + seq![major, '.', minor], Platform::Unix),
        utf8_len(name) < 9 ==> !is_interpreter_file_name(name, Platform::Unix),
{
    reveal_strlit("python3.0");
    reveal_strlit("python");
    let full = "python3.0"@;
    assert forall|i: int| 0 <= i < full.len() implies (#[trigger] full[i] as u32) < 0x80 by {}
    crate::text::lemma_utf8_len_ascii(full);
    let n = "python"@ + seq![major, '.', minor];
    assert forall|i: int| 0 <= i < n.len() implies (#[trigger] n[i] as u32) < 0x80 by {
        if i >= 6 {
            assert(n[i] == seq![major, '.', minor][i - 6]);
        }
    }
    crate::text::lemma_utf8_len_ascii(n);
    assert(n.subrange(0, 6) =~= "python"@);
}

/// Whether a file name names an interpreter (see `is_interpreter_file_name`).
pub fn valid_python_interpreter_file_name(file_name: &str, platform: Platform) -> (r: bool)
    ensures
        r == is_interpreter_file_name(file_name@, platform),
        platform == Platform::Unix ==> (r <==> starts_with(file_name@, "python"@) && utf8_len(file_name@) >= 9),
{
    proof {
        lemma_unix_interpreter_names(file_name@, '3', '0');
    }
    let name = chars_of(file_name);
    let py = chars_of("python");
    let starts = occurs_at_exec(name.as_slice(), py.as_slice(), 0);
    assert(starts == starts_with(file_name@, "python"@));
    match platform {
        Platform::Unix => utf8_len_up_to(name.as_slice(), 8) > 8 && starts,
        Platform::Windows => {
            let exe = chars_of(".exe");
            let ends = exe.len() <= name.len() && occurs_at_exec(name.as_slice(), exe.as_slice(), name.len() - exe.len());
            assert(ends == ends_with(file_name@, ".exe"@));
            starts && ends
        },
    }
}

/// The entry a path gives: nothing unless its file name names an
/// interpreter; on Unix only when the version can be read from the name, on
/// Windows with the version when it can be read.
pub open spec fn interpreter_entry(p: Seq<char>, platform: Platform) -> Option<(Option<Seq<usize>>, Seq<char>)> {
    match spec_file_name(platform, p) {
        None => None,
        Some(name) => if is_interpreter_file_name(name, platform) {
            let text = interpreter_version_text(name, platform);
            match platform {
                Platform::Unix => if version_read(text) is Some {
                    Some((version_read(text), p))
                } else {
                    None
                },
                Platform::Windows => Some((version_read(text), p)),
            }
        } else {
            None
        },
    }
}

/// The entries the paths give, in order.
pub open spec fn interpreter_entries(ps: Seq<Seq<char>>, platform: Platform) -> Seq<(Option<Seq<usize>>, Seq<char>)>
    decreases ps.len(),
{
    if ps.len() == 0 {
        Seq::empty()
    } else {
        let init = interpreter_entries(ps.drop_last(), platform);
        match interpreter_entry(ps.last(), platform) {
            Some(e) => init.push(e),
            None => init,
        }
    }
}

/// The entry one path gives (see `interpreter_entry`).
fn python_interpreter_in_path(p: &str, platform: Platform) -> (r: Option<(Option<Version>, String)>)
    ensures
        match r {
            Some(e) => interpreter_entry(p@, platform) == Some(entry_view(e)),
            None => interpreter_entry(p@, platform) is None,
        },
{
    let name = match crate::path::file_name(platform, p) {
        Some(n) => n,
        None => return None,
    };
    if !valid_python_interpreter_file_name(name.as_str(), platform) {
        return None;
    }
    let version = version_from_python_interpreter_file_name(name.as_str(), platform);
    match platform {
        Platform::Unix => match version {
            Ok(v) => Some((Some(v), p.to_owned())),
            Err(_) => None,
        },
        Platform::Windows => match version {
            Ok(v) => Some((Some(v), p.to_owned())),
            Err(_) => Some((None, p.to_owned())),
        },
    }
}

/// The interpreters found among the paths (see `interpreter_entries`).
pub fn python_interpreters_in_paths(paths: &Vec<String>, platform: Platform) -> (r: Vec<(Option<Version>, String)>)
    ensures
        r@.map_values(|e: (Option<Version>, String)| entry_view(e)) == interpreter_entries(strings_view(paths@), platform),
{
    let mut out: Vec<(Option<Version>, String)> = Vec::new();
    let mut i: usize = 0;
    let ghost ps = strings_view(paths@);
    while i < paths.len()
        invariant
            i <= paths@.len(),
            ps == strings_view(paths@),
            out@.map_values(|e: (Option<Version>, String)| entry_view(e)) == interpreter_entries(ps.take(i as int), platform),
        decreases paths@.len() - i,
    {
        let ghost before = out@;
        let r = python_interpreter_in_path(paths[i].as_str(), platform);
        proof {
            assert(ps.take(i + 1).drop_last() =~= ps.take(i as int));
            assert(ps.take(i + 1).last() == paths@[i as int]@);
        }
        match r {
            Some(e) => {
                out.push(e);
                assert(out@.map_values(|e: (Option<Version>, String)| entry_view(e))
                    =~= before.map_values(|e: (Option<Version>, String)| entry_view(e)).push(entry_view(e)));
            },
            None => {},
        }
        i = i + 1;
    }
    assert(ps.take(paths@.len() as int) =~= ps);
    out
}

/// The interpreters in the directories on the search path, given each
/// directory's listing (nothing for one that could not be read).
pub fn python_paths(listings: &Vec<Option<Vec<String>>>, platform: Platform) -> (r: Vec<(Option<Version>, String)>)
    ensures
        r@.map_values(|e: (Option<Version>, String)| entry_view(e)) == interpreter_entries(flattened(listings_view(listings@)), platform),
{
    let paths = flatten_directories(listings);
    python_interpreters_in_paths(&paths, platform)
}

/// Two texts one after the other.
fn concat(a: &str, b: &str) -> (r: String)
    ensures
        r@ == a@ + b@,
{
    let mut out = chars_of(a);
    let v = chars_of(b);
    extend_chars(&mut out, v.as_slice());
    string_from_chars(out.as_slice())
}

/// Three texts one after the other.
fn concat3(a: &str, b: &str, c: &str) -> (r: String)
    ensures
        r@ == a@ + b@ + c@,
{
    let ab = concat(a, b);
    concat(ab.as_str(), c)
}

/// The `pyproject.toml` of a new project named `name`.
pub fn default_pyproject_toml_contents(name: &str) -> (r: String)
    ensures
        r@ == "[build-system]\nrequires = [\"hatchling\"]\nbuild-backend = \"hatchling.build\"\n\n[project]\nname = \""@
            + name@ + "\"\nversion = \"0.0.1\"\ndescription = \"\"\ndependencies = []\n"@,
{
    concat3(
        "[build-system]\nrequires = [\"hatchling\"]\nbuild-backend = \"hatchling.build\"\n\n[project]\nname = \"",
        name,
        "\"\nversion = \"0.0.1\"\ndescription = \"\"\ndependencies = []\n",
    )
}

/// The package file of a new project: its version.
pub fn default_init_file_contents() -> (r: &'static str)
    ensures
        r@ == "__version__ = \"0.0.1\"\n"@,
{
    "__version__ = \"0.0.1\"\n"
}

/// The main module of a new application: a `main` that greets the world.
pub fn default_main_file_contents() -> (r: &'static str)
    ensures
        r@ == "def main():\n    print(\"Hello, World!\")\n\n\nif __name__ == \"__main__\":\n    main()\n"@,
{
    "def main():\n    print(\"Hello, World!\")\n\n\nif __name__ == \"__main__\":\n    main()\n"
}

/// The entry point of an application package: `{name}.main:main`.
pub fn default_entrypoint_string(importable_name: &str) -> (r: String)
    ensures
        r@ == importable_name@ + ".main:main"@,
{
    concat(importable_name, ".main:main")
}

/// The test file of a new project, importing its version.
pub fn default_test_file_contents(importable_name: &str) -> (r: String)
    ensures
        r@ == "from "@ + importable_name@ + " import __version__\n\n\ndef test_version():\n    __version__\n"@,
{
    concat3("from ", importable_name, " import __version__\n\n\ndef test_version():\n    __version__\n")
}

} // verus!

verus! {

/// Where a virtual environment keeps things: its executables directory,
/// its interpreter and its site-packages directory.
pub open spec fn spec_environment_layout(root: Seq<char>, release: Seq<usize>, platform: Platform) -> (Seq<char>, Seq<char>, Seq<char>) {
    match platform {
        Platform::Unix => (
            crate::path::spec_join(platform, root, "bin"@),
            crate::path::spec_join(platform, crate::path::spec_join(platform, root, "bin"@), "python"@),
            crate::path::spec_join(platform, crate::path::spec_join(platform, crate::path::spec_join(platform, root, "lib"@),
                "python"@ + crate::number::decimal(release[0] as nat) + seq!['.'] + crate::number::decimal(release[1] as nat)), "site-packages"@),
        ),
        Platform::Windows => (
            crate::path::spec_join(platform, root, "Scripts"@),
            crate::path::spec_join(platform, crate::path::spec_join(platform, root, "Scripts"@), "python.exe"@),
            crate::path::spec_join(platform, crate::path::spec_join(platform, root, "Lib"@), "site-packages"@),
        ),
    }
}

/// Where the virtual environment at `root`, whose interpreter has the given
/// version, keeps things (see `spec_environment_layout`).
pub fn environment_layout(root: &str, version: &Version, platform: Platform) -> (r: (String, String, String))
    ensures
        (r.0@, r.1@, r.2@) == spec_environment_layout(root@, version@, platform),
{
    let n = version.release_len();
    match platform {
        Platform::Unix => {
            let bin = crate::path::join(platform, root, "bin");
            let python = crate::path::join(platform, bin.as_str(), "python");
            let lib = crate::path::join(platform, root, "lib");
            let mut name = chars_of("python");
            let major = crate::number::decimal_chars(version.release()[0]);
            extend_chars(&mut name, major.as_slice());
            name.push('.');
            let minor = crate::number::decimal_chars(version.release()[1]);
            extend_chars(&mut name, minor.as_slice());
            let dir = string_from_chars(name.as_slice());
            assert(dir@ =~= "python"@ + crate::number::decimal(version@[0] as nat) + seq!['.'] + crate::number::decimal(version@[1] as nat));
            let with_version = crate::path::join(platform, lib.as_str(), dir.as_str());
            let site = crate::path::join(platform, with_version.as_str(), "site-packages");
            (bin, python, site)
        },
        Platform::Windows => {
            let bin = crate::path::join(platform, root, "Scripts");
            let python = crate::path::join(platform, bin.as_str(), "python.exe");
            let lib = crate::path::join(platform, root, "Lib");
            let site = crate::path::join(platform, lib.as_str(), "site-packages");
            (bin, python, site)
        },
    }
}

/// A base list of texts, then `middle`, then a tail of texts, then the optional values.
fn arguments(base: &[&str], middle: &Vec<String>, tail: &[&str], values: &Option<Vec<String>>) -> (r: Vec<String>)
    ensures
        strings_view(r@) == base@.map_values(|w: &str| w@) + strings_view(middle@) + tail@.map_values(|w: &str| w@)
            + match values {
                Some(v) => strings_view(v@),
                None => Seq::empty(),
            },
{
    let mut r: Vec<String> = Vec::new();
    let mut i: usize = 0;
    while i < base.len()
        invariant
            i <= base@.len(),
            r@.len() == i,
            forall|j: int| 0 <= j < i ==> #[trigger] r@[j]@ == base@[j]@,
        decreases base@.len() - i,
    {
        r.push(base[i].to_owned());
        i = i + 1;
    }
    assert(strings_view(r@) =~= base@.map_values(|w: &str| w@));
    let ghost head = strings_view(r@);
    let mut m = crate::text::clone_strings(middle);
    r.append(&mut m);
    assert(strings_view(r@) =~= head + strings_view(middle@));
    let ghost head2 = strings_view(r@);
    let ghost n2 = r@.len();
    let mut k: usize = 0;
    while k < tail.len()
        invariant
            k <= tail@.len(),
            r@.len() == n2 + k,
            head2.len() == n2,
            forall|j: int| 0 <= j < n2 ==> #[trigger] r@[j]@ == head2[j],
            forall|j: int| 0 <= j < k ==> #[trigger] r@[n2 + j]@ == tail@[j]@,
        decreases tail@.len() - k,
    {
        r.push(tail[k].to_owned());
        k = k + 1;
    }
    let ghost tail_view = tail@.map_values(|w: &str| w@);
    assert forall|j: int| 0 <= j < r@.len() implies #[trigger] strings_view(r@)[j] == (head2 + tail_view)[j] by {
        if j >= n2 {
            assert(r@[n2 + (j - n2)]@ == tail@[j - n2]@);
        }
    }
    assert(strings_view(r@) =~= head2 + tail_view);
    let ghost head3 = strings_view(r@);
    match values {
        Some(v) => {
            let mut vv = crate::text::clone_strings(v);
            r.append(&mut vv);
            assert(strings_view(r@) =~= head3 + strings_view(v@));
        },
        None => {
            assert(strings_view(r@) =~= head3 + Seq::<Seq<char>>::empty());
        },
    }
    r
}

/// The arguments that install packages with pip: `-m pip install`, the
/// dependency strings, then the options' values.
pub fn pip_install_arguments(packages: &Vec<String>, options: &InstallOptions) -> (r: Vec<String>)
    ensures
        strings_view(r@) == seq!["-m"@, "pip"@, "install"@] + strings_view(packages@) + match options.values {
            Some(v) => strings_view(v@),
            None => Seq::empty(),
        },
{
    let base: [&str; 3] = ["-m", "pip", "install"];
    let tail: [&str; 0] = [];
    let r = arguments(&base, packages, &tail, &options.values);
    assert(base@.map_values(|w: &str| w@) =~= seq!["-m"@, "pip"@, "install"@]);
    assert(tail@.map_values(|w: &str| w@) =~= Seq::<Seq<char>>::empty());
    assert(strings_view(r@) =~= seq!["-m"@, "pip"@, "install"@] + strings_view(packages@) + match options.values {
        Some(v) => strings_view(v@),
        None => Seq::empty(),
    });
    r
}

/// The arguments that uninstall packages with pip: `-m pip uninstall`, the
/// dependency strings, `-y`, then the options' values.
pub fn pip_uninstall_arguments(packages: &Vec<String>, options: &InstallOptions) -> (r: Vec<String>)
    ensures
        strings_view(r@) == seq!["-m"@, "pip"@, "uninstall"@] + strings_view(packages@) + seq!["-y"@] + match options.values {
            Some(v) => strings_view(v@),
            None => Seq::empty(),
        },
{
    let base: [&str; 3] = ["-m", "pip", "uninstall"];
    let tail: [&str; 1] = ["-y"];
    let r = arguments(&base, packages, &tail, &options.values);
    assert(base@.map_values(|w: &str| w@) =~= seq!["-m"@, "pip"@, "uninstall"@]);
    assert(tail@.map_values(|w: &str| w@) =~= seq!["-y"@]);
    r
}

/// The arguments that upgrade packages with pip: `-m pip install --upgrade`,
/// the dependency strings, `-y`, then the options' values.
pub fn pip_update_arguments(packages: &Vec<String>, options: &InstallOptions) -> (r: Vec<String>)
    ensures
        strings_view(r@) == seq!["-m"@, "pip"@, "install"@, "--upgrade"@] + strings_view(packages@) + seq!["-y"@] + match options.values {
            Some(v) => strings_view(v@),
            None => Seq::empty(),
        },
{
    let base: [&str; 4] = ["-m", "pip", "install", "--upgrade"];
    let tail: [&str; 1] = ["-y"];
    let r = arguments(&base, packages, &tail, &options.values);
    assert(base@.map_values(|w: &str| w@) =~= seq!["-m"@, "pip"@, "install"@, "--upgrade"@]);
    assert(tail@.map_values(|w: &str| w@) =~= seq!["-y"@]);
    r
}

/// The non-empty lines of what `pip freeze` printed.
pub fn freeze_lines(output: &str) -> (r: Vec<String>)
    ensures
        strings_view(r@) == crate::text::split_char(output@, '\n').filter(|l: Seq<char>| l.len() > 0),
{
    let chars = chars_of(output);
    let parts = crate::text::split_chars(chars.as_slice(), '\n');
    let ghost ps = crate::text::split_char(output@, '\n');
    let mut r: Vec<String> = Vec::new();
    let mut i: usize = 0;
    while i < parts.len()
        invariant
            ps == crate::text::split_char(output@, '\n'),
            parts@.len() == ps.len(),
            forall|j: int| 0 <= j < parts@.len() ==> #[trigger] parts@[j]@ == ps[j],
            i <= parts@.len(),
            strings_view(r@) == ps.take(i as int).filter(|l: Seq<char>| l.len() > 0),
        decreases parts@.len() - i,
    {
        proof {
            assert(ps.take(i + 1).drop_last() =~= ps.take(i as int));
            reveal(Seq::filter);
        }
        let ghost before = strings_view(r@);
        if parts[i].len() > 0 {
            r.push(string_from_chars(parts[i].as_slice()));
            assert(strings_view(r@) =~= before.push(ps[i as int]));
        }
        i = i + 1;
    }
    assert(ps.take(parts@.len() as int) =~= ps);
    r
}

/// Whether the environment at `root` is the active one: the active virtual
/// environment (`VIRTUAL_ENV`), else the active conda environment (`CONDA_PREFIX`).
pub fn is_active(root: &str, virtual_env: Option<&str>, conda_env: Option<&str>) -> (r: bool)
    ensures
        r == match (match virtual_env {
            Some(v) => Some(v@),
            None => match conda_env {
                Some(c) => Some(c@),
                None => None,
            },
        }) {
            Some(a) => a == root@,
            None => false,
        },
{
    let active = match virtual_env {
        Some(v) => Some(v),
        None => conda_env,
    };
    match active {
        Some(a) => crate::text::str_eq(a, root),
        None => false,
    }
}

} // verus!
