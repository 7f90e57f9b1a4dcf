//! Virtual environments described by their `pyvenv.cfg`.
use vstd::prelude::*;
use crate::error::Error;
use crate::path::{file_name, join, parent, set_extension, spec_file_name, spec_join, spec_parent, spec_set_extension};
use crate::platform::Platform;
use crate::text::{chars_of, extend_chars, split_once, split_once_exec, str_eq, string_from_chars};

verus! {

/// The environment variable that names the active virtual environment.
pub fn venv_env_var() -> (r: &'static str)
    ensures
        r@ == "VIRTUAL_ENV"@,
{
    "VIRTUAL_ENV"
}

/// The environment variable that names the active conda environment.
pub fn conda_env_var() -> (r: &'static str)
    ensures
        r@ == "CONDA_PREFIX"@,
{
    "CONDA_PREFIX"
}

/// The environment variable that names conda's default environment.
pub fn conda_default_env_var() -> (r: &'static str)
    ensures
        r@ == "CONDA_DEFAULT_ENV"@,
{
    "CONDA_DEFAULT_ENV"
}

/// Whether the conda default environment is `base`: the name of the
/// variable is compared with `base`, which never matches.
pub fn conda_env_is_base() -> (r: bool)
    ensures
        r == ("CONDA_DEFAULT_ENV"@ == "base"@),
        !r,
{
    proof {
        reveal_strlit("CONDA_DEFAULT_ENV");
        reveal_strlit("base");
        assert("CONDA_DEFAULT_ENV"@.len() != "base"@.len());
    }
    str_eq(conda_default_env_var(), "base")
}

/// The name of an environment's executables directory.
pub open spec fn spec_bin_name(platform: Platform) -> Seq<char> {
    match platform {
        Platform::Windows => "Scripts"@,
        Platform::Unix => "bin"@,
    }
}

/// The name of an environment's executables directory: `Scripts` on Windows, `bin` elsewhere.
pub fn bin_name(platform: Platform) -> (r: &'static str)
    ensures
        r@ == spec_bin_name(platform),
{
    match platform {
        Platform::Windows => "Scripts",
        Platform::Unix => "bin",
    }
}

/// The suffix of the activation script for a shell.
pub open spec fn activation_suffix(shell: Seq<char>) -> Seq<char> {
    if shell == "fish"@ {
        ".fish"@
    } else if shell == "csh"@ || shell == "tcsh"@ {
        ".csh"@
    } else if shell == "powershell"@ || shell == "pwsh"@ {
        ".ps1"@
    } else if shell == "cmd"@ {
        ".bat"@
    } else if shell == "nu"@ {
        ".nu"@
    } else {
        ""@
    }
}

/// The suffix of the activation script for a shell (see `activation_suffix`).
pub fn activation_script_suffix(shell: &str) -> (r: &'static str)
    ensures
        r@ == activation_suffix(shell@),
        shell@ == "fish"@ ==> r@ == ".fish"@,
        shell@ == "csh"@ || shell@ == "tcsh"@ ==> r@ == ".csh"@,
        shell@ == "powershell"@ || shell@ == "pwsh"@ ==> r@ == ".ps1"@,
        shell@ == "cmd"@ ==> r@ == ".bat"@,
        shell@ == "nu"@ ==> r@ == ".nu"@,
{
    proof { lemma_activation_suffix_table(shell@); }
    if str_eq(shell, "fish") {
        ".fish"
    } else if str_eq(shell, "csh") || str_eq(shell, "tcsh") {
        ".csh"
    } else if str_eq(shell, "powershell") || str_eq(shell, "pwsh") {
        ".ps1"
    } else if str_eq(shell, "cmd") {
        ".bat"
    } else if str_eq(shell, "nu") {
        ".nu"
    } else {
        ""
    }
}

/// The activation script suffix of each shell: `.fish` for fish, `.csh` for
/// csh and tcsh, `.ps1` for powershell and pwsh, `.bat` for cmd, `.nu` for
/// nu, and none for any other shell (the plain POSIX script).
pub proof fn lemma_activation_suffix_table(shell: Seq<char>)
    ensures
        activation_suffix("fish"@) == ".fish"@,
        activation_suffix("csh"@) == ".csh"@,
        activation_suffix("tcsh"@) == ".csh"@,
        activation_suffix("powershell"@) == ".ps1"@,
        activation_suffix("pwsh"@) == ".ps1"@,
        activation_suffix("cmd"@) == ".bat"@,
        activation_suffix("nu"@) == ".nu"@,
        shell != "fish"@ && shell != "csh"@ && shell != "tcsh"@ && shell != "powershell"@ && shell != "pwsh"@
            && shell != "cmd"@ && shell != "nu"@ ==> activation_suffix(shell) == Seq::<char>::empty(),
{
    reveal_strlit("fish");
    reveal_strlit("csh");
    reveal_strlit("tcsh");
    reveal_strlit("powershell");
    reveal_strlit("pwsh");
    reveal_strlit("cmd");
    reveal_strlit("nu");
    reveal_strlit("");
    assert("fish"@.len() == 4);
    assert("csh"@.len() == 3);
    assert("tcsh"@.len() == 4);
    assert("powershell"@.len() == 10);
    assert("pwsh"@.len() == 4);
    assert("cmd"@.len() == 3);
    assert("nu"@.len() == 2);
    assert("fish"@ != "csh"@);
    assert("fish"@[0] != "tcsh"@[0]);
    assert("fish"@ != "powershell"@);
    assert("fish"@[0] != "pwsh"@[0]);
    assert("fish"@ != "cmd"@);
    assert("fish"@ != "nu"@);
    assert("csh"@ != "tcsh"@);
    assert("csh"@ != "powershell"@);
    assert("csh"@ != "pwsh"@);
    assert("csh"@[1] != "cmd"@[1]);
    assert("csh"@ != "nu"@);
    assert("tcsh"@ != "powershell"@);
    assert("tcsh"@[0] != "pwsh"@[0]);
    assert("tcsh"@ != "cmd"@);
    assert("tcsh"@ != "nu"@);
    assert("powershell"@ != "pwsh"@);
    assert("powershell"@ != "cmd"@);
    assert("powershell"@ != "nu"@);
    assert("pwsh"@ != "cmd"@);
    assert("pwsh"@ != "nu"@);
    assert("cmd"@ != "nu"@);
    assert(""@ =~= Seq::<char>::empty());
}

/// The file name of the activation script for a shell: `activate` and the shell's suffix.
pub fn activation_script_name(shell: &str) -> (r: String)
    ensures
        r@ == "activate"@ + activation_suffix(shell@),
{
    let mut out = chars_of("activate");
    let suffix = chars_of(activation_script_suffix(shell));
    extend_chars(&mut out, suffix.as_slice());
    string_from_chars(out.as_slice())
}

/// The path of a module in an executables directory: joined on, and given
/// the `.exe` extension on Windows.
pub open spec fn spec_module_path(bin_path: Seq<char>, module: Seq<char>, platform: Platform) -> Option<Seq<char>> {
    match platform {
        Platform::Unix => Some(spec_join(platform, bin_path, module)),
        Platform::Windows => spec_set_extension(platform, spec_join(platform, bin_path, module), "exe"@),
    }
}

/// The message of a module path that cannot be formed.
pub open spec fn module_path_message(module: Seq<char>) -> Seq<char> {
    "failed to create path for "@ + module
}

/// The path of a module in an executables directory (see `spec_module_path`).
pub fn module_path_in(bin_path: &str, module: &str, platform: Platform) -> (r: Result<String, Error>)
    ensures
        match spec_module_path(bin_path@, module@, platform) {
            Some(p) => r matches Ok(s) && s@ == p,
            None => r matches Err(Error::InternalError(m)) && m@ == module_path_message(module@),
        },
{
    let path = join(platform, bin_path, module);
    match platform {
        Platform::Unix => Ok(path),
        Platform::Windows => match set_extension(platform, path.as_str(), "exe") {
            Some(p) => Ok(p),
            None => {
                let mut msg = chars_of("failed to create path for ");
                let m = chars_of(module);
                extend_chars(&mut msg, m.as_slice());
                Err(Error::InternalError(string_from_chars(msg.as_slice())))
            },
        },
    }
}

/// The message of a path without a file name.
pub open spec fn no_name_message() -> Seq<char> {
    "failed to read name from path"@
}

/// The file name of a path, or an error when it has none.
pub fn parse_filename(path: &str, platform: Platform) -> (r: Result<String, Error>)
    ensures
        match spec_file_name(platform, path@) {
            Some(n) => r matches Ok(s) && s@ == n,
            None => r matches Err(Error::InternalError(m)) && m@ == no_name_message(),
        },
{
    match file_name(platform, path) {
        Some(n) => Ok(n),
        None => Err(Error::InternalError("failed to read name from path".to_owned())),
    }
}

/// The command that activates an environment from its activation script:
/// the script itself on Windows, `source` and the script elsewhere.
pub fn activation_command(script: &str, platform: Platform) -> (r: String)
    ensures
        r@ == match platform {
            Platform::Windows => script@,
            Platform::Unix => "source "@ + script@,
        },
{
    match platform {
        Platform::Windows => script.to_owned(),
        Platform::Unix => {
            let mut out = chars_of("source ");
            let s = chars_of(script);
            extend_chars(&mut out, s.as_slice());
            string_from_chars(out.as_slice())
        },
    }
}

/// The interpreter of an environment: its path and the text of its version.
#[derive(Clone, Debug)]
struct Interpreter {
    path: String,
    version: String,
}

/// What is known of a Python environment: where it is, the interpreter it
/// runs, the interpreter it was made from, and its directories.
#[derive(Debug)]
pub struct EnvironmentData {
    pub path: String,
    interpreter: Interpreter,
    base_interpreter: Interpreter,
    pub site_packages_path: String,
    pub bin_path: String,
}

impl EnvironmentData {
    /// The environment's directory.
    pub closed spec fn spec_path(&self) -> Seq<char> {
        self.path@
    }

    /// The environment's site-packages directory.
    pub closed spec fn spec_site_packages_path(&self) -> Seq<char> {
        self.site_packages_path@
    }

    /// The environment's executables directory.
    pub closed spec fn spec_bin_path(&self) -> Seq<char> {
        self.bin_path@
    }

    /// The path of the environment's interpreter.
    pub closed spec fn spec_interpreter_path(&self) -> Seq<char> {
        self.interpreter.path@
    }

    /// The version text of the environment's interpreter.
    pub closed spec fn spec_interpreter_version(&self) -> Seq<char> {
        self.interpreter.version@
    }

    /// The path of the interpreter the environment was made from.
    pub closed spec fn spec_base_interpreter_path(&self) -> Seq<char> {
        self.base_interpreter.path@
    }

    /// The version text of the interpreter the environment was made from.
    pub closed spec fn spec_base_interpreter_version(&self) -> Seq<char> {
        self.base_interpreter.version@
    }

    /// Data with every path and version empty.
    pub fn new() -> (d: EnvironmentData)
        ensures
            d.spec_path() == Seq::<char>::empty(),
            d.spec_site_packages_path() == Seq::<char>::empty(),
            d.spec_bin_path() == Seq::<char>::empty(),
            d.spec_interpreter_path() == Seq::<char>::empty(),
            d.spec_interpreter_version() == Seq::<char>::empty(),
            d.spec_base_interpreter_path() == Seq::<char>::empty(),
            d.spec_base_interpreter_version() == Seq::<char>::empty(),
    {
        EnvironmentData {
            path: String::new(),
            interpreter: Interpreter { path: String::new(), version: String::new() },
            base_interpreter: Interpreter { path: String::new(), version: String::new() },
            site_packages_path: String::new(),
            bin_path: String::new(),
        }
    }

    /// The path of the environment's interpreter.
    pub fn interpreter_path(&self) -> (r: &String)
        ensures
            r@ == self.spec_interpreter_path(),
    {
        &self.interpreter.path
    }

    /// The version text of the environment's interpreter.
    pub fn interpreter_version(&self) -> (r: &String)
        ensures
            r@ == self.spec_interpreter_version(),
    {
        &self.interpreter.version
    }

    /// The path of the interpreter the environment was made from.
    pub fn base_interpreter_path(&self) -> (r: &String)
        ensures
            r@ == self.spec_base_interpreter_path(),
    {
        &self.base_interpreter.path
    }

    /// The version text of the interpreter the environment was made from.
    pub fn base_interpreter_version(&self) -> (r: &String)
        ensures
            r@ == self.spec_base_interpreter_version(),
    {
        &self.base_interpreter.version
    }
}

/// The key and value of a `pyvenv.cfg` line split at its first ` = ` (an
/// empty value when there is none).
pub open spec fn cfg_entry(line: Seq<char>) -> (Seq<char>, Seq<char>) {
    match split_once(line, " = "@) {
        (k, Some(v)) => (k, v),
        (k, None) => (k, Seq::empty()),
    }
}

/// The value of the last line of `lines` with key `key`.
pub open spec fn last_value(lines: Seq<Seq<char>>, key: Seq<char>) -> Option<Seq<char>>
    decreases lines.len(),
{
    if lines.len() == 0 {
        None
    } else if cfg_entry(lines.last()).0 == key {
        Some(cfg_entry(lines.last()).1)
    } else {
        last_value(lines.drop_last(), key)
    }
}

/// The configuration of a virtual environment (its `pyvenv.cfg`).
#[derive(Clone, Debug)]
pub struct VirtualConfig {
    pub home: String,
    pub include_system_site_packages: bool,
    pub version: String,
    pub executable: Option<String>,
    pub command: Option<String>,
}

/// The view of an optional string.
pub open spec fn opt_view(o: Option<String>) -> Option<Seq<char>> {
    match o {
        Some(s) => Some(s@),
        None => None,
    }
}

/// The keys of a `pyvenv.cfg` are different texts.
proof fn lemma_cfg_keys_distinct()
    ensures
        "version"@ != "command"@,
        "home"@.len() == 4 && "version"@.len() == 7 && "executable"@.len() == 10,
        "include-system-site-packages"@.len() == 28,
        "command"@.len() == 7,
{
    reveal_strlit("home");
    reveal_strlit("include-system-site-packages");
    reveal_strlit("version");
    reveal_strlit("executable");
    reveal_strlit("command");
    assert("version"@[0] != "command"@[0]);
}

impl VirtualConfig {
    /// Read the configuration from the lines of a `pyvenv.cfg`: each line is
    /// split at its first ` = `; for each known key the last line wins;
    /// `include-system-site-packages` holds when its value is `true`.
    pub fn from_lines(lines: &Vec<String>) -> (c: VirtualConfig)
        ensures
            c.home@ == match last_value(crate::text::strings_view(lines@), "home"@) {
                Some(v) => v,
                None => Seq::<char>::empty(),
            },
            c.include_system_site_packages == (last_value(crate::text::strings_view(lines@), "include-system-site-packages"@) == Some("true"@)),
            c.version@ == match last_value(crate::text::strings_view(lines@), "version"@) {
                Some(v) => v,
                None => Seq::<char>::empty(),
            },
            opt_view(c.executable) == last_value(crate::text::strings_view(lines@), "executable"@),
            opt_view(c.command) == last_value(crate::text::strings_view(lines@), "command"@),
    {
        let ghost ls = crate::text::strings_view(lines@);
        let mut home = String::new();
        let mut system_site = false;
        let mut version = String::new();
        let mut executable: Option<String> = None;
        let mut command: Option<String> = None;
        let sep = chars_of(" = ");
        let mut i: usize = 0;
        proof { lemma_cfg_keys_distinct(); }
        while i < lines.len()
            invariant
                "version"@ != "command"@,
                "home"@.len() == 4 && "version"@.len() == 7 && "executable"@.len() == 10,
                "include-system-site-packages"@.len() == 28,
                "command"@.len() == 7,
                ls == crate::text::strings_view(lines@),
                sep@ == " = "@,
                i <= lines@.len(),
                home@ == match last_value(ls.take(i as int), "home"@) {
                    Some(v) => v,
                    None => Seq::<char>::empty(),
                },
                system_site == (last_value(ls.take(i as int), "include-system-site-packages"@) == Some("true"@)),
                version@ == match last_value(ls.take(i as int), "version"@) {
                    Some(v) => v,
                    None => Seq::<char>::empty(),
                },
                opt_view(executable) == last_value(ls.take(i as int), "executable"@),
                opt_view(command) == last_value(ls.take(i as int), "command"@),
            decreases lines@.len() - i,
        {
            proof {
                assert(ls.take(i + 1).drop_last() =~= ls.take(i as int));
                assert(ls.take(i + 1).last() == lines@[i as int]@);
            }
            let line = chars_of(lines[i].as_str());
            let (name_v, value_v) = split_once_exec(line.as_slice(), sep.as_slice());
            let value_chars = match value_v {
                Some(v) => v,
                None => Vec::new(),
            };
            let name = string_from_chars(name_v.as_slice());
            let value = string_from_chars(value_chars.as_slice());
            assert((name@, value@) == cfg_entry(lines@[i as int]@));
            if str_eq(name.as_str(), "home") {
                home = value;
            } else if str_eq(name.as_str(), "include-system-site-packages") {
                system_site = str_eq(value.as_str(), "true");
            } else if str_eq(name.as_str(), "version") {
                version = value;
            } else if str_eq(name.as_str(), "executable") {
                executable = Some(value);
            } else if str_eq(name.as_str(), "command") {
                command = Some(value);
            }
            i = i + 1;
        }
        assert(ls.take(lines@.len() as int) =~= ls);
        VirtualConfig { home, include_system_site_packages: system_site, version, executable, command }
    }
}

/// A Python virtual environment.
#[derive(Debug)]
pub struct Venv {
    data: EnvironmentData,
}

impl Venv {
    /// The environment's directory.
    pub open spec fn spec_path(&self) -> Seq<char> {
        self.spec_data().spec_path()
    }

    /// What is known of the environment.
    pub closed spec fn spec_data(&self) -> EnvironmentData {
        self.data
    }

    /// An environment at `path`, with nothing else known of it.
    pub fn new(path: &str) -> (v: Venv)
        ensures
            v.spec_path() == path@,
            v.spec_data().spec_interpreter_path() == Seq::<char>::empty(),
            v.spec_data().spec_base_interpreter_path() == Seq::<char>::empty(),
            v.spec_data().spec_site_packages_path() == Seq::<char>::empty(),
    {
        let mut data = EnvironmentData::new();
        data.path = path.to_owned();
        Venv { data }
    }

    /// The default environment in a directory: its `.venv`.
    pub fn in_directory(dir: &str, platform: Platform) -> (v: Venv)
        ensures
            v.spec_path() == spec_join(platform, dir@, ".venv"@),
    {
        let path = join(platform, dir, ".venv");
        Venv::new(path.as_str())
    }

    /// What is known of the environment.
    fn data(&self) -> (d: &EnvironmentData)
        ensures
            *d == self.spec_data(),
    {
        &self.data
    }

    /// The environment's directory.
    pub fn path(&self) -> (r: &String)
        ensures
            r@ == self.spec_path(),
    {
        &self.data.path
    }

    /// The environment's name: the file name of its directory.
    pub fn name(&self, platform: Platform) -> (r: Result<String, Error>)
        ensures
            match spec_file_name(platform, self.spec_path()) {
                Some(n) => r matches Ok(s) && s@ == n,
                None => r matches Err(Error::InternalError(m)) && m@ == no_name_message(),
            },
    {
        parse_filename(self.data.path.as_str(), platform)
    }

    /// The environment's executables directory.
    pub fn bin_path(&self, platform: Platform) -> (r: String)
        ensures
            r@ == spec_join(platform, self.spec_path(), spec_bin_name(platform)),
    {
        join(platform, self.data.path.as_str(), bin_name(platform))
    }

    /// The name of the environment's executables directory.
    pub fn bin_name(&self, platform: Platform) -> (r: &'static str)
        ensures
            r@ == spec_bin_name(platform),
    {
        bin_name(platform)
    }

    /// The path of a module installed in the environment (see `spec_module_path`).
    pub fn module_file_path(&self, module: &str, platform: Platform) -> (r: Result<String, Error>)
        ensures
            match spec_module_path(spec_join(platform, self.spec_path(), spec_bin_name(platform)), module@, platform) {
                Some(p) => r matches Ok(s) && s@ == p,
                None => r matches Err(Error::InternalError(m)) && m@ == module_path_message(module@),
            },
    {
        let bin = self.bin_path(platform);
        module_path_in(bin.as_str(), module, platform)
    }

    /// The path of the environment's interpreter.
    pub fn interpreter_path(&self) -> (r: &String)
        ensures
            r@ == self.spec_data().spec_interpreter_path(),
    {
        self.data().interpreter_path()
    }

    /// The path of the interpreter the environment was made from.
    pub fn base_interpreter_path(&self) -> (r: &String)
        ensures
            r@ == self.spec_data().spec_base_interpreter_path(),
    {
        self.data().base_interpreter_path()
    }

    /// The environment's site-packages directory.
    pub fn site_packages_path(&self) -> (r: &String)
        ensures
            r@ == self.spec_data().spec_site_packages_path(),
    {
        &self.data().site_packages_path
    }

    /// The activation script for a shell: in the executables directory,
    /// `activate` with the shell's suffix.
    pub fn get_activation_script_path(&self, shell: &str, platform: Platform) -> (r: Result<String, Error>)
        ensures
            r matches Ok(s) && s@ == spec_join(platform, spec_join(platform, self.spec_path(), spec_bin_name(platform)), "activate"@ + activation_suffix(shell@)),
    {
        let bin = self.bin_path(platform);
        let script = activation_script_name(shell);
        Ok(join(platform, bin.as_str(), script.as_str()))
    }

    /// An environment described by the `pyvenv.cfg` at `config_path`, read
    /// as `lines`: its directory is the file's parent; its interpreter is
    /// `python` in its executables directory; the interpreter it was made
    /// from is the configured executable, else `fallback`; its executables
    /// directory is in its directory, and its site-packages directory is
    /// `lib/pythonMAJOR.MINOR/site-packages` there (`lib/python/site-packages`
    /// on Windows).  A file without a parent is an error.
    pub fn from_config(config_path: &str, lines: &Vec<String>, platform: Platform, fallback: &str) -> (r: Result<Venv, Error>)
        ensures
            spec_parent(platform, config_path@) is None ==> r matches Err(Error::PythonNotFoundError),
            spec_parent(platform, config_path@) matches Some(root) ==> r matches Ok(v) && {
                let ls = crate::text::strings_view(lines@);
                let version = match last_value(ls, "version"@) {
                    Some(t) => t,
                    None => Seq::<char>::empty(),
                };
                &&& v.spec_path() == root
                &&& v.spec_data().spec_interpreter_path() == spec_join(platform, spec_join(platform, root, spec_bin_name(platform)), "python"@)
                &&& v.spec_data().spec_interpreter_version() == version
                &&& v.spec_data().spec_base_interpreter_path() == match last_value(ls, "executable"@) {
                    Some(e) => e,
                    None => fallback@,
                }
                &&& v.spec_data().spec_base_interpreter_version() == version
                &&& v.spec_data().spec_site_packages_path() == spec_site_packages(root, major_minor(version), platform)
                &&& v.spec_data().spec_bin_path() == spec_join(platform, root, spec_bin_name(platform))
            },
    {
        let root = match parent(platform, config_path) {
            Some(p) => p,
            None => return Err(Error::PythonNotFoundError),
        };
        let config = VirtualConfig::from_lines(lines);
        let bin = join(platform, root.as_str(), bin_name(platform));
        let interpreter = Interpreter { path: join(platform, bin.as_str(), "python"), version: config.version.clone() };
        let base_path = match config.executable {
            Some(e) => e,
            None => fallback.to_owned(),
        };
        let short = major_minor_of(config.version.as_str());
        let site_packages_path = site_packages(root.as_str(), short.as_str(), platform);
        let base_interpreter = Interpreter { path: base_path, version: config.version };
        let bin_path = bin;
        Ok(Venv { data: EnvironmentData { path: root, interpreter, base_interpreter, site_packages_path, bin_path } })
    }
}

/// The text up to the second `.`: the version's first `count + 1` numbers.
pub open spec fn take_until_dot(v: Seq<char>, count: nat) -> Seq<char>
    decreases v.len(),
{
    if v.len() == 0 {
        Seq::empty()
    } else if v[0] == '.' {
        if count == 0 {
            Seq::empty()
        } else {
            seq!['.'] + take_until_dot(v.skip(1), (count - 1) as nat)
        }
    } else {
        seq![v[0]] + take_until_dot(v.skip(1), count)
    }
}

/// The `MAJOR.MINOR` part of a version text: the text before its second `.`.
pub open spec fn major_minor(v: Seq<char>) -> Seq<char> {
    take_until_dot(v, 1)
}

/// See `major_minor`.
fn major_minor_of(v: &str) -> (r: String)
    ensures
        r@ == major_minor(v@),
{
    let chars = chars_of(v);
    let mut out: Vec<char> = Vec::new();
    let mut left: usize = 1;
    let mut i: usize = 0;
    assert(chars@.skip(0) =~= chars@);
    assert(out@ + take_until_dot(chars@, 1) =~= take_until_dot(chars@, 1));
    while i < chars.len()
        invariant
            chars@ == v@,
            i <= chars@.len(),
            left <= 1,
            out@ + take_until_dot(chars@.skip(i as int), left as nat) == major_minor(v@),
        decreases chars@.len() - i,
    {
        let ghost t = chars@.skip(i as int);
        assert(t.skip(1) =~= chars@.skip(i + 1));
        assert(t[0] == chars@[i as int]);
        if chars[i] == '.' {
            if left == 0 {
                assert(out@ + Seq::<char>::empty() =~= out@);
                return string_from_chars(out.as_slice());
            }
            left = left - 1;
        }
        let ghost before = out@;
        out.push(chars[i]);
        assert(out@ =~= before + seq![chars@[i as int]]);
        i = i + 1;
        assert(before + (seq![chars@[(i - 1) as int]] + take_until_dot(chars@.skip(i as int), left as nat))
            =~= out@ + take_until_dot(chars@.skip(i as int), left as nat));
    }
    assert(take_until_dot(chars@.skip(i as int), left as nat) == Seq::<char>::empty());
    assert(out@ + Seq::<char>::empty() =~= out@);
    string_from_chars(out.as_slice())
}

/// The site-packages directory placed under `path`: `lib/python/site-packages`
/// on Windows, `lib/python{version}/site-packages` elsewhere.
pub open spec fn spec_site_packages(path: Seq<char>, version: Seq<char>, platform: Platform) -> Seq<char> {
    match platform {
        Platform::Windows => spec_join(platform, spec_join(platform, spec_join(platform, path, "lib"@), "python"@), "site-packages"@),
        Platform::Unix => spec_join(platform, spec_join(platform, spec_join(platform, path, "lib"@), "python"@ + version), "site-packages"@),
    }
}

/// See `spec_site_packages`.
fn site_packages(path: &str, version: &str, platform: Platform) -> (r: String)
    ensures
        r@ == spec_site_packages(path@, version@, platform),
{
    let lib = join(platform, path, "lib");
    let py = match platform {
        Platform::Windows => "python".to_owned(),
        Platform::Unix => {
            let mut out = chars_of("python");
            let v = chars_of(version);
            extend_chars(&mut out, v.as_slice());
            string_from_chars(out.as_slice())
        },
    };
    let with_py = join(platform, lib.as_str(), py.as_str());
    join(platform, with_py.as_str(), "site-packages")
}

impl Default for Venv {
    /// The environment `.venv`, relative to the current directory.
    fn default() -> (v: Venv)
        ensures
            v.spec_path() == ".venv"@,
    {
        Venv::new(".venv")
    }
}

/// A Python virtual environment as a whole.
pub trait Virtual {
    /// Activate the environment from within a terminal.
    fn activate(&self);

    /// The path of the script that activates the environment.
    fn activation_script_path(&self) -> &String;

    /// The environment's configuration.
    fn config_data(&self) -> &VirtualConfig;

    /// The path of the environment's configuration file, if it has one.
    fn config_filepath(&self) -> Option<&String>;

    /// Whether the global site-packages are hidden from the environment.
    fn is_isolated(&self) -> &bool;
}

} // verus!

verus! {

/// What creating a virtual environment runs: a Python executable with
/// arguments, from a directory.
#[derive(Clone, Debug)]
pub struct VenvCreation {
    pub python: String,
    pub args: Vec<String>,
    pub from: String,
}

/// The message of an environment path without a parent.
pub open spec fn no_parent_message() -> Seq<char> {
    "Invalid venv path, no parent directory."@
}

/// What creating the environment at `path` gives (see `venv_creation`).
pub open spec fn creation_outcome(path: Seq<char>, exists: bool, found: Result<String, Error>, r: Result<Option<VenvCreation>, Error>, platform: Platform) -> bool {
    if exists {
        r matches Ok(None)
    } else {
        match spec_parent(platform, path) {
            None => r matches Err(Error::HuakConfigurationError(m)) && m@ == no_parent_message(),
            Some(from) => match spec_file_name(platform, path) {
                None => r matches Err(Error::InternalError(m)) && m@ == no_name_message(),
                Some(name) => match found {
                    Ok(p) => r matches Ok(Some(c)) && c.python@ == p@ && c.from@ == from
                        && crate::text::strings_view(c.args@) == seq!["-m"@, "venv"@, name],
                    Err(Error::PythonNotFoundError) => r matches Ok(Some(c)) && c.python@ == "python"@ && c.from@ == from
                        && crate::text::strings_view(c.args@) == seq!["-m"@, "venv"@, name],
                    Err(e) => r == Err::<Option<VenvCreation>, Error>(e),
                },
            },
        }
    }
}

/// What creating the environment at `path` runs, given whether its
/// directory exists and which Python executable was found: nothing when it
/// exists; else the executable found (`python` when none was found) with
/// `-m venv {name}`, from the directory's parent.  A path without a parent
/// or a name, and any other failure to find Python, is an error.
pub fn venv_creation(path: &str, exists: bool, found: Result<String, Error>, platform: Platform) -> (r: Result<Option<VenvCreation>, Error>)
    ensures
        creation_outcome(path@, exists, found, r, platform),
{
    if exists {
        return Ok(None);
    }
    let from = match parent(platform, path) {
        Some(p) => p,
        None => return Err(Error::HuakConfigurationError("Invalid venv path, no parent directory.".to_owned())),
    };
    let name = match parse_filename(path, platform) {
        Ok(n) => n,
        Err(e) => return Err(e),
    };
    let python = match found {
        Ok(p) => p,
        Err(Error::PythonNotFoundError) => "python".to_owned(),
        Err(e) => return Err(e),
    };
    let mut args: Vec<String> = Vec::new();
    args.push("-m".to_owned());
    args.push("venv".to_owned());
    args.push(name);
    assert(crate::text::strings_view(args@) =~= seq!["-m"@, "venv"@, spec_file_name(platform, path@).unwrap()]);
    Ok(Some(VenvCreation { python, args, from }))
}

impl Venv {
    /// What creating the environment runs (see `venv_creation`).
    pub fn create(&self, exists: bool, found: Result<String, Error>, platform: Platform) -> (r: Result<Option<VenvCreation>, Error>)
        ensures
            creation_outcome(self.spec_path(), exists, found, r, platform),
    {
        venv_creation(self.data.path.as_str(), exists, found, platform)
    }
}

} // verus!

verus! {

/// How many directories a search for an environment goes through when
/// nothing else is asked.
pub const DEFAULT_SEARCH_STEPS: usize = 5;

/// What reading a text as a `usize` gives, an optional `+` sign first.
pub open spec fn spec_parse_unsigned(s: Seq<char>) -> Option<usize> {
    if s.len() > 0 && s[0] == '+' {
        crate::number::spec_parse_usize(s.skip(1))
    } else {
        crate::number::spec_parse_usize(s)
    }
}

/// How many directories a search for an environment goes through, given
/// the value of `HUAK_VENV_SEARCH_MAX_STEPS`: the number it holds, else
/// the default.
pub open spec fn spec_search_max_steps(value: Option<Seq<char>>) -> usize {
    match value {
        Some(s) => match spec_parse_unsigned(s) {
            Some(n) => n,
            None => DEFAULT_SEARCH_STEPS,
        },
        None => DEFAULT_SEARCH_STEPS,
    }
}

/// How many directories a search for an environment goes through (see
/// `spec_search_max_steps`).
pub fn search_max_steps(value: Option<&str>) -> (r: usize)
    ensures
        r == spec_search_max_steps(match value {
            Some(v) => Some(v@),
            None => None,
        }),
{
    match value {
        Some(v) => {
            let chars = chars_of(v);
            let parsed = if chars.len() > 0 && chars[0] == '+' {
                let rest = crate::text::slice_to_vec(chars.as_slice(), 1, chars.len());
                assert(rest@ =~= v@.skip(1));
                crate::number::parse_usize(rest.as_slice())
            } else {
                crate::number::parse_usize(chars.as_slice())
            };
            match parsed {
                Some(n) => n,
                None => DEFAULT_SEARCH_STEPS,
            }
        },
        None => DEFAULT_SEARCH_STEPS,
    }
}

} // verus!
