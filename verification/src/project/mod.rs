//! Python projects: their root, their kind and their project file.
use vstd::prelude::*;
use crate::platform::Platform;
use crate::config::pyproject::toml::Toml;
use crate::dependency::underscored;
use crate::env::python_environment::parse_filename;
use crate::error::Error;
use crate::path::{join, spec_file_name, spec_join};
use crate::project::project_file::ProjectFile;
use crate::text::{chars_of, extend_chars, string_from_chars};

pub mod config;
pub mod project_file;
pub mod py_project;

verus! {

/// The two kinds of projects: libraries and applications (which have
/// runnable entry points).
#[derive(Clone, Copy, Debug, PartialEq, Eq, Structural)]
pub enum ProjectType {
    Library,
    Application,
}

impl Default for ProjectType {
    /// A project is a library unless asked otherwise.
    fn default() -> (t: ProjectType)
        ensures
            t == ProjectType::Library,
    {
        ProjectType::Library
    }
}

/// The name of a project at `root`: the root's file name with `_` for `-`.
pub fn project_name_from_root(root: &str, platform: Platform) -> (r: Result<String, Error>)
    ensures
        match spec_file_name(platform, root@) {
            Some(n) => r matches Ok(s) && s@ == underscored(n),
            None => r matches Err(Error::InternalError(m)) && m@ == crate::env::python_environment::no_name_message(),
        },
{
    let name = match parse_filename(root, platform) {
        Ok(n) => n,
        Err(e) => return Err(e),
    };
    let v = chars_of(name.as_str());
    let mut out: Vec<char> = Vec::new();
    let mut i: usize = 0;
    while i < v.len()
        invariant
            i <= v@.len(),
            out@ == underscored(v@.take(i as int)),
        decreases v@.len() - i,
    {
        proof {
            assert(underscored(v@.take(i + 1)) =~= underscored(v@.take(i as int)).push(if v@[i as int] == '-' { '_' } else { v@[i as int] }));
        }
        if v[i] == '-' {
            out.push('_');
        } else {
            out.push(v[i]);
        }
        i = i + 1;
    }
    assert(v@.take(v@.len() as int) =~= v@);
    Ok(string_from_chars(out.as_slice()))
}

/// The directories and files that set up a new project.
#[derive(Clone, Debug)]
pub struct BootstrapPlan {
    /// Directories to create, in order.
    pub directories: Vec<String>,
    /// Files to write, as pairs of a path and contents, in order.
    pub files: Vec<(String, String)>,
}

/// The contents of a library's `__init__.py`: its version.
pub open spec fn init_contents(version: Seq<char>) -> Seq<char> {
    "__version__ = \""@ + version + "\"\n"@
}

/// The contents of a library's version test.
pub open spec fn version_test_contents(name: Seq<char>) -> Seq<char> {
    "from "@ + name + " import __version__\n\n\ndef test_version():\n    __version__\n"@
}

/// The contents of an application's `main.py`.
pub open spec fn main_contents() -> Seq<char> {
    "def main():\n    print(\"Hello, World!\")\n\n\nif __name__ == \"__main__\":\n    main()\n"@
}

/// Three texts one after the other.
fn concat3(a: &str, b: &str, c: &str) -> (r: String)
    ensures
        r@ == a@ + b@ + c@,
{
    let mut out = chars_of(a);
    let vb = chars_of(b);
    extend_chars(&mut out, vb.as_slice());
    let vc = chars_of(c);
    extend_chars(&mut out, vc.as_slice());
    string_from_chars(out.as_slice())
}

/// A project: its root directory, its kind and its project file.
#[derive(Debug)]
pub struct Project {
    pub root: String,
    pub project_type: ProjectType,
    pub project_file: ProjectFile,
}

impl Project {
    /// A project at `path` of the given kind, with an empty project file.
    pub fn new(path: &str, project_type: ProjectType, platform: Platform) -> (p: Project)
        ensures
            p.root@ == path@,
            p.project_type == project_type,
            p.project_file.filepath is None,
            p.project_file.data is None,
    {
        let mut project_file = ProjectFile::default();
        let name = match project_name_from_root(path, platform) {
            Ok(n) => n,
            Err(_) => String::new(),
        };
        project_file.set_project_name(name.as_str());
        Project { root: path.to_owned(), project_type, project_file }
    }

    /// The project's root directory.
    pub fn root(&self) -> (r: &String)
        ensures
            r@ == self.root@,
    {
        &self.root
    }

    /// Whether the project file lists dependencies, or has optional dependency groups.
    pub fn has_dependencies(&self) -> (r: bool)
        ensures
            r == ((match self.project_file.dependencies() {
                Some(d) => d.len() > 0,
                None => false,
            }) || (match self.project_file.data {
                Some(t) => match t.project.optional_dependencies {
                    Some(g) => g@.len() > 0,
                    None => false,
                },
                None => false,
            })),
    {
        let deps = self.project_file.dependency_list();
        let has_groups = match &self.project_file.data {
            Some(t) => match &t.project.optional_dependencies {
                Some(g) => g.len() > 0,
                None => false,
            },
            None => false,
        };
        assert(crate::text::strings_view(deps@).len() == deps@.len());
        deps.len() > 0 || has_groups
    }

    /// What setting up the project creates, given whether its project file
    /// already exists: its package directory under `src` and, for a
    /// library, `tests`, an `__init__.py` holding the version and a version
    /// test; for an application, an empty `__init__.py` and a `main.py`.
    /// An existing project file, or one without a name or a version, is an error.
    pub fn bootstrap(&self, file_exists: bool, platform: Platform) -> (r: Result<BootstrapPlan, Error>)
        ensures
            file_exists && self.project_file.filepath is Some ==> r matches Err(Error::PyProjectTomlExistsError),
            !(file_exists && self.project_file.filepath is Some) ==> match self.project_file.data {
                None => r matches Err(Error::PyProjectFileNotFound),
                Some(t) => match t.project.version {
                    None => r matches Err(Error::PyProjectVersionNotFound),
                    Some(version) => r matches Ok(plan) && {
                        let name = t.project.name@;
                        let src = spec_join(platform, self.root@, "src"@);
                        let package = spec_join(platform, src, name);
                        match self.project_type {
                            ProjectType::Library => {
                                &&& crate::text::strings_view(plan.directories@) == seq![package, spec_join(platform, self.root@, "tests"@)]
                                &&& plan.files@.len() == 2
                                &&& plan.files@[0].0@ == spec_join(platform, package, "__init__.py"@)
                                &&& plan.files@[0].1@ == init_contents(version@)
                                &&& plan.files@[1].0@ == spec_join(platform, spec_join(platform, self.root@, "tests"@), "test_version.py"@)
                                &&& plan.files@[1].1@ == version_test_contents(name)
                            },
                            ProjectType::Application => {
                                &&& crate::text::strings_view(plan.directories@) == seq![package, package]
                                &&& plan.files@.len() == 2
                                &&& plan.files@[0].0@ == spec_join(platform, package, "__init__.py"@)
                                &&& plan.files@[0].1@ == Seq::<char>::empty()
                                &&& plan.files@[1].0@ == spec_join(platform, package, "main.py"@)
                                &&& plan.files@[1].1@ == main_contents()
                            },
                        }
                    },
                },
            },
    {
        if file_exists && self.project_file.filepath.is_some() {
            return Err(Error::PyProjectTomlExistsError);
        }
        let name = match self.project_file.project_name() {
            Some(it) => it,
            None => return Err(Error::PyProjectFileNotFound),
        };
        let version = match self.project_file.project_version() {
            Some(it) => it,
            None => return Err(Error::PyProjectVersionNotFound),
        };
        let src_path = join(platform, self.root.as_str(), "src");
        let package = join(platform, src_path.as_str(), name);
        let mut directories: Vec<String> = Vec::new();
        let mut files: Vec<(String, String)> = Vec::new();
        directories.push(package.clone());
        match self.project_type {
            ProjectType::Library => {
                let tests = join(platform, self.root.as_str(), "tests");
                directories.push(tests.clone());
                files.push((join(platform, package.as_str(), "__init__.py"), concat3("__version__ = \"", version, "\"\n")));
                files.push((join(platform, tests.as_str(), "test_version.py"), concat3("from ", name, " import __version__\n\n\ndef test_version():\n    __version__\n")));
                assert(crate::text::strings_view(directories@) =~= seq![package@, tests@]);
            },
            ProjectType::Application => {
                directories.push(package.clone());
                files.push((join(platform, package.as_str(), "__init__.py"), String::new()));
                files.push((join(platform, package.as_str(), "main.py"), "def main():\n    print(\"Hello, World!\")\n\n\nif __name__ == \"__main__\":\n    main()\n".to_owned()));
                assert(crate::text::strings_view(directories@) =~= seq![package@, package@]);
            },
        }
        Ok(BootstrapPlan { directories, files })
    }

    /// Give the project its project file: at `pyproject.toml` in the root
    /// unless it has a path; with the contents read from it when it exists
    /// (`existing`), else the defaults; named after the root, and, for an
    /// application without scripts, with a script of that name running
    /// `{name}.main:main`.  A root without a file name is an error.
    pub fn init_project_file(&mut self, existing: Option<Toml>, platform: Platform) -> (r: Result<(), Error>)
        ensures
            final(self).root == old(self).root,
            final(self).project_type == old(self).project_type,
            match old(self).project_file.filepath {
                Some(p) => final(self).project_file.filepath == Some(p),
                None => final(self).project_file.filepath matches Some(p) && p@ == spec_join(platform, old(self).root@, "pyproject.toml"@),
            },
            match spec_file_name(platform, old(self).root@) {
                None => r matches Err(Error::InternalError(m)) && m@ == crate::env::python_environment::no_name_message(),
                Some(n) => r is Ok && (final(self).project_file.data matches Some(t) && t.project.name@ == underscored(n)
                    && (old(self).project_type == ProjectType::Application && (match existing {
                        Some(e) => e.project.scripts is None,
                        None => true,
                    }) ==> (t.project.scripts matches Some(s) && s@.len() == 1
                        && s@[0].0@ == underscored(n) && s@[0].1@ == underscored(n) + ".main:main"@))),
            },
    {
        if self.project_file.filepath.is_none() {
            self.project_file.filepath = Some(join(platform, self.root.as_str(), "pyproject.toml"));
        }
        let mut toml = match existing {
            Some(t) => t,
            None => Toml::default(),
        };
        let name = match project_name_from_root(self.root.as_str(), platform) {
            Ok(n) => n,
            Err(e) => return Err(e),
        };
        let ghost n = spec_file_name(platform, self.root@).unwrap();
        assert(name@ == underscored(n));
        if self.project_type == ProjectType::Application && toml.project.scripts.is_none() {
            let entrypoint = crate::workspace::default_entrypoint_string(name.as_str());
            let mut scripts: Vec<(String, String)> = Vec::new();
            scripts.push((name.clone(), entrypoint));
            assert(scripts@[0].0@ == underscored(n) && scripts@[0].1@ == underscored(n) + ".main:main"@);
            toml.project.scripts = Some(scripts);
        }
        toml.project.name = name;
        self.project_file.data = Some(toml);
        Ok(())
    }
}

} // verus!
