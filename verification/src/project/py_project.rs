//! Projects as they are bootstrapped.
use vstd::prelude::*;
use crate::platform::Platform;
use crate::config::pyproject::toml::Toml;
use crate::env::python_environment::{no_name_message, parse_filename};
use crate::error::Error;
use crate::path::{join, spec_file_name, spec_join};
use crate::text::{chars_of, extend_chars, string_from_chars};

verus! {

/// The two kinds of projects: libraries and applications (which have
/// runnable entry points).
#[derive(Clone, Copy, Debug, PartialEq, Eq, Structural)]
pub enum ProjectType {
    Library,
    Application,
}

impl Default for ProjectType {
    /// A project is an application unless asked otherwise.
    fn default() -> (t: ProjectType)
        ensures
            t == ProjectType::Application,
    {
        ProjectType::Application
    }
}

/// A project to bootstrap: its root directory and its kind.
#[derive(Clone, Debug)]
pub struct Project {
    pub root: String,
    pub project_type: ProjectType,
}

/// The directories and files (path and contents) a new project starts with.
#[derive(Clone, Debug)]
pub struct ProjectTemplate {
    pub dirs: Vec<String>,
    pub files: Vec<(String, String)>,
}

/// The package file of the sample library.
pub open spec fn library_init_contents() -> Seq<char> {
    "from .my_math import add_one, times_two\n"@
}

/// The module of the sample library.
pub open spec fn library_module_contents() -> Seq<char> {
    "# welcome to Huak's sample Python library.\ndef add_one(my_number):\n\treturn my_number + 1\n\n\ndef times_two(my_number):\n\treturn my_number * 2\n"@
}

/// The test of the sample library.
pub open spec fn library_test_contents() -> Seq<char> {
    "import unittest\nfrom src import add_one\n\n\nclass TestSum(unittest.TestCase):\n\tdef test_lib_function(self):\n\t\tself.assertEqual(add_one(1), 2)\n\n\nif __name__ == '__main__':\n\tunittest.main()\n"@
}

/// The script of the sample application.
pub open spec fn application_main_contents() -> Seq<char> {
    "# This is a sample Python script.\ndef print_hi(name):\n\tprint(f'Hello, {name}')\n\n\nif __name__ == '__main__':\n\tprint_hi('World')\n"@
}

/// The `pyproject.toml` data of a new project named `n` of the given kind.
pub open spec fn created_toml(t: Toml, n: Seq<char>, ty: ProjectType) -> bool {
    &&& t.project.name@ == n
    &&& (t.project.version matches Some(v) && v@ == "0.0.1"@)
    &&& (t.project.dependencies matches Some(d) && d@.len() == 0)
    &&& t.project.optional_dependencies is None
    &&& match ty {
        ProjectType::Application => (t.project.scripts matches Some(s)
            && s@.len() == 1 && s@[0].0@ == n && s@[0].1@ == n + ":run"@),
        ProjectType::Library => t.project.scripts is None,
    }
}

/// What a new project named `n` at `root` of the given kind starts with.
pub open spec fn template_of(t: ProjectTemplate, root: Seq<char>, n: Seq<char>, ty: ProjectType, platform: Platform) -> bool {
    match ty {
        ProjectType::Library => {
            &&& t.dirs@.len() == 1 && t.dirs@[0]@ == spec_join(platform, root, "src"@)
            &&& t.files@.len() == 3
            &&& t.files@[0].0@ == spec_join(platform, spec_join(platform, root, "src"@), "__init__.py"@)
            &&& t.files@[0].1@ == library_init_contents()
            &&& t.files@[1].0@ == spec_join(platform, spec_join(platform, root, "src"@), "my_math.py"@)
            &&& t.files@[1].1@ == library_module_contents()
            &&& t.files@[2].0@ == spec_join(platform, root, "test.py"@)
            &&& t.files@[2].1@ == library_test_contents()
        },
        ProjectType::Application => {
            &&& t.dirs@.len() == 2 && t.dirs@[0]@ == spec_join(platform, root, "src"@)
            &&& t.dirs@[1]@ == spec_join(platform, spec_join(platform, root, "src"@), n)
            &&& t.files@.len() == 1
            &&& t.files@[0].0@ == spec_join(platform, spec_join(platform, spec_join(platform, root, "src"@), n), "main.py"@)
            &&& t.files@[0].1@ == application_main_contents()
        },
    }
}

impl Project {
    /// A project at `root` of the given kind.
    pub fn new(root: &str, project_type: ProjectType) -> (p: Project)
        ensures
            p.root@ == root@,
            p.project_type == project_type,
    {
        Project { root: root.to_owned(), project_type }
    }

    /// The `pyproject.toml` data of the project: the default tables, named
    /// after the root directory; an application also gets a script of that
    /// name running `NAME:run`.  A root without a name is an error.
    pub fn create_toml(&self, platform: Platform) -> (r: Result<Toml, Error>)
        ensures
            match spec_file_name(platform, self.root@) {
                None => r matches Err(Error::InternalError(m)) && m@ == no_name_message(),
                Some(n) => r matches Ok(t) && created_toml(t, n, self.project_type),
            },
    {
        let name = parse_filename(self.root.as_str(), platform)?;
        let mut toml = Toml::default();
        if self.project_type == ProjectType::Application {
            let mut entry = chars_of(name.as_str());
            let suffix = chars_of(":run");
            extend_chars(&mut entry, suffix.as_slice());
            let entrypoint = string_from_chars(entry.as_slice());
            let mut scripts: Vec<(String, String)> = Vec::new();
            scripts.push((name.clone(), entrypoint));
            toml.project.scripts = Some(scripts);
        }
        toml.project.name = name;
        Ok(toml)
    }

    /// What bootstrapping the project writes: a library gets `src` with a
    /// sample package and a test beside it; an application gets
    /// `src/NAME` with a sample script.  A root without a name is an error.
    pub fn template(&self, platform: Platform) -> (r: Result<ProjectTemplate, Error>)
        ensures
            match spec_file_name(platform, self.root@) {
                None => r matches Err(Error::InternalError(m)) && m@ == no_name_message(),
                Some(n) => r matches Ok(t) && template_of(t, self.root@, n, self.project_type, platform),
            },
    {
        let name = parse_filename(self.root.as_str(), platform)?;
        let src = join(platform, self.root.as_str(), "src");
        let mut dirs: Vec<String> = Vec::new();
        let mut files: Vec<(String, String)> = Vec::new();
        dirs.push(src.clone());
        if self.project_type == ProjectType::Library {
            files.push((join(platform, src.as_str(), "__init__.py"), "from .my_math import add_one, times_two\n".to_owned()));
            files.push((
                join(platform, src.as_str(), "my_math.py"),
                "# welcome to Huak's sample Python library.\ndef add_one(my_number):\n\treturn my_number + 1\n\n\ndef times_two(my_number):\n\treturn my_number * 2\n".to_owned(),
            ));
            files.push((
                join(platform, self.root.as_str(), "test.py"),
                "import unittest\nfrom src import add_one\n\n\nclass TestSum(unittest.TestCase):\n\tdef test_lib_function(self):\n\t\tself.assertEqual(add_one(1), 2)\n\n\nif __name__ == '__main__':\n\tunittest.main()\n".to_owned(),
            ));
        } else {
            let package = join(platform, src.as_str(), name.as_str());
            files.push((
                join(platform, package.as_str(), "main.py"),
                "# This is a sample Python script.\ndef print_hi(name):\n\tprint(f'Hello, {name}')\n\n\nif __name__ == '__main__':\n\tprint_hi('World')\n".to_owned(),
            ));
            dirs.push(package);
        }
        Ok(ProjectTemplate { dirs, files })
    }
}

} // verus!
