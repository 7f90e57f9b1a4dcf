//! A project's configuration: where its `pyproject.toml` is and what it holds.
use vstd::prelude::*;
use crate::config::pyproject::toml::Toml;
use crate::package::{spec_package, PythonPackage};

verus! {

/// The packages that the dependency strings read as, in order, leaving out
/// those that cannot be read.
pub open spec fn read_packages(ss: Seq<Seq<char>>) -> Seq<(Seq<char>, Option<(crate::package::Operator, Seq<char>)>)>
    decreases ss.len(),
{
    if ss.len() == 0 {
        Seq::empty()
    } else {
        read_packages(ss.drop_last()) + match spec_package(ss.last()) {
            Ok(v) => seq![v],
            Err(_) => Seq::empty(),
        }
    }
}

/// The views of packages.
pub open spec fn packages_view(v: Seq<PythonPackage>) -> Seq<(Seq<char>, Option<(crate::package::Operator, Seq<char>)>)> {
    v.map_values(|p: PythonPackage| p@)
}

/// The packages of dependency strings that can be read as packages, in order.
fn package_list_of(deps: &Vec<String>) -> (r: Vec<PythonPackage>)
    ensures
        packages_view(r@) == read_packages(crate::text::strings_view(deps@)),
{
    let ghost ss = crate::text::strings_view(deps@);
    let mut r: Vec<PythonPackage> = Vec::new();
    let mut i: usize = 0;
    while i < deps.len()
        invariant
            ss == crate::text::strings_view(deps@),
            i <= deps@.len(),
            packages_view(r@) == read_packages(ss.take(i as int)),
        decreases deps@.len() - i,
    {
        proof {
            assert(ss.take(i + 1).drop_last() =~= ss.take(i as int));
            assert(ss.take(i + 1).last() == deps@[i as int]@);
        }
        let ghost before = packages_view(r@);
        match PythonPackage::from_str(deps[i].as_str()) {
            Ok(p) => {
                r.push(p);
                assert(packages_view(r@) =~= before + seq![r@[r@.len() - 1]@]);
            },
            Err(_) => {
                assert(packages_view(r@) =~= before + Seq::empty());
            },
        }
        i = i + 1;
    }
    assert(ss.take(deps@.len() as int) =~= ss);
    r
}

/// A project's configuration: the path of its `pyproject.toml` and its data.
pub struct ProjectConfig {
    pub pyproject_path: String,
    pub pyproject_toml: Toml,
}

impl Default for ProjectConfig {
    /// No path, and the default tables.
    fn default() -> (c: ProjectConfig)
        ensures
            c.pyproject_path@ == Seq::<char>::empty(),
            c.pyproject_toml.project.dependencies matches Some(d) && d@.len() == 0,
            c.pyproject_toml.project.optional_dependencies is None,
    {
        ProjectConfig { pyproject_path: String::new(), pyproject_toml: Toml::default() }
    }
}

impl ProjectConfig {
    /// The project's name.
    pub fn project_name(&self) -> (r: &String)
        ensures
            r@ == self.pyproject_toml.project.name@,
    {
        &self.pyproject_toml.project.name
    }

    /// Rename the project.
    pub fn set_project_name(&mut self, name: &str)
        ensures
            final(self).pyproject_toml.project.name@ == name@,
            final(self).pyproject_toml.project.version == old(self).pyproject_toml.project.version,
            final(self).pyproject_toml.project.dependencies == old(self).pyproject_toml.project.dependencies,
            final(self).pyproject_path == old(self).pyproject_path,
    {
        self.pyproject_toml.project.name = name.to_owned();
    }

    /// The project's version, if it has one.
    pub fn project_version(&self) -> (r: &Option<String>)
        ensures
            *r == self.pyproject_toml.project.version,
    {
        &self.pyproject_toml.project.version
    }

    /// The path of the project's `pyproject.toml`.
    pub fn pyproject_path(&self) -> (r: &String)
        ensures
            r@ == self.pyproject_path@,
    {
        &self.pyproject_path
    }

    /// The data of the project's `pyproject.toml`.
    pub fn pyproject_toml(&self) -> (r: &Toml)
        ensures
            *r == self.pyproject_toml,
    {
        &self.pyproject_toml
    }

    /// The packages of the project's dependencies that can be read, in order.
    pub fn package_list(&self) -> (r: Vec<PythonPackage>)
        ensures
            packages_view(r@) == match self.pyproject_toml.project.dependencies {
                Some(d) => read_packages(crate::text::strings_view(d@)),
                None => Seq::empty(),
            },
    {
        match &self.pyproject_toml.project.dependencies {
            Some(d) => package_list_of(d),
            None => {
                let r: Vec<PythonPackage> = Vec::new();
                assert(packages_view(r@) =~= Seq::empty());
                r
            },
        }
    }

    /// The packages of an optional group's dependencies that can be read, in
    /// order (none when the group is absent).
    pub fn optional_package_list(&self, group: &str) -> (r: Vec<PythonPackage>)
        ensures
            packages_view(r@) == match self.pyproject_toml.project.optional_dependencies {
                Some(g) => match g.group(group@) {
                    Some(d) => read_packages(d),
                    None => Seq::empty(),
                },
                None => Seq::empty(),
            },
    {
        match &self.pyproject_toml.project.optional_dependencies {
            Some(g) => match g.get(group) {
                Some(d) => package_list_of(d),
                None => {
                    let r: Vec<PythonPackage> = Vec::new();
                    assert(packages_view(r@) =~= Seq::empty());
                    r
                },
            },
            None => {
                let r: Vec<PythonPackage> = Vec::new();
                assert(packages_view(r@) =~= Seq::empty());
                r
            },
        }
    }
}

} // verus!
