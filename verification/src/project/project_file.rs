//! Dependency lists of a project file: entries are package strings, matched by package name.
use vstd::prelude::*;
use crate::error::Error;
use crate::package::{spec_package, PythonPackage};
use crate::text::{clone_strings, str_eq, strings_view};
use crate::config::pyproject::toml::Toml;

verus! {

/// `entry` reads as a package named `name`.
pub open spec fn names_package(entry: Seq<char>, name: Seq<char>) -> bool {
    spec_package(entry) matches Ok(p) && p.0 == name
}

/// The position of the first entry of `list` that reads as a package named `name`.
pub open spec fn first_match(list: Seq<Seq<char>>, name: Seq<char>) -> Option<int>
    decreases list.len(),
{
    if list.len() == 0 {
        None
    } else {
        match first_match(list.drop_last(), name) {
            Some(i) => Some(i),
            None => if names_package(list.last(), name) {
                Some(list.len() - 1)
            } else {
                None
            },
        }
    }
}

/// What `first_match` finds: the first entry naming the package, or no entry names it.
pub proof fn lemma_first_match(list: Seq<Seq<char>>, name: Seq<char>)
    ensures
        match first_match(list, name) {
            Some(i) => 0 <= i < list.len() && names_package(list[i], name)
                && forall|j: int| 0 <= j < i ==> !#[trigger] names_package(list[j], name),
            None => forall|j: int| 0 <= j < list.len() ==> !#[trigger] names_package(list[j], name),
        },
    decreases list.len(),
{
    if list.len() > 0 {
        let init = list.drop_last();
        lemma_first_match(init, name);
        match first_match(init, name) {
            Some(i) => {
                assert(list[i] == init[i]);
                assert forall|j: int| 0 <= j < i implies !#[trigger] names_package(list[j], name) by {
                    assert(list[j] == init[j]);
                }
            },
            None => {
                assert forall|j: int| 0 <= j < init.len() implies !#[trigger] names_package(list[j], name) by {
                    assert(list[j] == init[j]);
                }
            },
        }
    }
}

/// The first entry naming the package is found where it stands.
pub proof fn lemma_first_match_at(list: Seq<Seq<char>>, name: Seq<char>, i: int)
    requires
        0 <= i < list.len(),
        names_package(list[i], name),
        forall|j: int| 0 <= j < i ==> !#[trigger] names_package(list[j], name),
    ensures
        first_match(list, name) == Some(i),
{
    lemma_first_match(list, name);
    match first_match(list, name) {
        Some(k) => {
            if k < i {
                assert(!names_package(list[k], name));
            } else if i < k {
                assert(!names_package(list[i], name));
            }
        },
        None => {
            assert(!names_package(list[i], name));
        },
    }
}

/// When no entry names the package, none is found.
pub proof fn lemma_no_match(list: Seq<Seq<char>>, name: Seq<char>)
    requires
        forall|j: int| 0 <= j < list.len() ==> !#[trigger] names_package(list[j], name),
    ensures
        first_match(list, name) is None,
{
    lemma_first_match(list, name);
    if let Some(k) = first_match(list, name) {
        assert(names_package(list[k], name));
    }
}

/// The list with `dependency` put in place of the first entry naming the
/// package `name`, or appended when no entry names it.
pub open spec fn spec_added(list: Seq<Seq<char>>, dependency: Seq<char>, name: Seq<char>) -> Seq<Seq<char>> {
    match first_match(list, name) {
        Some(i) => list.update(i, dependency),
        None => list.push(dependency),
    }
}

/// The list without the first entry naming the package `name`.
pub open spec fn spec_removed(list: Seq<Seq<char>>, name: Seq<char>) -> Seq<Seq<char>> {
    match first_match(list, name) {
        Some(i) => list.remove(i),
        None => list,
    }
}

/// Whether `entry` reads as a package named `name`.
pub fn entry_names_package(entry: &str, name: &str) -> (r: bool)
    ensures
        r == names_package(entry@, name@),
{
    match PythonPackage::from_str(entry) {
        Ok(p) => str_eq(p.name.as_str(), name),
        Err(_) => false,
    }
}

/// The position of the first entry of `list` that reads as a package named `name`.
pub fn find_in_dependency_list(list: &Vec<String>, name: &str) -> (r: Option<usize>)
    ensures
        match r {
            Some(i) => first_match(strings_view(list@), name@) == Some(i as int) && i < list@.len(),
            None => first_match(strings_view(list@), name@) is None,
        },
{
    let ghost l = strings_view(list@);
    let mut i: usize = 0;
    while i < list.len()
        invariant
            l == strings_view(list@),
            i <= list@.len(),
            forall|j: int| 0 <= j < i ==> !#[trigger] names_package(l[j], name@),
        decreases list@.len() - i,
    {
        if entry_names_package(list[i].as_str(), name) {
            proof {
                lemma_first_match_at(l, name@, i as int);
            }
            return Some(i);
        }
        i = i + 1;
    }
    proof {
        lemma_no_match(l, name@);
    }
    None
}

/// Put `dependency` in place of the entry that names the same package, or
/// append it.  A dependency that cannot be read as a package is an error and
/// leaves the list as it was.
pub fn add_to_dependency_list(list: &mut Vec<String>, dependency: &str) -> (r: Result<(), Error>)
    ensures
        match spec_package(dependency@) {
            Err(m) => (r matches Err(Error::PyPackageInitalizationError(e)) && e@ == m)
                && final(list)@ == old(list)@,
            Ok(p) => r is Ok && strings_view(final(list)@) == spec_added(strings_view(old(list)@), dependency@, p.0),
        },
{
    let package = match PythonPackage::from_str(dependency) {
        Ok(p) => p,
        Err(e) => return Err(e),
    };
    let ghost before = strings_view(list@);
    match find_in_dependency_list(list, package.name.as_str()) {
        Some(i) => {
            list.set(i, dependency.to_owned());
            assert(strings_view(list@) =~= before.update(i as int, dependency@));
        },
        None => {
            list.push(dependency.to_owned());
            assert(strings_view(list@) =~= before.push(dependency@));
        },
    }
    Ok(())
}

/// Remove the first entry that names the same package as `dependency`.  A
/// dependency that cannot be read as a package is an error and leaves the
/// list as it was.
pub fn remove_from_dependency_list(list: &mut Vec<String>, dependency: &str) -> (r: Result<(), Error>)
    ensures
        match spec_package(dependency@) {
            Err(m) => (r matches Err(Error::PyPackageInitalizationError(e)) && e@ == m)
                && final(list)@ == old(list)@,
            Ok(p) => r is Ok && strings_view(final(list)@) == spec_removed(strings_view(old(list)@), p.0),
        },
{
    let package = match PythonPackage::from_str(dependency) {
        Ok(p) => p,
        Err(e) => return Err(e),
    };
    let ghost before = strings_view(list@);
    match find_in_dependency_list(list, package.name.as_str()) {
        Some(i) => {
            list.remove(i);
            assert(strings_view(list@) =~= before.remove(i as int));
        },
        None => {},
    }
    Ok(())
}

/// The first entry of `list` that names the same package as `package`.
pub fn search_list<'a>(list: &'a Vec<String>, package: &PythonPackage) -> (r: Option<&'a str>)
    ensures
        match first_match(strings_view(list@), package.name@) {
            Some(i) => r matches Some(e) && e@ == strings_view(list@)[i],
            None => r is None,
        },
{
    match find_in_dependency_list(list, package.name.as_str()) {
        Some(i) => Some(list[i].as_str()),
        None => None,
    }
}

/// After a dependency is added, the first entry naming its package is the
/// dependency itself.
pub proof fn lemma_added_is_found(list: Seq<Seq<char>>, dependency: Seq<char>, name: Seq<char>)
    requires
        names_package(dependency, name),
    ensures
        first_match(spec_added(list, dependency, name), name) matches Some(k)
            && spec_added(list, dependency, name)[k] == dependency,
{
    lemma_first_match(list, name);
    let after = spec_added(list, dependency, name);
    match first_match(list, name) {
        Some(i) => {
            assert forall|j: int| 0 <= j < i implies !#[trigger] names_package(after[j], name) by {
                assert(after[j] == list[j]);
            }
            lemma_first_match_at(after, name, i);
        },
        None => {
            assert forall|j: int| 0 <= j < list.len() implies !#[trigger] names_package(after[j], name) by {
                assert(after[j] == list[j]);
            }
            lemma_first_match_at(after, name, list.len() as int);
        },
    }
}

/// Adding the same dependency twice is adding it once.
pub proof fn lemma_add_idempotent(list: Seq<Seq<char>>, dependency: Seq<char>, name: Seq<char>)
    requires
        names_package(dependency, name),
    ensures
        spec_added(spec_added(list, dependency, name), dependency, name) == spec_added(list, dependency, name),
{
    lemma_added_is_found(list, dependency, name);
    let after = spec_added(list, dependency, name);
    lemma_first_match(after, name);
    let k = first_match(after, name).unwrap();
    assert(after.update(k, dependency) =~= after);
}

/// Removing a dependency that was just added, to a list where no entry named
/// its package, gives back the list.
pub proof fn lemma_remove_undoes_add(list: Seq<Seq<char>>, dependency: Seq<char>, name: Seq<char>)
    requires
        names_package(dependency, name),
        first_match(list, name) is None,
    ensures
        spec_removed(spec_added(list, dependency, name), name) == list,
{
    lemma_added_is_found(list, dependency, name);
    let after = list.push(dependency);
    lemma_first_match(list, name);
    assert forall|j: int| 0 <= j < list.len() implies !#[trigger] names_package(after[j], name) by {
        assert(after[j] == list[j]);
    }
    lemma_first_match_at(after, name, list.len() as int);
    assert(after.remove(list.len() as int) =~= list);
}

/// Adding a dependency changes no entry but the one naming its package, and
/// grows the list by at most one entry.
pub proof fn lemma_add_keeps_others(list: Seq<Seq<char>>, dependency: Seq<char>, name: Seq<char>, j: int)
    requires
        0 <= j < list.len(),
        !names_package(list[j], name),
    ensures
        spec_added(list, dependency, name)[j] == list[j],
        spec_added(list, dependency, name).len() == list.len()
            || spec_added(list, dependency, name).len() == list.len() + 1,
{
    lemma_first_match(list, name);
}

/// Removing takes out exactly the first entry naming the package, if any;
/// afterwards an entry naming it remains only if the list held two.
pub proof fn lemma_removed_entry(list: Seq<Seq<char>>, name: Seq<char>)
    ensures
        match first_match(list, name) {
            Some(i) => spec_removed(list, name).len() + 1 == list.len()
                && forall|j: int| 0 <= j < i ==> #[trigger] spec_removed(list, name)[j] == list[j],
            None => spec_removed(list, name) == list,
        },
        (forall|a: int, b: int| 0 <= a < b < list.len() ==> !(names_package(list[a], name) && names_package(list[b], name)))
            ==> first_match(spec_removed(list, name), name) is None,
{
    lemma_first_match(list, name);
    let after = spec_removed(list, name);
    if forall|a: int, b: int| 0 <= a < b < list.len() ==> !(names_package(list[a], name) && names_package(list[b], name)) {
        match first_match(list, name) {
            Some(i) => {
                assert forall|j: int| 0 <= j < after.len() implies !#[trigger] names_package(after[j], name) by {
                    if j < i {
                        assert(after[j] == list[j]);
                    } else {
                        assert(after[j] == list[j + 1]);
                        if names_package(list[j + 1], name) {
                            assert(names_package(list[i], name));
                        }
                    }
                }
                lemma_no_match(after, name);
            },
            None => {},
        }
    }
}

/// A project file: where it is stored, and its contents when there are any.
#[derive(Debug)]
pub struct ProjectFile {
    pub filepath: Option<String>,
    pub data: Option<Toml>,
}

impl Default for ProjectFile {
    /// A project file with no path and no contents.
    fn default() -> (p: ProjectFile)
        ensures
            p.filepath is None,
            p.data is None,
    {
        ProjectFile { filepath: None, data: None }
    }
}

/// Two project files that differ at most in their dependency lists.
pub open spec fn same_but_lists(a: ProjectFile, b: ProjectFile) -> bool {
    &&& a.filepath == b.filepath
    &&& match (a.data, b.data) {
        (Some(x), Some(y)) => crate::config::pyproject::toml::same_but_lists(x, y),
        (None, None) => true,
        _ => false,
    }
}

impl ProjectFile {
    /// The project's dependencies, when the file has contents and they list dependencies.
    pub open spec fn dependencies(&self) -> Option<Seq<Seq<char>>> {
        match self.data {
            Some(t) => match t.project.dependencies {
                Some(d) => Some(strings_view(d@)),
                None => None,
            },
            None => None,
        }
    }

    /// The dependencies of an optional group, when the file has contents and the group exists.
    pub open spec fn group(&self, k: Seq<char>) -> Option<Seq<Seq<char>>> {
        match self.data {
            Some(t) => match t.project.optional_dependencies {
                Some(g) => g.group(k),
                None => None,
            },
            None => None,
        }
    }

    /// The project's name, when the file has contents.
    pub fn project_name(&self) -> (r: Option<&str>)
        ensures
            match self.data {
                Some(t) => r matches Some(n) && n@ == t.project.name@,
                None => r is None,
            },
    {
        match &self.data {
            Some(it) => Some(it.project.name.as_str()),
            None => None,
        }
    }

    /// Set the project's name, when the file has contents.
    pub fn set_project_name(&mut self, name: &str)
        ensures
            match old(self).data {
                Some(_) => final(self).data matches Some(t) && t.project.name@ == name@,
                None => final(self).data is None,
            },
            final(self).dependencies() == old(self).dependencies(),
            forall|k: Seq<char>| #[trigger] final(self).group(k) == old(self).group(k),
            final(self).filepath == old(self).filepath,
            match (old(self).data, final(self).data) {
                (Some(a), Some(b)) => a.build_system == b.build_system && a.project.version == b.project.version
                    && a.project.description == b.project.description && a.project.scripts == b.project.scripts,
                _ => true,
            },
    {
        match &mut self.data {
            Some(it) => {
                it.project.name = name.to_owned();
            },
            None => {},
        }
    }

    /// The project's version, when the file has contents with a version.
    pub fn project_version(&self) -> (r: Option<&str>)
        ensures
            match self.data {
                Some(t) => match t.project.version {
                    Some(v) => r matches Some(s) && s@ == v@,
                    None => r is None,
                },
                None => r is None,
            },
    {
        match &self.data {
            Some(it) => match &it.project.version {
                Some(v) => Some(v.as_str()),
                None => None,
            },
            None => None,
        }
    }

    /// Where the file is stored, if known.
    pub fn pyproject_path(&self) -> (r: Option<&String>)
        ensures
            match self.filepath {
                Some(p) => r matches Some(q) && q@ == p@,
                None => r is None,
            },
    {
        match &self.filepath {
            Some(it) => Some(it),
            None => None,
        }
    }

    /// The file's contents, if any.
    pub fn pyproject_toml(&self) -> (r: Option<&Toml>)
        ensures
            match self.data {
                Some(t) => r == Some(&t),
                None => r is None,
            },
    {
        match &self.data {
            Some(it) => Some(it),
            None => None,
        }
    }

    /// A copy of the project's dependencies (empty when there are none).
    pub fn dependency_list(&self) -> (r: Vec<String>)
        ensures
            strings_view(r@) == match self.dependencies() {
                Some(d) => d,
                None => Seq::<Seq<char>>::empty(),
            },
    {
        match &self.data {
            Some(it) => match &it.project.dependencies {
                Some(list) => clone_strings(list),
                None => Vec::new(),
            },
            None => {
                let v: Vec<String> = Vec::new();
                assert(strings_view(v@) =~= Seq::<Seq<char>>::empty());
                v
            },
        }
    }

    /// A copy of the dependencies of an optional group (empty when there are none).
    pub fn optional_dependency_list(&self, group: &str) -> (r: Vec<String>)
        ensures
            strings_view(r@) == match self.group(group@) {
                Some(d) => d,
                None => Seq::<Seq<char>>::empty(),
            },
    {
        match &self.data {
            Some(it) => match &it.project.optional_dependencies {
                Some(groups) => match groups.get(group) {
                    Some(list) => clone_strings(list),
                    None => Vec::new(),
                },
                None => Vec::new(),
            },
            None => Vec::new(),
        }
    }

    /// Add a dependency to the project's dependencies (see
    /// `add_to_dependency_list`), when the file lists dependencies.
    pub fn add_dependency(&mut self, dependency: &str) -> (r: Result<(), Error>)
        ensures
            forall|k: Seq<char>| #[trigger] final(self).group(k) == old(self).group(k),
            final(self).filepath == old(self).filepath,
            match old(self).dependencies() {
                None => r is Ok && final(self).dependencies() == old(self).dependencies(),
                Some(l) => match spec_package(dependency@) {
                    Err(m) => (r matches Err(Error::PyPackageInitalizationError(e)) && e@ == m)
                        && final(self).dependencies() == old(self).dependencies(),
                    Ok(p) => r is Ok && final(self).dependencies() == Some(spec_added(l, dependency@, p.0)),
                },
            },
            same_but_lists(*final(self), *old(self)),
    {
        match &mut self.data {
            Some(it) => match &mut it.project.dependencies {
                Some(list) => add_to_dependency_list(list, dependency),
                None => Ok(()),
            },
            None => Ok(()),
        }
    }

    /// Add a dependency to an optional group (see `DependencyGroups::add_to_group`),
    /// when the file has optional groups.
    pub fn add_optional_dependency(&mut self, dependency: &str, group: &str) -> (r: Result<(), Error>)
        ensures
            final(self).dependencies() == old(self).dependencies(),
            final(self).filepath == old(self).filepath,
            match old(self).data {
                Some(t) => match t.project.optional_dependencies {
                    Some(_) => match old(self).group(group@) {
                        None => r is Ok && forall|k: Seq<char>| #[trigger] final(self).group(k) == if k == group@ {
                            Some(seq![dependency@])
                        } else {
                            old(self).group(k)
                        },
                        Some(l) => match spec_package(dependency@) {
                            Err(m) => (r matches Err(Error::PyPackageInitalizationError(e)) && e@ == m)
                                && forall|k: Seq<char>| #[trigger] final(self).group(k) == old(self).group(k),
                            Ok(p) => r is Ok && forall|k: Seq<char>| #[trigger] final(self).group(k) == if k == group@ {
                                Some(spec_added(l, dependency@, p.0))
                            } else {
                                old(self).group(k)
                            },
                        },
                    },
                    None => r is Ok && forall|k: Seq<char>| #[trigger] final(self).group(k) == old(self).group(k),
                },
                None => r is Ok && forall|k: Seq<char>| #[trigger] final(self).group(k) == old(self).group(k),
            },
            same_but_lists(*final(self), *old(self)),
    {
        match &mut self.data {
            Some(it) => match &mut it.project.optional_dependencies {
                Some(groups) => groups.add_to_group(group, dependency),
                None => Ok(()),
            },
            None => Ok(()),
        }
    }

    /// Remove a dependency from an optional group when one is named, else
    /// from the project's dependencies (see `remove_from_dependency_list`).
    pub fn remove_dependency(&mut self, dependency: &str, group: &Option<String>) -> (r: Result<(), Error>)
        ensures
            final(self).filepath == old(self).filepath,
            match group {
                Some(g) => final(self).dependencies() == old(self).dependencies() && match old(self).group(g@) {
                    None => r is Ok && forall|k: Seq<char>| #[trigger] final(self).group(k) == old(self).group(k),
                    Some(l) => match spec_package(dependency@) {
                        Err(m) => (r matches Err(Error::PyPackageInitalizationError(e)) && e@ == m)
                            && forall|k: Seq<char>| #[trigger] final(self).group(k) == old(self).group(k),
                        Ok(p) => r is Ok && forall|k: Seq<char>| #[trigger] final(self).group(k) == if k == g@ {
                            Some(spec_removed(l, p.0))
                        } else {
                            old(self).group(k)
                        },
                    },
                },
                None => (forall|k: Seq<char>| #[trigger] final(self).group(k) == old(self).group(k)) && match old(self).dependencies() {
                    None => r is Ok && final(self).dependencies() == old(self).dependencies(),
                    Some(l) => match spec_package(dependency@) {
                        Err(m) => (r matches Err(Error::PyPackageInitalizationError(e)) && e@ == m)
                            && final(self).dependencies() == old(self).dependencies(),
                        Ok(p) => r is Ok && final(self).dependencies() == Some(spec_removed(l, p.0)),
                    },
                },
            },
            same_but_lists(*final(self), *old(self)),
    {
        match &mut self.data {
            Some(it) => match group {
                Some(g) => match &mut it.project.optional_dependencies {
                    Some(groups) => groups.remove_from_group(g.as_str(), dependency),
                    None => Ok(()),
                },
                None => match &mut it.project.dependencies {
                    Some(list) => remove_from_dependency_list(list, dependency),
                    None => Ok(()),
                },
            },
            None => Ok(()),
        }
    }

    /// The first entry naming `package`'s package, in the named optional
    /// group or else in the project's dependencies; nothing when that list
    /// does not exist.
    pub fn search_dependency_list(&self, package: &PythonPackage, group: &Option<String>) -> (r: Result<Option<&str>, Error>)
        ensures
            r is Ok,
            match (match group {
                Some(g) => self.group(g@),
                None => self.dependencies(),
            }) {
                Some(l) => match first_match(l, package.name@) {
                    Some(i) => r matches Ok(Some(e)) && e@ == l[i],
                    None => r matches Ok(None),
                },
                None => r matches Ok(None),
            },
    {
        match &self.data {
            Some(it) => {
                let list = match group {
                    Some(g) => match &it.project.optional_dependencies {
                        Some(groups) => match groups.get(g.as_str()) {
                            Some(l) => l,
                            None => return Ok(None),
                        },
                        None => return Ok(None),
                    },
                    None => match &it.project.dependencies {
                        Some(l) => l,
                        None => return Ok(None),
                    },
                };
                Ok(search_list(list, package))
            },
            None => Ok(None),
        }
    }
}

} // verus!
