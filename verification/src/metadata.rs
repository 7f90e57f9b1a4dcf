//! The core metadata of a package (PEP 621): its build system and its
//! project table, whose dependencies are PEP 508 requirements.
use vstd::prelude::*;
use indexmap::IndexMap;
use crate::config::pyproject::build_system::BuildSystem;
use crate::dependency::{clone_requirement, requirement_eq, Dependency, Requirement};
use crate::error::Error;
use crate::package::Operator;
use crate::text::str_eq;

verus! {

/// A requirement as plain values.
pub type RequirementView = (Seq<char>, Option<Seq<Seq<char>>>, Option<(Seq<(Operator, Seq<char>)>, Option<Seq<char>>)>, Option<Seq<char>>);

/// Requirements as plain values.
pub open spec fn requirements_view(v: Seq<Requirement>) -> Seq<RequirementView> {
    v.map_values(|r: Requirement| r@)
}

/// What an `IndexMap` of group names to requirements holds: its entries in
/// order, as pairs of a name and its requirements.
pub uninterp spec fn requirement_group_entries(m: IndexMap<String, Vec<Requirement>>) -> Seq<(Seq<char>, Seq<RequirementView>)>;

/// What an `IndexMap` of script names to entry points holds: its entries in order.
pub uninterp spec fn script_map_entries(m: IndexMap<String, String>) -> Seq<(Seq<char>, Seq<char>)>;

/// The number of groups of a map (`IndexMap::len`).
#[verifier::external_body]
pub(crate) fn group_map_len(m: &IndexMap<String, Vec<Requirement>>) -> (n: usize)
    ensures
        n == requirement_group_entries(*m).len(),
{
    m.len()
}

/// The group at position `i` of a map, if there is one (`IndexMap::get_index`).
#[verifier::external_body]
pub(crate) fn group_map_entry(m: &IndexMap<String, Vec<Requirement>>, i: usize) -> (r: Option<(&String, &Vec<Requirement>)>)
    ensures
        match r {
            Some(e) => i < requirement_group_entries(*m).len() && requirement_group_entries(*m)[i as int] == (e.0@, requirements_view(e.1@)),
            None => i >= requirement_group_entries(*m).len(),
        },
{
    m.get_index(i)
}

/// Set the requirements of a group (`IndexMap::insert`): a group of that
/// name keeps its place and takes the new requirements; otherwise the group
/// is added last.
#[verifier::external_body]
fn group_map_insert(m: &mut IndexMap<String, Vec<Requirement>>, name: String, list: Vec<Requirement>)
    ensures
        requirement_group_entries(*final(m)) == match first_group(requirement_group_entries(*old(m)), name@) {
            Some(i) => requirement_group_entries(*old(m)).update(i, (name@, requirements_view(list@))),
            None => requirement_group_entries(*old(m)).push((name@, requirements_view(list@))),
        },
{
    m.insert(name, list);
}

/// An empty map of scripts (`IndexMap::new`).
#[verifier::external_body]
fn new_script_map() -> (m: IndexMap<String, String>)
    ensures
        script_map_entries(m) == Seq::<(Seq<char>, Seq<char>)>::empty(),
{
    IndexMap::new()
}

/// The number of scripts of a map (`IndexMap::len`).
#[verifier::external_body]
fn script_map_len(m: &IndexMap<String, String>) -> (n: usize)
    ensures
        n == script_map_entries(*m).len(),
{
    m.len()
}

/// The script at position `i` of a map, if there is one (`IndexMap::get_index`).
#[verifier::external_body]
fn script_map_entry(m: &IndexMap<String, String>, i: usize) -> (r: Option<(&String, &String)>)
    ensures
        match r {
            Some(e) => i < script_map_entries(*m).len() && script_map_entries(*m)[i as int] == (e.0@, e.1@),
            None => i >= script_map_entries(*m).len(),
        },
{
    m.get_index(i)
}

/// Set the entry point of a script (`IndexMap::insert`): a script of that
/// name keeps its place and takes the new entry point; otherwise the script
/// is added last.
#[verifier::external_body]
fn script_map_insert(m: &mut IndexMap<String, String>, name: String, entrypoint: String)
    ensures
        script_map_entries(*final(m)) == match first_group(script_map_entries(*old(m)), name@) {
            Some(i) => script_map_entries(*old(m)).update(i, (name@, entrypoint@)),
            None => script_map_entries(*old(m)).push((name@, entrypoint@)),
        },
{
    m.insert(name, entrypoint);
}

/// Copies of requirements, in order.
fn clone_requirements(v: &Vec<Requirement>) -> (r: Vec<Requirement>)
    ensures
        requirements_view(r@) == requirements_view(v@),
{
    let mut r: Vec<Requirement> = Vec::new();
    let mut i: usize = 0;
    while i < v.len()
        invariant
            i <= v@.len(),
            r@.len() == i,
            forall|j: int| 0 <= j < i ==> #[trigger] r@[j]@ == v@[j]@,
        decreases v@.len() - i,
    {
        r.push(clone_requirement(&v[i]));
        i = i + 1;
    }
    assert(requirements_view(r@) =~= requirements_view(v@));
    r
}

/// The position of the first entry of `s` equal to `x`.
pub open spec fn first_index<T>(s: Seq<T>, x: T) -> Option<int>
    decreases s.len(),
{
    if s.len() == 0 {
        None
    } else {
        match first_index(s.drop_last(), x) {
            Some(i) => Some(i),
            None => if s.last() == x {
                Some(s.len() - 1)
            } else {
                None
            },
        }
    }
}

/// The position of the first group named `k`.
pub open spec fn first_group<V>(g: Seq<(Seq<char>, V)>, k: Seq<char>) -> Option<int>
    decreases g.len(),
{
    if g.len() == 0 {
        None
    } else {
        match first_group(g.drop_last(), k) {
            Some(i) => Some(i),
            None => if g.last().0 == k {
                Some(g.len() - 1)
            } else {
                None
            },
        }
    }
}

/// What `first_index` finds.
pub proof fn lemma_first_index<T>(s: Seq<T>, x: T)
    ensures
        match first_index(s, x) {
            Some(i) => 0 <= i < s.len() && s[i] == x && forall|j: int| 0 <= j < i ==> #[trigger] s[j] != x,
            None => forall|j: int| 0 <= j < s.len() ==> #[trigger] s[j] != x,
        },
    decreases s.len(),
{
    if s.len() > 0 {
        let init = s.drop_last();
        lemma_first_index(init, x);
        match first_index(init, x) {
            Some(i) => {
                assert(s[i] == init[i]);
                assert forall|j: int| 0 <= j < i implies #[trigger] s[j] != x by {
                    assert(s[j] == init[j]);
                }
            },
            None => {
                assert forall|j: int| 0 <= j < init.len() implies #[trigger] s[j] != x by {
                    assert(s[j] == init[j]);
                }
            },
        }
    }
}

/// What `first_group` finds.
pub proof fn lemma_first_group<V>(g: Seq<(Seq<char>, V)>, k: Seq<char>)
    ensures
        match first_group(g, k) {
            Some(i) => 0 <= i < g.len() && g[i].0 == k && forall|j: int| 0 <= j < i ==> #[trigger] g[j].0 != k,
            None => forall|j: int| 0 <= j < g.len() ==> #[trigger] g[j].0 != k,
        },
    decreases g.len(),
{
    if g.len() > 0 {
        let init = g.drop_last();
        lemma_first_group(init, k);
        match first_group(init, k) {
            Some(i) => {
                assert(g[i] == init[i]);
                assert forall|j: int| 0 <= j < i implies #[trigger] g[j].0 != k by {
                    assert(g[j] == init[j]);
                }
            },
            None => {
                assert forall|j: int| 0 <= j < init.len() implies #[trigger] g[j].0 != k by {
                    assert(g[j] == init[j]);
                }
            },
        }
    }
}

/// The position of the first requirement equal to `x`.
fn find_requirement(v: &Vec<Requirement>, x: &Requirement) -> (r: Option<usize>)
    ensures
        match r {
            Some(i) => first_index(requirements_view(v@), x@) == Some(i as int) && i < v@.len(),
            None => first_index(requirements_view(v@), x@) is None,
        },
{
    let ghost s = requirements_view(v@);
    proof { lemma_first_index(s, x@); }
    let mut i: usize = 0;
    while i < v.len()
        invariant
            s == requirements_view(v@),
            i <= v@.len(),
            forall|j: int| 0 <= j < i ==> #[trigger] s[j] != x@,
        decreases v@.len() - i,
    {
        assert(s[i as int] == v@[i as int]@);
        if requirement_eq(&v[i], x) {
            proof {
                lemma_first_index(s, x@);
                assert(s[i as int] == v@[i as int]@);
                match first_index(s, x@) {
                    Some(k) => {
                        if k < i {
                            assert(s[k] != x@);
                        } else if k > i {
                            assert(s[i as int] == x@);
                        }
                    },
                    None => {
                        assert(s[i as int] == x@);
                    },
                }
            }
            return Some(i);
        }
        i = i + 1;
    }
    proof {
        lemma_first_index(s, x@);
        if let Some(k) = first_index(s, x@) {
            assert(s[k] == x@);
        }
    }
    None
}

/// The position of the first group named `k`.
fn find_group(g: &IndexMap<String, Vec<Requirement>>, k: &str) -> (r: Option<usize>)
    ensures
        match r {
            Some(i) => first_group(requirement_group_entries(*g), k@) == Some(i as int) && i < requirement_group_entries(*g).len(),
            None => first_group(requirement_group_entries(*g), k@) is None,
        },
{
    let ghost s = requirement_group_entries(*g);
    proof { lemma_first_group(s, k@); }
    let n = group_map_len(g);
    let mut i: usize = 0;
    while i < n
        invariant
            s == requirement_group_entries(*g),
            n == s.len(),
            i <= n,
            forall|j: int| 0 <= j < i ==> #[trigger] s[j].0 != k@,
        decreases n - i,
    {
        let found = match group_map_entry(g, i) {
            Some((name, _)) => str_eq(name.as_str(), k),
            None => false,
        };
        if found {
            assert(s[i as int].0 == k@);
            proof {
                lemma_first_group(s, k@);
                match first_group(s, k@) {
                    Some(m) => {
                        if m < i {
                            assert(s[m].0 != k@);
                        } else if m > i {
                            assert(s[i as int].0 == k@);
                        }
                    },
                    None => {},
                }
            }
            return Some(i);
        }
        i = i + 1;
    }
    proof {
        lemma_first_group(s, k@);
        if let Some(m) = first_group(s, k@) {
            assert(s[m].0 == k@);
        }
    }
    None
}

/// The `[project]` table of a package's metadata.
#[derive(Debug)]
pub struct MetadataProject {
    pub name: String,
    /// The text of the project's PEP 440 version.
    pub version: Option<String>,
    pub dependencies: Option<Vec<Requirement>>,
    /// Optional dependency groups, in order.
    pub optional_dependencies: Option<IndexMap<String, Vec<Requirement>>>,
    /// Scripts as pairs of a name and an entry point, in order.
    pub scripts: Option<IndexMap<String, String>>,
}

/// The requirements of `l` not named `n`, in order.
pub open spec fn without_name(l: Seq<RequirementView>, n: Seq<char>) -> Seq<RequirementView>
    decreases l.len(),
{
    if l.len() == 0 {
        Seq::empty()
    } else {
        without_name(l.drop_last(), n) + if l.last().0 == n {
            Seq::<RequirementView>::empty()
        } else {
            seq![l.last()]
        }
    }
}

/// Copies of the requirements not named `n`, in order.
fn keep_not_named(v: &Vec<Requirement>, n: &str) -> (r: Vec<Requirement>)
    ensures
        requirements_view(r@) == without_name(requirements_view(v@), n@),
{
    let ghost s = requirements_view(v@);
    let mut r: Vec<Requirement> = Vec::new();
    let mut i: usize = 0;
    while i < v.len()
        invariant
            s == requirements_view(v@),
            i <= v@.len(),
            requirements_view(r@) == without_name(s.take(i as int), n@),
        decreases v@.len() - i,
    {
        proof {
            assert(s.take(i + 1).drop_last() =~= s.take(i as int));
            assert(s.take(i + 1).last() == v@[i as int]@);
        }
        let ghost before = requirements_view(r@);
        if str_eq(v[i].name.as_str(), n) {
            assert(requirements_view(r@) =~= before + Seq::<RequirementView>::empty());
        } else {
            r.push(clone_requirement(&v[i]));
            assert(requirements_view(r@) =~= before + seq![v@[i as int]@]);
        }
        i = i + 1;
    }
    assert(s.take(v@.len() as int) =~= s);
    r
}

/// No two optional groups and no two scripts share a name.
pub open spec fn names_distinct(m: Metadata) -> bool {
    &&& match m.groups() {
        Some(g) => forall|i: int, j: int| 0 <= i < j < g.len() ==> #[trigger] g[i].0 != #[trigger] g[j].0,
        None => true,
    }
    &&& forall|i: int, j: int| 0 <= i < j < m.script_entries().len()
        ==> #[trigger] m.script_entries()[i].0 != #[trigger] m.script_entries()[j].0
}

/// Metadata with the same groups and scripts agree on distinct names.
proof fn lemma_names_distinct_same(a: Metadata, b: Metadata)
    requires
        a.groups() == b.groups(),
        a.script_entries() == b.script_entries(),
    ensures
        names_distinct(a) == names_distinct(b),
{
}

/// Groups whose names are those of distinct-named groups, in order, have
/// distinct names.
proof fn lemma_distinct_same_names(g: Seq<(Seq<char>, Seq<RequirementView>)>, h: Seq<(Seq<char>, Seq<RequirementView>)>)
    requires
        forall|i: int, j: int| 0 <= i < j < g.len() ==> #[trigger] g[i].0 != #[trigger] g[j].0,
        g.len() == h.len(),
        forall|i: int| 0 <= i < g.len() ==> #[trigger] h[i].0 == g[i].0,
    ensures
        forall|i: int, j: int| 0 <= i < j < h.len() ==> #[trigger] h[i].0 != #[trigger] h[j].0,
{
    assert forall|i: int, j: int| 0 <= i < j < h.len() implies #[trigger] h[i].0 != #[trigger] h[j].0 by {
        assert(h[i].0 == g[i].0);
        assert(h[j].0 == g[j].0);
    }
}

/// Two metadata that differ at most in their dependency lists.
pub open spec fn same_but_lists(a: Metadata, b: Metadata) -> bool {
    &&& a.build_system == b.build_system
    &&& a.project.name == b.project.name
    &&& a.project.version == b.project.version
    &&& a.project.scripts == b.project.scripts
}

/// The core metadata of a package.
#[derive(Debug)]
pub struct Metadata {
    pub build_system: BuildSystem,
    pub project: MetadataProject,
}

impl Metadata {
    /// The project's dependencies, if it lists them.
    pub open spec fn deps(&self) -> Option<Seq<RequirementView>> {
        match self.project.dependencies {
            Some(d) => Some(requirements_view(d@)),
            None => None,
        }
    }

    /// The project's optional dependency groups, if it has them.
    pub open spec fn groups(&self) -> Option<Seq<(Seq<char>, Seq<RequirementView>)>> {
        match self.project.optional_dependencies {
            Some(g) => Some(requirement_group_entries(g)),
            None => None,
        }
    }

    /// The requirements of the first group named `k`.
    pub open spec fn group(&self, k: Seq<char>) -> Option<Seq<RequirementView>> {
        match self.groups() {
            Some(g) => match first_group(g, k) {
                Some(i) => Some(g[i].1),
                None => None,
            },
            None => None,
        }
    }

    /// The project's name.
    pub fn project_name(&self) -> (r: &str)
        ensures
            r@ == self.project.name@,
    {
        self.project.name.as_str()
    }

    /// Rename the project.
    pub fn set_project_name(&mut self, name: String)
        ensures
            final(self).project.name@ == name@,
            final(self).deps() == old(self).deps(),
            final(self).groups() == old(self).groups(),
            final(self).build_system == old(self).build_system,
            final(self).project.version == old(self).project.version,
            final(self).project.scripts == old(self).project.scripts,
            names_distinct(*old(self)) ==> names_distinct(*final(self)),
    {
        self.project.name = name;
        proof { lemma_names_distinct_same(*old(self), *self); }
    }

    /// The text of the project's version, if it has one.
    pub fn project_version(&self) -> (r: Option<&String>)
        ensures
            match self.project.version {
                Some(v) => r matches Some(s) && s@ == v@,
                None => r is None,
            },
    {
        match &self.project.version {
            Some(v) => Some(v),
            None => None,
        }
    }

    /// The project's dependencies, if it lists them.
    pub fn dependencies(&self) -> (r: Option<&Vec<Requirement>>)
        ensures
            match r {
                Some(d) => self.deps() == Some(requirements_view(d@)),
                None => self.deps() is None,
            },
    {
        match &self.project.dependencies {
            Some(d) => Some(d),
            None => None,
        }
    }

    /// Whether the project lists a requirement equal to the dependency's.
    pub fn contains_dependency(&self, dependency: &Dependency) -> (r: Result<bool, Error>)
        ensures
            r == Ok::<bool, Error>(match self.deps() {
                Some(d) => first_index(d, dependency.spec_requirement()) is Some,
                None => false,
            }),
    {
        match &self.project.dependencies {
            Some(deps) => Ok(find_requirement(deps, dependency.requirement()).is_some()),
            None => Ok(false),
        }
    }

    /// Whether the dependency's requirement is listed in an optional group.
    pub fn contains_optional_any(&self, dependency: &Dependency) -> (r: bool)
        ensures
            r == match self.groups() {
                Some(g) => exists|i: int| 0 <= i < g.len() && #[trigger] first_index(g[i].1, dependency.spec_requirement()) is Some,
                None => false,
            },
    {
        match &self.project.optional_dependencies {
            Some(groups) => {
                let ghost g = requirement_group_entries(*groups);
                let n = group_map_len(groups);
                let mut i: usize = 0;
                while i < n
                    invariant
                        g == requirement_group_entries(*groups),
                        n == g.len(),
                        self.groups() == Some(g),
                        i <= n,
                        forall|j: int| 0 <= j < i ==> #[trigger] first_index(g[j].1, dependency.spec_requirement()) is None,
                    decreases n - i,
                {
                    let hit = match group_map_entry(groups, i) {
                        Some((_, list)) => find_requirement(list, dependency.requirement()).is_some(),
                        None => false,
                    };
                    if hit {
                        assert(first_index(g[i as int].1, dependency.spec_requirement()) is Some);
                        return true;
                    }
                    i = i + 1;
                }
                false
            },
            None => false,
        }
    }

    /// Whether the project lists the dependency's requirement, among its
    /// dependencies or in any optional group.
    pub fn contains_dependency_any(&self, dependency: &Dependency) -> (r: Result<bool, Error>)
        ensures
            r == Ok::<bool, Error>((match self.deps() {
                Some(d) => first_index(d, dependency.spec_requirement()) is Some,
                None => false,
            }) || match self.groups() {
                Some(g) => exists|i: int| 0 <= i < g.len() && #[trigger] first_index(g[i].1, dependency.spec_requirement()) is Some,
                None => false,
            }),
    {
        let main = match self.contains_dependency(dependency) {
            Ok(b) => b,
            Err(_) => false,
        };
        if main {
            return Ok(true);
        }
        Ok(self.contains_optional_any(dependency))
    }

    /// Append the dependency's requirement to the project's dependencies, when it lists them.
    pub fn add_dependency(&mut self, dependency: Dependency)
        ensures
            final(self).deps() == match old(self).deps() {
                Some(d) => Some(d.push(dependency.spec_requirement())),
                None => None,
            },
            final(self).groups() == old(self).groups(),
            same_but_lists(*final(self), *old(self)),
            names_distinct(*old(self)) ==> names_distinct(*final(self)),
    {
        let req = dependency.into_requirement();
        match &mut self.project.dependencies {
            Some(deps) => {
                let ghost before = requirements_view(deps@);
                deps.push(req);
                assert(requirements_view(deps@) =~= before.push(req@));
            },
            None => {},
        }
        proof { lemma_names_distinct_same(*old(self), *self); }
    }

    /// The project's optional dependency groups, if it has them.
    pub fn optional_dependencies(&self) -> (r: Option<&IndexMap<String, Vec<Requirement>>>)
        ensures
            match r {
                Some(g) => self.groups() == Some(requirement_group_entries(*g)),
                None => self.groups() is None,
            },
    {
        match &self.project.optional_dependencies {
            Some(g) => Some(g),
            None => None,
        }
    }

    /// Whether the dependency's requirement is listed in the group.
    pub fn contains_optional_dependency(&self, dependency: &Dependency, group: &str) -> (r: Result<bool, Error>)
        ensures
            r == Ok::<bool, Error>(match self.group(group@) {
                Some(l) => first_index(l, dependency.spec_requirement()) is Some,
                None => false,
            }),
    {
        match &self.project.optional_dependencies {
            Some(groups) => match find_group(groups, group) {
                Some(i) => match group_map_entry(groups, i) {
                    Some((_, list)) => Ok(find_requirement(list, dependency.requirement()).is_some()),
                    None => Ok(false),
                },
                None => Ok(false),
            },
            None => Ok(false),
        }
    }

    /// The requirements of an optional group, if it exists.
    pub fn optional_dependencey_group(&self, group: &str) -> (r: Option<&Vec<Requirement>>)
        ensures
            match r {
                Some(l) => self.group(group@) == Some(requirements_view(l@)),
                None => self.group(group@) is None,
            },
    {
        match &self.project.optional_dependencies {
            Some(groups) => match find_group(groups, group) {
                Some(i) => match group_map_entry(groups, i) {
                    Some((_, list)) => Some(list),
                    None => None,
                },
                None => None,
            },
            None => None,
        }
    }

    /// Append the dependency's requirement to an optional group, creating
    /// the group at the end when absent; nothing changes when the project has
    /// no optional groups at all.
    pub fn add_optional_dependency(&mut self, dependency: Dependency, group: &str)
        ensures
            final(self).deps() == old(self).deps(),
            final(self).groups() == match old(self).groups() {
                Some(g) => Some(match first_group(g, group@) {
                    Some(i) => g.update(i, (g[i].0, g[i].1.push(dependency.spec_requirement()))),
                    None => g.push((group@, seq![dependency.spec_requirement()])),
                }),
                None => None,
            },
            same_but_lists(*final(self), *old(self)),
            names_distinct(*old(self)) ==> names_distinct(*final(self)),
    {
        let req = dependency.into_requirement();
        match &mut self.project.optional_dependencies {
            Some(groups) => {
                let ghost before = requirement_group_entries(*groups);
                match find_group(groups, group) {
                    Some(i) => {
                        let mut list = match group_map_entry(groups, i) {
                            Some((_, l)) => clone_requirements(l),
                            None => Vec::new(),
                        };
                        let ghost old_list = requirements_view(list@);
                        assert(old_list == before[i as int].1);
                        list.push(req);
                        assert(requirements_view(list@) =~= old_list.push(req@));
                        proof { lemma_first_group(before, group@); }
                        group_map_insert(groups, group.to_owned(), list);
                        assert(requirement_group_entries(*groups) =~= before.update(i as int, (before[i as int].0, old_list.push(req@))));
                    },
                    None => {
                        proof { lemma_first_group(before, group@); }
                        let mut list: Vec<Requirement> = Vec::new();
                        list.push(req);
                        assert(requirements_view(list@) =~= seq![req@]);
                        group_map_insert(groups, group.to_owned(), list);
                        assert(requirement_group_entries(*groups) =~= before.push((group@, seq![req@])));
                    },
                }
            },
            None => {},
        }
        proof {
            if names_distinct(*old(self)) {
                if let Some(g) = old(self).groups() {
                    let h = self.groups().unwrap();
                    lemma_first_group(g, group@);
                    match first_group(g, group@) {
                        Some(k) => {
                            assert forall|i: int| 0 <= i < g.len() implies #[trigger] h[i].0 == g[i].0 by {}
                            lemma_distinct_same_names(g, h);
                        },
                        None => {
                            assert forall|i: int, j: int| 0 <= i < j < h.len() implies #[trigger] h[i].0 != #[trigger] h[j].0 by {
                                assert(h[i] == g[i]);
                                if j < g.len() {
                                    assert(h[j] == g[j]);
                                } else {
                                    assert(h[j].0 == group@);
                                }
                            }
                        },
                    }
                }
                assert(self.script_entries() == old(self).script_entries());
            }
        }
    }

    /// Remove every requirement named like the dependency from the project's dependencies.
    pub fn remove_dependency(&mut self, dependency: &Dependency)
        ensures
            final(self).groups() == old(self).groups(),
            final(self).deps() == match old(self).deps() {
                Some(d) => Some(without_name(d, dependency.spec_requirement().0)),
                None => None,
            },
            same_but_lists(*final(self), *old(self)),
            names_distinct(*old(self)) ==> names_distinct(*final(self)),
    {
        match &mut self.project.dependencies {
            Some(deps) => {
                let kept = keep_not_named(deps, dependency.name());
                *deps = kept;
            },
            None => {},
        }
        proof { lemma_names_distinct_same(*old(self), *self); }
    }

    /// Remove every requirement named like the dependency from an optional group.
    pub fn remove_optional_dependency(&mut self, dependency: &Dependency, group: &str)
        ensures
            final(self).deps() == old(self).deps(),
            final(self).groups() == match old(self).groups() {
                Some(g) => Some(match first_group(g, group@) {
                    Some(i) => g.update(i, (g[i].0, without_name(g[i].1, dependency.spec_requirement().0))),
                    None => g,
                }),
                None => None,
            },
            same_but_lists(*final(self), *old(self)),
            names_distinct(*old(self)) ==> names_distinct(*final(self)),
    {
        match &mut self.project.optional_dependencies {
            Some(groups) => {
                let ghost before = requirement_group_entries(*groups);
                match find_group(groups, group) {
                    Some(i) => {
                        let kept = match group_map_entry(groups, i) {
                            Some((_, l)) => keep_not_named(l, dependency.name()),
                            None => Vec::new(),
                        };
                        proof { lemma_first_group(before, group@); }
                        group_map_insert(groups, group.to_owned(), kept);
                        assert(requirement_group_entries(*groups) =~= before.update(i as int,
                            (before[i as int].0, without_name(before[i as int].1, dependency.spec_requirement().0))));
                    },
                    None => {},
                }
            },
            None => {},
        }
        proof {
            if names_distinct(*old(self)) {
                if let Some(g) = old(self).groups() {
                    let h = self.groups().unwrap();
                    assert forall|i: int| 0 <= i < g.len() implies #[trigger] h[i].0 == g[i].0 by {}
                    lemma_distinct_same_names(g, h);
                }
                assert(self.script_entries() == old(self).script_entries());
            }
        }
    }

    /// The project's scripts as pairs of texts (none when absent).
    pub open spec fn script_entries(&self) -> Seq<(Seq<char>, Seq<char>)> {
        match self.project.scripts {
            Some(s) => script_map_entries(s),
            None => Seq::empty(),
        }
    }

    /// Add a script unless one of that name exists (creating the scripts when absent).
    pub fn add_script(&mut self, name: &str, entrypoint: &str)
        ensures
            final(self).deps() == old(self).deps(),
            final(self).groups() == old(self).groups(),
            final(self).project.scripts is Some,
            final(self).script_entries() == if exists|i: int| 0 <= i < old(self).script_entries().len()
                && #[trigger] old(self).script_entries()[i].0 == name@ {
                old(self).script_entries()
            } else {
                old(self).script_entries().push((name@, entrypoint@))
            },
            final(self).build_system == old(self).build_system,
            final(self).project.name == old(self).project.name,
            final(self).project.version == old(self).project.version,
            names_distinct(*old(self)) ==> names_distinct(*final(self)),
    {
        let ghost before = self.script_entries();
        let mut scripts: IndexMap<String, String> = match self.project.scripts.take() {
            Some(s) => s,
            None => new_script_map(),
        };
        assert(script_map_entries(scripts) == before);
        let n = script_map_len(&scripts);
        let mut i: usize = 0;
        let mut found = false;
        while i < n
            invariant
                n == before.len(),
                i <= n,
                before == script_map_entries(scripts),
                found <==> exists|j: int| 0 <= j < i && #[trigger] before[j].0 == name@,
            decreases n - i,
        {
            match script_map_entry(&scripts, i) {
                Some((k, _)) => {
                    assert(before[i as int].0 == k@);
                    if str_eq(k.as_str(), name) {
                        found = true;
                    }
                },
                None => {},
            }
            i = i + 1;
        }
        if !found {
            proof {
                lemma_first_group(before, name@);
            }
            script_map_insert(&mut scripts, name.to_owned(), entrypoint.to_owned());
        }
        self.project.scripts = Some(scripts);
    }
}

} // verus!

verus! {

/// Groups with the same names, in the same order, have their first group of
/// a name at the same position.
pub proof fn lemma_first_group_same_names<V>(a: Seq<(Seq<char>, V)>, b: Seq<(Seq<char>, V)>, k: Seq<char>)
    requires
        a.len() == b.len(),
        forall|j: int| 0 <= j < a.len() ==> #[trigger] a[j].0 == b[j].0,
    ensures
        first_group(a, k) == first_group(b, k),
{
    lemma_first_group(a, k);
    lemma_first_group(b, k);
    match (first_group(a, k), first_group(b, k)) {
        (Some(i), Some(j)) => {
            if i < j {
                assert(b[i].0 == a[i].0);
            } else if j < i {
                assert(a[j].0 == b[j].0);
            }
        },
        (Some(i), None) => {
            assert(b[i].0 == a[i].0);
        },
        (None, Some(j)) => {
            assert(a[j].0 == b[j].0);
        },
        (None, None) => {},
    }
}

/// A group appended under a name no group had is the first of that name.
pub proof fn lemma_first_group_push<V>(a: Seq<(Seq<char>, V)>, k: Seq<char>, v: V)
    requires
        first_group(a, k) is None,
    ensures
        first_group(a.push((k, v)), k) == Some(a.len() as int),
{
    assert(a.push((k, v)).drop_last() =~= a);
}

} // verus!

verus! {

/// A requirement appended after the others is dropped or kept on its own.
pub proof fn lemma_without_name_push(l: Seq<RequirementView>, x: RequirementView, n: Seq<char>)
    ensures
        without_name(l.push(x), n) == without_name(l, n) + if x.0 == n {
            Seq::<RequirementView>::empty()
        } else {
            seq![x]
        },
{
    assert(l.push(x).drop_last() =~= l);
}

/// No requirement left by `without_name` has the name.
pub proof fn lemma_without_name_not_named(l: Seq<RequirementView>, n: Seq<char>)
    ensures
        forall|j: int| 0 <= j < without_name(l, n).len() ==> #[trigger] without_name(l, n)[j].0 != n,
    decreases l.len(),
{
    if l.len() > 0 {
        let init = l.drop_last();
        lemma_without_name_not_named(init, n);
        let a = without_name(init, n);
        let w = without_name(l, n);
        assert forall|j: int| 0 <= j < w.len() implies #[trigger] w[j].0 != n by {
            if j < a.len() {
                assert(w[j] == a[j]);
            } else {
                assert(w[j] == l.last());
            }
        }
    }
}

/// Dropping a name from a list without it leaves the list as it is.
pub proof fn lemma_without_name_absent(l: Seq<RequirementView>, n: Seq<char>)
    requires
        forall|j: int| 0 <= j < l.len() ==> #[trigger] l[j].0 != n,
    ensures
        without_name(l, n) == l,
    decreases l.len(),
{
    if l.len() > 0 {
        let init = l.drop_last();
        assert forall|j: int| 0 <= j < init.len() implies #[trigger] init[j].0 != n by {
            assert(init[j] == l[j]);
        }
        lemma_without_name_absent(init, n);
        assert(l.last() == l[l.len() - 1]);
        assert(init + seq![l.last()] =~= l);
    }
}

/// Dropping a name twice is dropping it once.
pub proof fn lemma_without_name_idempotent(l: Seq<RequirementView>, n: Seq<char>)
    ensures
        without_name(without_name(l, n), n) == without_name(l, n),
{
    lemma_without_name_not_named(l, n);
    lemma_without_name_absent(without_name(l, n), n);
}

} // verus!
