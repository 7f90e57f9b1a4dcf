//! The `[project]` table of a `pyproject.toml`.
use vstd::prelude::*;
use indexmap::IndexMap;
use crate::metadata::{first_group, lemma_first_group};
use crate::error::Error;
use crate::package::spec_package;
use crate::project::project_file::{add_to_dependency_list, remove_from_dependency_list, spec_added, spec_removed};
use crate::text::{chars_of, starts_with, str_eq, strings_view};

verus! {

/// Groups as pairs of a group name and its dependency texts.
pub open spec fn groups_view(g: Seq<(String, Vec<String>)>) -> Seq<(Seq<char>, Seq<Seq<char>>)> {
    g.map_values(|e: (String, Vec<String>)| (e.0@, strings_view(e.1@)))
}

/// No two groups share a name.
pub open spec fn keys_distinct(e: Seq<(Seq<char>, Seq<Seq<char>>)>) -> bool {
    forall|i: int, j: int| 0 <= i < j < e.len() ==> #[trigger] e[i].0 != #[trigger] e[j].0
}

/// The dependencies of the group named `k`.
pub open spec fn lookup(e: Seq<(Seq<char>, Seq<Seq<char>>)>, k: Seq<char>) -> Option<Seq<Seq<char>>>
    decreases e.len(),
{
    if e.len() == 0 {
        None
    } else if e.last().0 == k {
        Some(e.last().1)
    } else {
        lookup(e.drop_last(), k)
    }
}

/// With distinct names, a group is found where it stands, and a name that
/// no group has finds nothing.
pub proof fn lemma_lookup(e: Seq<(Seq<char>, Seq<Seq<char>>)>, k: Seq<char>)
    requires
        keys_distinct(e),
    ensures
        forall|i: int| 0 <= i < e.len() && #[trigger] e[i].0 == k ==> lookup(e, k) == Some(e[i].1),
        (forall|i: int| 0 <= i < e.len() ==> #[trigger] e[i].0 != k) ==> lookup(e, k) is None,
    decreases e.len(),
{
    if e.len() > 0 {
        let init = e.drop_last();
        assert(keys_distinct(init)) by {
            assert forall|i: int, j: int| 0 <= i < j < init.len() implies #[trigger] init[i].0 != #[trigger] init[j].0 by {
                assert(init[i] == e[i] && init[j] == e[j]);
            }
        }
        lemma_lookup(init, k);
        assert forall|i: int| 0 <= i < e.len() && #[trigger] e[i].0 == k implies lookup(e, k) == Some(e[i].1) by {
            if i < e.len() - 1 {
                assert(e[i] == init[i]);
                assert(e[i].0 != e[e.len() - 1].0);
            }
        }
        if forall|i: int| 0 <= i < e.len() ==> #[trigger] e[i].0 != k {
            assert forall|i: int| 0 <= i < init.len() implies #[trigger] init[i].0 != k by {
                assert(init[i] == e[i]);
            }
        }
    }
}

/// The `indexmap` crate's map, which keeps its entries in the order their
/// keys were first inserted.
#[verifier::external_type_specification]
#[verifier::external_body]
#[verifier::reject_recursive_types(K)]
#[verifier::reject_recursive_types(V)]
#[verifier::reject_recursive_types(S)]
pub struct ExIndexMap<K, V, S>(IndexMap<K, V, S>);

/// What an `IndexMap` of group names to dependency texts holds: its entries
/// in order, as pairs of a name and its texts.
pub uninterp spec fn text_group_entries(m: IndexMap<String, Vec<String>>) -> Seq<(Seq<char>, Seq<Seq<char>>)>;

/// An empty map (`IndexMap::new`).
#[verifier::external_body]
fn new_group_map() -> (m: IndexMap<String, Vec<String>>)
    ensures
        text_group_entries(m) == Seq::<(Seq<char>, Seq<Seq<char>>)>::empty(),
{
    IndexMap::new()
}

/// The number of entries of a map (`IndexMap::len`).
#[verifier::external_body]
fn group_map_len(m: &IndexMap<String, Vec<String>>) -> (n: usize)
    ensures
        n == text_group_entries(*m).len(),
{
    m.len()
}

/// The entry at position `i` of a map, if there is one (`IndexMap::get_index`).
#[verifier::external_body]
fn group_map_entry(m: &IndexMap<String, Vec<String>>, i: usize) -> (r: Option<(&String, &Vec<String>)>)
    ensures
        match r {
            Some(e) => i < text_group_entries(*m).len() && text_group_entries(*m)[i as int] == (e.0@, strings_view(e.1@)),
            None => i >= text_group_entries(*m).len(),
        },
{
    m.get_index(i)
}

/// Set the texts of a name in a map (`IndexMap::insert`): an entry with
/// that name keeps its place and takes the new texts; otherwise the entry is
/// added last.
#[verifier::external_body]
fn group_map_insert(m: &mut IndexMap<String, Vec<String>>, name: String, texts: Vec<String>)
    ensures
        text_group_entries(*final(m)) == match first_group(text_group_entries(*old(m)), name@) {
            Some(i) => text_group_entries(*old(m)).update(i, (name@, strings_view(texts@))),
            None => text_group_entries(*old(m)).push((name@, strings_view(texts@))),
        },
{
    m.insert(name, texts);
}

/// Optional dependency groups: group names mapped to lists of dependency texts.
#[derive(Debug)]
pub struct DependencyGroups {
    groups: IndexMap<String, Vec<String>>,
}

impl View for DependencyGroups {
    type V = Seq<(Seq<char>, Seq<Seq<char>>)>;

    closed spec fn view(&self) -> Seq<(Seq<char>, Seq<Seq<char>>)> {
        text_group_entries(self.groups)
    }
}

/// The position of the group named `group`, or none.
fn find_group(groups: &IndexMap<String, Vec<String>>, group: &str) -> (r: Option<usize>)
    ensures
        match r {
            Some(i) => i < text_group_entries(*groups).len() && text_group_entries(*groups)[i as int].0 == group@,
            None => forall|i: int| 0 <= i < text_group_entries(*groups).len() ==> #[trigger] text_group_entries(*groups)[i].0 != group@,
        },
{
    let ghost e = text_group_entries(*groups);
    let n = group_map_len(groups);
    let mut i: usize = 0;
    while i < n
        invariant
            e == text_group_entries(*groups),
            n == e.len(),
            i <= n,
            forall|j: int| 0 <= j < i ==> #[trigger] e[j].0 != group@,
        decreases n - i,
    {
        match group_map_entry(groups, i) {
            Some((k, _)) => {
                if str_eq(k.as_str(), group) {
                    return Some(i);
                }
            },
            None => {},
        }
        i = i + 1;
    }
    None
}

impl DependencyGroups {
    #[verifier::type_invariant]
    spec fn inv(self) -> bool {
        keys_distinct(text_group_entries(self.groups))
    }

    /// The dependencies of the group named `k`, if there is such a group.
    pub open spec fn group(&self, k: Seq<char>) -> Option<Seq<Seq<char>>> {
        lookup(self@, k)
    }

    /// No groups.
    pub fn new() -> (g: DependencyGroups)
        ensures
            g@.len() == 0,
            forall|k: Seq<char>| #[trigger] g.group(k) is None,
    {
        DependencyGroups { groups: new_group_map() }
    }

    /// The dependencies of a group, if it exists.
    pub fn get(&self, group: &str) -> (r: Option<&Vec<String>>)
        ensures
            match r {
                Some(v) => self.group(group@) == Some(strings_view(v@)),
                None => self.group(group@) is None,
            },
    {
        proof {
            use_type_invariant(self);
            lemma_lookup(self@, group@);
        }
        match find_group(&self.groups, group) {
            Some(i) => match group_map_entry(&self.groups, i) {
                Some((_, v)) => Some(v),
                None => None,
            },
            None => None,
        }
    }

    /// The number of groups.
    pub fn len(&self) -> (n: usize)
        ensures
            n == self@.len(),
    {
        group_map_len(&self.groups)
    }

    /// The groups, in order, as pairs of a name and its dependencies.
    pub fn entries(&self) -> (r: Vec<(String, Vec<String>)>)
        ensures
            groups_view(r@) == self@,
    {
        let ghost e = self@;
        let n = group_map_len(&self.groups);
        let mut r: Vec<(String, Vec<String>)> = Vec::new();
        let mut i: usize = 0;
        while i < n
            invariant
                e == text_group_entries(self.groups),
                n == e.len(),
                i <= n,
                r@.len() == i,
                forall|j: int| 0 <= j < i ==> #[trigger] groups_view(r@)[j] == e[j],
            decreases n - i,
        {
            match group_map_entry(&self.groups, i) {
                Some((k, v)) => {
                    let ghost before = r@;
                    r.push((k.clone(), crate::text::clone_strings(v)));
                    proof {
                        assert forall|j: int| 0 <= j < i + 1 implies #[trigger] groups_view(r@)[j] == e[j] by {
                            if j < i {
                                assert(r@[j] == before[j]);
                                assert(groups_view(before)[j] == e[j]);
                            }
                        }
                    }
                },
                None => {},
            }
            i = i + 1;
        }
        assert(groups_view(r@) =~= e);
        r
    }

    /// The names of the groups, in order.
    pub fn names(&self) -> (r: Vec<String>)
        ensures
            r@.len() == self@.len(),
            forall|i: int| 0 <= i < r@.len() ==> #[trigger] r@[i]@ == self@[i].0,
    {
        let ghost e = self@;
        let n = group_map_len(&self.groups);
        let mut r: Vec<String> = Vec::new();
        let mut i: usize = 0;
        while i < n
            invariant
                e == text_group_entries(self.groups),
                n == e.len(),
                i <= n,
                r@.len() == i,
                forall|j: int| 0 <= j < i ==> #[trigger] r@[j]@ == e[j].0,
            decreases n - i,
        {
            match group_map_entry(&self.groups, i) {
                Some((k, _)) => {
                    r.push(k.clone());
                },
                None => {},
            }
            i = i + 1;
        }
        r
    }

    /// Set the dependencies of a group, creating it when absent.
    pub fn insert(&mut self, group: &str, dependencies: Vec<String>)
        ensures
            forall|k: Seq<char>| #[trigger] final(self).group(k) == if k == group@ {
                Some(strings_view(dependencies@))
            } else {
                old(self).group(k)
            },
    {
        proof { use_type_invariant(&*self); }
        let mut groups = new_group_map();
        std::mem::swap(&mut groups, &mut self.groups);
        let ghost before = text_group_entries(groups);
        proof {
            lemma_lookup(before, group@);
            lemma_first_group(before, group@);
        }
        let ghost new_entry = (group@, strings_view(dependencies@));
        let ghost pos: int;
        match find_group(&groups, group) {
            Some(i) => {
                proof { pos = i as int; }
            },
            None => {
                proof { pos = before.len() as int; }
            },
        }
        let ghost deps_view = strings_view(dependencies@);
        group_map_insert(&mut groups, group.to_owned(), dependencies);
        let ghost after = text_group_entries(groups);
        proof {
            if pos < before.len() {
                let m = first_group(before, group@).unwrap();
                if m != pos {
                    assert(before[m].0 != before[pos].0);
                }
                assert(after == before.update(pos, new_entry));
            } else {
                assert(after == before.push(new_entry));
            }
        }
        proof {
            assert(0 <= pos < after.len());
            assert(after[pos] == new_entry);
            assert(forall|j: int| 0 <= j < after.len() && j != pos ==> #[trigger] after[j] == before[j]);
            assert(forall|j: int| 0 <= j < before.len() && j != pos ==> #[trigger] before[j].0 != group@);
            assert(keys_distinct(after)) by {
                assert forall|a: int, b: int| 0 <= a < b < after.len() implies #[trigger] after[a].0 != #[trigger] after[b].0 by {
                    if a != pos && b != pos {
                        assert(after[a] == before[a] && after[b] == before[b]);
                    } else if a == pos {
                        assert(after[b] == before[b]);
                    } else {
                        assert(after[a] == before[a]);
                    }
                }
            }
            assert forall|k: Seq<char>| #[trigger] lookup(after, k) == if k == group@ {
                Some(strings_view(dependencies@))
            } else {
                lookup(before, k)
            } by {
                lemma_lookup(after, k);
                lemma_lookup(before, k);
                if k == group@ {
                    assert(after[pos].0 == k);
                } else if exists|j: int| 0 <= j < before.len() && before[j].0 == k {
                    let j = choose|j: int| 0 <= j < before.len() && before[j].0 == k;
                    assert(j != pos);
                    assert(after[j] == before[j]);
                } else {
                    assert forall|j: int| 0 <= j < after.len() implies #[trigger] after[j].0 != k by {
                        if j != pos {
                            assert(after[j] == before[j]);
                        }
                    }
                }
            }
        }
        self.groups = groups;
    }

    /// Append a dependency to a group, creating the group when absent.
    pub fn push(&mut self, group: &str, dependency: &str)
        ensures
            forall|k: Seq<char>| #[trigger] final(self).group(k) == if k == group@ {
                Some(match old(self).group(group@) {
                    Some(l) => l.push(dependency@),
                    None => seq![dependency@],
                })
            } else {
                old(self).group(k)
            },
    {
        let mut list: Vec<String> = match self.get(group) {
            Some(v) => crate::text::clone_strings(v),
            None => Vec::new(),
        };
        let ghost old_list = strings_view(list@);
        list.push(dependency.to_owned());
        proof {
            assert(strings_view(list@) =~= old_list.push(dependency@));
            assert(old_list.push(dependency@) == match old(self).group(group@) {
                Some(l) => l.push(dependency@),
                None => seq![dependency@],
            });
        }
        self.insert(group, list);
    }

    /// Add a dependency to an existing group (see `add_to_dependency_list`);
    /// a group that does not exist is created holding just the dependency.
    pub fn add_to_group(&mut self, group: &str, dependency: &str) -> (r: Result<(), Error>)
        ensures
            match old(self).group(group@) {
                None => r is Ok && forall|k: Seq<char>| #[trigger] final(self).group(k) == if k == group@ {
                    Some(seq![dependency@])
                } else {
                    old(self).group(k)
                },
                Some(l) => match spec_package(dependency@) {
                    Err(m) => (r matches Err(Error::PyPackageInitalizationError(e)) && e@ == m)
                        && forall|k: Seq<char>| #[trigger] final(self).group(k) == old(self).group(k),
                    Ok(p) => r is Ok && forall|k: Seq<char>| #[trigger] final(self).group(k) == if k == group@ {
                        Some(spec_added(l, dependency@, p.0))
                    } else {
                        old(self).group(k)
                    },
                },
            },
    {
        match self.get(group) {
            Some(v) => {
                let mut list = crate::text::clone_strings(v);
                match add_to_dependency_list(&mut list, dependency) {
                    Ok(()) => {
                        self.insert(group, list);
                        Ok(())
                    },
                    Err(e) => Err(e),
                }
            },
            None => {
                let mut list: Vec<String> = Vec::new();
                list.push(dependency.to_owned());
                assert(strings_view(list@) =~= seq![dependency@]);
                self.insert(group, list);
                Ok(())
            },
        }
    }

    /// Remove a dependency from a group (see `remove_from_dependency_list`);
    /// nothing happens when the group does not exist.
    pub fn remove_from_group(&mut self, group: &str, dependency: &str) -> (r: Result<(), Error>)
        ensures
            match old(self).group(group@) {
                None => r is Ok && forall|k: Seq<char>| #[trigger] final(self).group(k) == old(self).group(k),
                Some(l) => match spec_package(dependency@) {
                    Err(m) => (r matches Err(Error::PyPackageInitalizationError(e)) && e@ == m)
                        && forall|k: Seq<char>| #[trigger] final(self).group(k) == old(self).group(k),
                    Ok(p) => r is Ok && forall|k: Seq<char>| #[trigger] final(self).group(k) == if k == group@ {
                        Some(spec_removed(l, p.0))
                    } else {
                        old(self).group(k)
                    },
                },
            },
    {
        match self.get(group) {
            Some(v) => {
                let mut list = crate::text::clone_strings(v);
                match remove_from_dependency_list(&mut list, dependency) {
                    Ok(()) => {
                        self.insert(group, list);
                        Ok(())
                    },
                    Err(e) => Err(e),
                }
            },
            None => Ok(()),
        }
    }

    /// Drop, from every group, the dependencies that start with `prefix`.
    pub fn retain_not_starting_with(&mut self, prefix: &str)
        ensures
            forall|k: Seq<char>| #[trigger] final(self).group(k) == match old(self).group(k) {
                Some(l) => Some(without_prefixed(l, prefix@)),
                None => None::<Seq<Seq<char>>>,
            },
    {
        proof { use_type_invariant(&*self); }
        let mut groups = new_group_map();
        std::mem::swap(&mut groups, &mut self.groups);
        let ghost before = text_group_entries(groups);
        let n = group_map_len(&groups);
        let mut out = new_group_map();
        let mut i: usize = 0;
        while i < n
            invariant
                before == text_group_entries(groups),
                n == before.len(),
                keys_distinct(before),
                i <= n,
                text_group_entries(out).len() == i,
                forall|j: int| 0 <= j < i ==> #[trigger] text_group_entries(out)[j] == (before[j].0, without_prefixed(before[j].1, prefix@)),
            decreases n - i,
        {
            let ghost out_before = text_group_entries(out);
            match group_map_entry(&groups, i) {
                Some((k, v)) => {
                    let kept = retain_without_prefix(v, prefix);
                    let name = k.clone();
                    proof {
                        assert(name@ == before[i as int].0);
                        assert forall|j: int| 0 <= j < out_before.len() implies #[trigger] out_before[j].0 != name@ by {
                            assert(out_before[j].0 == before[j].0);
                            assert(before[j].0 != before[i as int].0);
                        }
                        lemma_first_group(out_before, name@);
                    }
                    group_map_insert(&mut out, name, kept);
                    proof {
                        assert(text_group_entries(out) == out_before.push((before[i as int].0, without_prefixed(before[i as int].1, prefix@))));
                    }
                },
                None => {},
            }
            i = i + 1;
        }
        let ghost after = text_group_entries(out);
        proof {
            assert(keys_distinct(after)) by {
                assert forall|a: int, b: int| 0 <= a < b < after.len() implies #[trigger] after[a].0 != #[trigger] after[b].0 by {
                    assert(after[a].0 == before[a].0);
                    assert(after[b].0 == before[b].0);
                }
            }
            assert forall|k: Seq<char>| #[trigger] lookup(after, k) == match lookup(before, k) {
                Some(l) => Some(without_prefixed(l, prefix@)),
                None => None::<Seq<Seq<char>>>,
            } by {
                lemma_lookup(after, k);
                lemma_lookup(before, k);
                if exists|j: int| 0 <= j < before.len() && before[j].0 == k {
                    let j = choose|j: int| 0 <= j < before.len() && before[j].0 == k;
                    assert(after[j].0 == k);
                } else {
                    assert forall|j: int| 0 <= j < after.len() implies #[trigger] after[j].0 != k by {
                        assert(after[j].0 == before[j].0);
                    }
                }
            }
        }
        self.groups = out;
    }
}

/// The entries of `l` that do not start with `prefix`, in order.
pub open spec fn without_prefixed(l: Seq<Seq<char>>, prefix: Seq<char>) -> Seq<Seq<char>>
    decreases l.len(),
{
    if l.len() == 0 {
        l
    } else {
        let init = without_prefixed(l.drop_last(), prefix);
        if starts_with(l.last(), prefix) {
            init
        } else {
            init.push(l.last())
        }
    }
}

/// The entries of `list` that do not start with `prefix`.
pub fn retain_without_prefix(list: &Vec<String>, prefix: &str) -> (r: Vec<String>)
    ensures
        strings_view(r@) == without_prefixed(strings_view(list@), prefix@),
{
    let p = chars_of(prefix);
    let ghost l = strings_view(list@);
    let mut r: Vec<String> = Vec::new();
    let mut i: usize = 0;
    while i < list.len()
        invariant
            p@ == prefix@,
            l == strings_view(list@),
            i <= list@.len(),
            strings_view(r@) == without_prefixed(l.take(i as int), prefix@),
        decreases list@.len() - i,
    {
        let e = chars_of(list[i].as_str());
        proof {
            assert(l.take(i + 1).drop_last() =~= l.take(i as int));
            assert(l.take(i + 1).last() == list@[i as int]@);
        }
        let starts = p.len() <= e.len() && crate::text::occurs_at_exec(e.as_slice(), p.as_slice(), 0);
        assert(starts == starts_with(e@, p@));
        if !starts {
            let ghost before = strings_view(r@);
            r.push(list[i].clone());
            assert(strings_view(r@) =~= before.push(list@[i as int]@));
        }
        i = i + 1;
    }
    assert(l.take(list@.len() as int) =~= l);
    r
}

/// The `[project]` table: the values Huak reads and writes.
#[derive(Debug)]
pub struct Project {
    pub name: String,
    pub version: Option<String>,
    pub description: Option<String>,
    pub dependencies: Option<Vec<String>>,
    pub optional_dependencies: Option<DependencyGroups>,
    /// Scripts as pairs of a name and an entry point.
    pub scripts: Option<Vec<(String, String)>>,
}

/// Builds Huak's default project table.
#[derive(Clone, Copy, Debug)]
pub struct ProjectBuilder {}

impl ProjectBuilder {
    /// The default project: no name, version `0.0.1`, an empty description,
    /// no dependencies and no optional dependency groups.
    pub fn default() -> (p: Project)
        ensures
            p.name@ == Seq::<char>::empty(),
            p.version matches Some(v) && v@ == "0.0.1"@,
            p.description matches Some(d) && d@ == Seq::<char>::empty(),
            p.dependencies matches Some(d) && d@.len() == 0,
            p.optional_dependencies is None,
            p.scripts is None,
    {
        let name = String::new();
        Project {
            name,
            version: Some("0.0.1".to_owned()),
            description: Some(String::new()),
            dependencies: Some(Vec::new()),
            optional_dependencies: None,
            scripts: None,
        }
    }
}

} // verus!

verus! {

/// Dropping the entries that start with a prefix keeps, in order, exactly
/// the entries that do not: none that is left starts with the prefix.
pub proof fn lemma_without_prefixed(l: Seq<Seq<char>>, prefix: Seq<char>)
    ensures
        forall|i: int| 0 <= i < without_prefixed(l, prefix).len() ==> !starts_with(#[trigger] without_prefixed(l, prefix)[i], prefix),
        without_prefixed(l, prefix).len() <= l.len(),
        (forall|i: int| 0 <= i < l.len() ==> !starts_with(#[trigger] l[i], prefix)) ==> without_prefixed(l, prefix) == l,
    decreases l.len(),
{
    if l.len() > 0 {
        let init = l.drop_last();
        lemma_without_prefixed(init, prefix);
        let w = without_prefixed(l, prefix);
        let wi = without_prefixed(init, prefix);
        assert forall|i: int| 0 <= i < w.len() implies !starts_with(#[trigger] w[i], prefix) by {
            if i < wi.len() {
                assert(w[i] == wi[i]);
            }
        }
        if forall|i: int| 0 <= i < l.len() ==> !starts_with(#[trigger] l[i], prefix) {
            assert forall|i: int| 0 <= i < init.len() implies !starts_with(#[trigger] init[i], prefix) by {
                assert(init[i] == l[i]);
            }
            assert(!starts_with(l[l.len() - 1], prefix));
            assert(init.push(l.last()) =~= l);
        }
    }
}

} // verus!
