//! The contents of a `pyproject.toml`: its build system and project tables.
use vstd::prelude::*;
use super::build_system::{BuildSystem, BuildSystemBuilder};
use super::project::{without_prefixed, DependencyGroups, Project, ProjectBuilder, retain_without_prefix};
use crate::text::strings_view;

verus! {

/// A `pyproject.toml`.
#[derive(Debug)]
pub struct Toml {
    pub build_system: BuildSystem,
    pub project: Project,
}

impl Default for Toml {
    /// The default build system and project tables.
    fn default() -> (t: Toml)
        ensures
            strings_view(t.build_system.requirements@) == seq!["hatchling"@],
            t.project.version matches Some(v) && v@ == "0.0.1"@,
            t.project.dependencies matches Some(d) && d@.len() == 0,
            t.project.optional_dependencies is None,
            t.project.scripts is None,
            t.project.name@ == Seq::<char>::empty(),
    {
        Toml { build_system: BuildSystemBuilder::default(), project: ProjectBuilder::default() }
    }
}

/// Two tables that differ at most in their dependency lists.
pub open spec fn same_but_lists(a: Toml, b: Toml) -> bool {
    &&& a.build_system == b.build_system
    &&& a.project.name == b.project.name
    &&& a.project.version == b.project.version
    &&& a.project.description == b.project.description
    &&& a.project.scripts == b.project.scripts
}

impl Toml {
    /// Append a dependency to the project's dependencies (creating the list when absent).
    pub fn add_dependency(&mut self, dependency: &str)
        ensures
            final(self).project.dependencies matches Some(d) && strings_view(d@) == match old(self).project.dependencies {
                Some(o) => strings_view(o@).push(dependency@),
                None => seq![dependency@],
            },
            final(self).project.optional_dependencies == old(self).project.optional_dependencies,
            final(self).project.name == old(self).project.name,
            same_but_lists(*final(self), *old(self)),
    {
        let mut list: Vec<String> = match &self.project.dependencies {
            Some(d) => crate::text::clone_strings(d),
            None => Vec::new(),
        };
        let ghost before = strings_view(list@);
        list.push(dependency.to_owned());
        assert(strings_view(list@) =~= before.push(dependency@));
        self.project.dependencies = Some(list);
    }

    /// Append a dependency to an optional dependency group (creating the
    /// group, or the groups, when absent).
    pub fn add_optional_dependency(&mut self, group: &str, dependency: &str)
        ensures
            final(self).project.optional_dependencies matches Some(g) && forall|k: Seq<char>| #[trigger] g.group(k) == if k == group@ {
                Some(match old(self).project.optional_dependencies {
                    Some(og) => match og.group(group@) {
                        Some(l) => l.push(dependency@),
                        None => seq![dependency@],
                    },
                    None => seq![dependency@],
                })
            } else {
                match old(self).project.optional_dependencies {
                    Some(og) => og.group(k),
                    None => None,
                }
            },
            final(self).project.dependencies == old(self).project.dependencies,
            same_but_lists(*final(self), *old(self)),
    {
        match &mut self.project.optional_dependencies {
            Some(g) => {
                g.push(group, dependency);
            },
            None => {
                let mut groups = DependencyGroups::new();
                groups.push(group, dependency);
                self.project.optional_dependencies = Some(groups);
            },
        }
    }

    /// Drop every dependency starting with `dependency`, from the project's
    /// dependencies and from every optional dependency group.
    pub fn remove_dependency(&mut self, dependency: &str)
        ensures
            match old(self).project.dependencies {
                Some(o) => final(self).project.dependencies matches Some(d)
                    && strings_view(d@) == without_prefixed(strings_view(o@), dependency@),
                None => final(self).project.dependencies is None,
            },
            match old(self).project.optional_dependencies {
                Some(og) => final(self).project.optional_dependencies matches Some(g)
                    && forall|k: Seq<char>| #[trigger] g.group(k) == match og.group(k) {
                        Some(l) => Some(without_prefixed(l, dependency@)),
                        None => None::<Seq<Seq<char>>>,
                    },
                None => final(self).project.optional_dependencies is None,
            },
            same_but_lists(*final(self), *old(self)),
    {
        match &self.project.dependencies {
            Some(d) => {
                let kept = retain_without_prefix(d, dependency);
                self.project.dependencies = Some(kept);
            },
            None => {},
        }
        match &mut self.project.optional_dependencies {
            Some(g) => {
                g.retain_not_starting_with(dependency);
            },
            None => {},
        }
    }
}

} // verus!
