//! Dependency tables of a `[tool.huak]` configuration.
use vstd::prelude::*;
use crate::text::{chars_of, extend_chars, str_eq, string_from_chars};

verus! {

/// The two kinds of dependency tables.
#[derive(Clone, Copy, Debug, PartialEq, Eq, Structural)]
pub enum DependencyKind {
    Main,
    Dev,
}

/// The kind a text names: `dev` for development dependencies, anything else main ones.
pub fn match_dependency_kind(kind: &str) -> (r: DependencyKind)
    ensures
        r == if kind@ == "dev"@ { DependencyKind::Dev } else { DependencyKind::Main },
{
    if str_eq(kind, "dev") {
        DependencyKind::Dev
    } else {
        DependencyKind::Main
    }
}

/// A dependency: a name and a version.
#[derive(Clone, Debug)]
pub struct Dependency {
    name: String,
    version: String,
}

/// The line of a dependency in its table: `name = "version"`.
pub open spec fn dependency_line(name: Seq<char>, version: Seq<char>) -> Seq<char> {
    name + " = \""@ + version + "\""@
}

impl Dependency {
    /// The dependency's name.
    pub closed spec fn spec_name(&self) -> Seq<char> {
        self.name@
    }

    /// The dependency's version.
    pub closed spec fn spec_version(&self) -> Seq<char> {
        self.version@
    }

    /// A dependency from its name and version.
    pub fn new(name: String, version: String) -> (d: Dependency)
        ensures
            d.spec_name() == name@,
            d.spec_version() == version@,
    {
        Dependency { name, version }
    }

    /// The dependency's name.
    pub fn name(&self) -> (r: &String)
        ensures
            r@ == self.spec_name(),
    {
        &self.name
    }

    /// The dependency's version.
    pub fn version(&self) -> (r: &String)
        ensures
            r@ == self.spec_version(),
    {
        &self.version
    }

    /// The dependency's line in its table (see `dependency_line`).
    pub fn to_string(&self) -> (r: String)
        ensures
            r@ == dependency_line(self.spec_name(), self.spec_version()),
    {
        let mut out = chars_of(self.name.as_str());
        let a = chars_of(" = \"");
        extend_chars(&mut out, a.as_slice());
        let v = chars_of(self.version.as_str());
        extend_chars(&mut out, v.as_slice());
        let b = chars_of("\"");
        extend_chars(&mut out, b.as_slice());
        string_from_chars(out.as_slice())
    }
}

/// A dependency table: its kind and its dependencies.
#[derive(Clone, Debug)]
pub struct Dependencies {
    kind: DependencyKind,
    list: Vec<Dependency>,
}

/// The header of a table of the given kind.
pub open spec fn table_header(kind: DependencyKind) -> Seq<char> {
    match kind {
        DependencyKind::Main => "[tool.huak.dependencies]\n"@,
        DependencyKind::Dev => "[tool.huak.dev-dependencies]\n"@,
    }
}

/// The lines of a table's dependencies, each ending with a line break.
pub open spec fn dependency_lines(list: Seq<Dependency>) -> Seq<char>
    decreases list.len(),
{
    if list.len() == 0 {
        Seq::empty()
    } else {
        dependency_lines(list.drop_last()) + dependency_line(list.last().spec_name(), list.last().spec_version()) + "\n"@
    }
}

impl Dependencies {
    /// The kind of the table.
    pub closed spec fn spec_kind(&self) -> DependencyKind {
        self.kind
    }

    /// The dependencies of the table.
    pub closed spec fn spec_list(&self) -> Seq<Dependency> {
        self.list@
    }

    /// An empty table of the kind a text names.
    pub fn new(kind: &str) -> (d: Dependencies)
        ensures
            d.spec_kind() == if kind@ == "dev"@ { DependencyKind::Dev } else { DependencyKind::Main },
            d.spec_list().len() == 0,
    {
        Dependencies { kind: match_dependency_kind(kind), list: Vec::new() }
    }

    /// The kind of the table.
    pub fn kind(&self) -> (r: &DependencyKind)
        ensures
            *r == self.spec_kind(),
    {
        &self.kind
    }

    /// Set the kind of the table from a text.
    pub fn set_kind(&mut self, kind: &str)
        ensures
            final(self).spec_kind() == if kind@ == "dev"@ { DependencyKind::Dev } else { DependencyKind::Main },
            final(self).spec_list() == old(self).spec_list(),
    {
        self.kind = match_dependency_kind(kind);
    }

    /// The dependencies of the table.
    pub fn list(&self) -> (r: &Vec<Dependency>)
        ensures
            r@ == self.spec_list(),
    {
        &self.list
    }

    /// Append a dependency to the table.
    pub fn add_dependency(&mut self, dependency: Dependency)
        ensures
            final(self).spec_list() == old(self).spec_list().push(dependency),
            final(self).spec_kind() == old(self).spec_kind(),
    {
        self.list.push(dependency);
    }

    /// The text of the table: its header, then one line per dependency.
    pub fn to_string(&self) -> (r: String)
        ensures
            r@ == table_header(self.spec_kind()) + dependency_lines(self.spec_list()),
    {
        let header = match self.kind {
            DependencyKind::Main => "[tool.huak.dependencies]\n",
            DependencyKind::Dev => "[tool.huak.dev-dependencies]\n",
        };
        let mut out = chars_of(header);
        let ghost h = out@;
        let mut i: usize = 0;
        while i < self.list.len()
            invariant
                i <= self.list@.len(),
                out@ == h + dependency_lines(self.list@.take(i as int)),
            decreases self.list@.len() - i,
        {
            proof {
                assert(self.list@.take(i + 1).drop_last() =~= self.list@.take(i as int));
            }
            let line = self.list[i].to_string();
            let lc = chars_of(line.as_str());
            extend_chars(&mut out, lc.as_slice());
            let nl = chars_of("\n");
            extend_chars(&mut out, nl.as_slice());
            i = i + 1;
        }
        assert(self.list@.take(self.list@.len() as int) =~= self.list@);
        string_from_chars(out.as_slice())
    }
}

impl Default for Dependencies {
    /// An empty table of main dependencies.
    fn default() -> (d: Dependencies)
        ensures
            d.spec_kind() == DependencyKind::Main,
            d.spec_list().len() == 0,
    {
        Dependencies { kind: DependencyKind::Main, list: Vec::new() }
    }
}

} // verus!
