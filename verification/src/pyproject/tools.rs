//! The `[tool]` table and Huak's section of it.
use vstd::prelude::*;
use crate::text::strings_view;

verus! {

/// Huak's section of the `[tool]` table.
#[derive(Clone, Debug)]
pub struct Huak {
    pub name: String,
    pub version: String,
    pub description: String,
    pub authors: Vec<String>,
    /// Dependencies as pairs of a name and a version.
    pub dependencies: Vec<(String, String)>,
    /// Development dependencies as pairs of a name and a version.
    pub dev_dependencies: Vec<(String, String)>,
}

impl Default for Huak {
    /// An unnamed project at version `0.0.1` with nothing else.
    fn default() -> (h: Huak)
        ensures
            h.name@ == Seq::<char>::empty(),
            h.version@ == "0.0.1"@,
            h.description@ == Seq::<char>::empty(),
            h.authors@.len() == 0,
            h.dependencies@.len() == 0,
            h.dev_dependencies@.len() == 0,
    {
        Huak {
            name: String::new(),
            version: "0.0.1".to_owned(),
            description: String::new(),
            authors: Vec::new(),
            dependencies: Vec::new(),
            dev_dependencies: Vec::new(),
        }
    }
}

/// The `[tool]` table.
#[derive(Clone, Debug)]
pub struct Tool {
    pub huak: Huak,
}

impl Tool {
    /// A table holding Huak's default section.
    pub fn new() -> (t: Tool)
        ensures
            t.huak.name@ == Seq::<char>::empty(),
            t.huak.version@ == "0.0.1"@,
            t.huak.description@ == Seq::<char>::empty(),
            t.huak.authors@.len() == 0,
            t.huak.dependencies@.len() == 0,
            t.huak.dev_dependencies@.len() == 0,
    {
        Tool { huak: Huak::default() }
    }

    /// Huak's section.
    pub fn huak(&self) -> (r: &Huak)
        ensures
            *r == self.huak,
    {
        &self.huak
    }

    /// Replace Huak's section.
    pub fn set_huak(&mut self, huak: Huak)
        ensures
            final(self).huak == huak,
    {
        self.huak = huak;
    }
}

} // verus!
