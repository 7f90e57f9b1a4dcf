//! The `[tool.huak]` table of a configuration.
use vstd::prelude::*;
use crate::text::{chars_of, extend_chars, pretty_debug_list, pretty_debug_strings, string_from_chars, strings_view};

verus! {

/// A project's name, version, description and authors.
#[derive(Clone, Debug)]
pub struct Main {
    pub name: String,
    pub version: String,
    pub description: String,
    pub authors: Vec<String>,
}

impl Main {
    /// The `[tool.huak]` table as text: the name, version and description
    /// quoted, then the authors in std's alternate `Debug` format of a list.
    pub fn to_string(&self) -> (r: String)
        ensures
            r@ == "[tool.huak]\nname = \""@ + self.name@ + "\"\nversion = \""@ + self.version@
                + "\"\ndescription = \""@ + self.description@ + "\"\nauthors = "@
                + pretty_debug_list(strings_view(self.authors@)) + "\n"@,
    {
        let mut out = chars_of("[tool.huak]\nname = \"");
        let name = chars_of(self.name.as_str());
        extend_chars(&mut out, name.as_slice());
        let v = chars_of("\"\nversion = \"");
        extend_chars(&mut out, v.as_slice());
        let version = chars_of(self.version.as_str());
        extend_chars(&mut out, version.as_slice());
        let d = chars_of("\"\ndescription = \"");
        extend_chars(&mut out, d.as_slice());
        let description = chars_of(self.description.as_str());
        extend_chars(&mut out, description.as_slice());
        let a = chars_of("\"\nauthors = ");
        extend_chars(&mut out, a.as_slice());
        let list = pretty_debug_strings(&self.authors);
        let l = chars_of(list.as_str());
        extend_chars(&mut out, l.as_slice());
        let nl = chars_of("\n");
        extend_chars(&mut out, nl.as_slice());
        assert(out@ =~= "[tool.huak]\nname = \""@ + self.name@ + "\"\nversion = \""@ + self.version@
            + "\"\ndescription = \""@ + self.description@ + "\"\nauthors = "@
            + pretty_debug_list(strings_view(self.authors@)) + "\n"@);
        string_from_chars(out.as_slice())
    }
}

} // verus!
