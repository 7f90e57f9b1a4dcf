//! The build system of a `[tool.huak]` configuration.
use vstd::prelude::*;
use crate::text::{chars_of, debug_list, debug_strings, extend_chars, string_from_chars, strings_view};

verus! {

/// A build system: what building needs and which backend builds.
#[derive(Clone, Debug)]
pub struct BuildSystem {
    pub requirements: Vec<String>,
    pub backend: String,
}

impl BuildSystem {
    /// What building needs.
    pub closed spec fn spec_requirements(&self) -> Seq<Seq<char>> {
        strings_view(self.requirements@)
    }

    /// The backend that builds.
    pub closed spec fn spec_backend(&self) -> Seq<char> {
        self.backend@
    }

    /// What building needs.
    pub fn requirements(&self) -> (r: &Vec<String>)
        ensures
            strings_view(r@) == self.spec_requirements(),
    {
        &self.requirements
    }

    /// The backend that builds.
    pub fn backend(&self) -> (r: &String)
        ensures
            r@ == self.spec_backend(),
    {
        &self.backend
    }

    /// The `[build-system]` table as text: the requirements in std's
    /// `Debug` format of a list, then the backend.
    pub fn to_string(&self) -> (r: String)
        ensures
            r@ == "[build-system]\nrequires = "@ + debug_list(self.spec_requirements())
                + "\nbuild-backend = \""@ + self.spec_backend() + "\"\n"@,
    {
        let mut out = chars_of("[build-system]\nrequires = ");
        let list = debug_strings(&self.requirements);
        let l = chars_of(list.as_str());
        extend_chars(&mut out, l.as_slice());
        let mid = chars_of("\nbuild-backend = \"");
        extend_chars(&mut out, mid.as_slice());
        let b = chars_of(self.backend.as_str());
        extend_chars(&mut out, b.as_slice());
        let end = chars_of("\"\n");
        extend_chars(&mut out, end.as_slice());
        string_from_chars(out.as_slice())
    }
}

impl Default for BuildSystem {
    /// Huak's own build system: `huak-core>=1.0.0`, built by `huak.core.build.api`.
    fn default() -> (b: BuildSystem)
        ensures
            b.spec_requirements() == seq!["huak-core>=1.0.0"@],
            b.spec_backend() == "huak.core.build.api"@,
    {
        let mut requirements: Vec<String> = Vec::new();
        requirements.push("huak-core>=1.0.0".to_owned());
        assert(strings_view(requirements@) =~= seq!["huak-core>=1.0.0"@]);
        BuildSystem { requirements, backend: "huak.core.build.api".to_owned() }
    }
}

} // verus!
