//! The `[build-system]` table of a `pyproject.toml`.
use vstd::prelude::*;
use crate::text::strings_view;

verus! {

/// The build system of a project: what building needs (its `requires`
/// key) and which backend builds.
#[derive(Clone, Debug)]
pub struct BuildSystem {
    pub requirements: Vec<String>,
    pub build_backend: Option<String>,
    pub backend_path: Option<Vec<String>>,
}

/// Builds Huak's default build system.
#[derive(Clone, Copy, Debug)]
pub struct BuildSystemBuilder {}

impl BuildSystemBuilder {
    /// The default build system: `hatchling`, built by `hatchling.build`.
    pub fn default() -> (b: BuildSystem)
        ensures
            strings_view(b.requirements@) == seq!["hatchling"@],
            b.build_backend matches Some(s) && s@ == "hatchling.build"@,
            b.backend_path is None,
    {
        let mut requirements: Vec<String> = Vec::new();
        requirements.push("hatchling".to_owned());
        assert(strings_view(requirements@) =~= seq!["hatchling"@]);
        BuildSystem { requirements, build_backend: Some("hatchling.build".to_owned()), backend_path: None }
    }
}

} // verus!
