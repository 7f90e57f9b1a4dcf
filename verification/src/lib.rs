//! Huak: the logic of a Python project manager, verified with Verus.
use vstd::prelude::*;

pub mod text;
pub mod path;
pub mod number;
pub mod error;
pub mod version;
pub mod platform;
pub mod python_environment;
pub mod package;
pub mod project;
pub mod config;
pub mod dependency;
pub mod metadata;
pub mod env;
pub mod sys;
pub mod utils;
pub mod fs;
pub mod workspace;
pub mod ops;
pub mod pyproject;

verus! {

} // verus!
