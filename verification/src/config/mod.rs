//! Project configuration files.

pub mod pyproject;
