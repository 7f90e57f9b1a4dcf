//! The `pyproject.toml` file: its build system and project tables.

pub mod build_system;
pub mod project;
pub mod toml;
