//! The `[tool.huak]` configuration of a `pyproject.toml`.

pub mod build_system;
pub mod dependency;
pub mod main;
pub mod tools;
