//! Python environments: virtual environments, the interpreters they run,
//! and the commands run in them.

pub mod python_environment;
pub mod runner;
pub mod system;
pub mod venv;
