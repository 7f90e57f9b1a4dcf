//! Errors of the workspace-level operations.
use vstd::prelude::*;

verus! {

/// The errors Huak's operations report.  Errors raised by outside tools
/// (argument parsing, git, I/O, TOML, regular expressions) are reported by
/// the application around the library; the library reports these.
#[derive(Debug)]
pub enum Error {
    BuildOptionsMissingError,
    DirectoryExists(String),
    HuakConfigurationError(String),
    InternalError(String),
    InvalidVersionString(String),
    DependencyFromStringError(String),
    PEP440Error(String),
    ProjectManifestNotFoundError,
    ProjectManifestExistsError,
    PythonNotFoundError,
    UnimplementedError(String),
    VenvInvalidConfigFileError(String),
    PythonEnvironmentNotFoundError,
    PyVenvNotFoundError,
    PyModuleMissingError(String),
    WorkspaceNotFoundError,
    PyPackageInitalizationError(String),
    PyPackageInvalidVersionOperator(String),
    PyPackageInvalidVersion(String),
    PyPackageVersionSpecifierError,
    PyProjectTomlExistsError,
    PyProjectFileNotFound,
    PyProjectVersionNotFound,
    RegexError(String),
}

/// The result type of Huak's operations.
pub type HuakResult<T> = Result<T, Error>;

} // verus!
