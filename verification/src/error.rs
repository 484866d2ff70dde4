//! What can go wrong, and how it is reported to the operator.

use crate::text::{join2, join3};
use vstd::prelude::*;
use vstd::string::*;

verus! {

/// Why a hook declaration is refused.
#[derive(Clone, Copy, Debug, PartialEq, Eq, Structural)]
pub enum ValidationError {
    /// The name is not a recognized hook event.
    UnsupportedHookType,
    /// Both an inline command and a script path are given.
    ConflictingContentSource,
    /// Neither an inline command nor a script path is given.
    MissingContentSource,
}

/// The commands that work on the hook directory, and so need a repository.
#[derive(Clone, Copy, Debug, PartialEq, Eq, Structural)]
pub enum RepositoryUse {
    /// Installing the declared hooks.
    Build,
    /// Removing hooks.
    Clean,
}

/// A fatal condition; each ends the command that met it.
#[derive(Debug, PartialEq, Eq)]
pub enum Error {
    /// The configuration file does not exist.
    ConfigNotFound { path: String },
    /// The configuration file is not well-formed or has the wrong shape.
    ConfigParseError { reason: String },
    /// No enclosing directory holds a repository, which the command
    /// `during` needs.
    RepositoryNotFound { during: RepositoryUse },
    /// A declared name is not a recognized hook event.
    UnsupportedHookType { name: String },
    /// A hook declares both an inline command and a script path.
    ConflictingContentSource { name: String },
    /// A hook declares neither an inline command nor a script path.
    MissingContentSource { name: String },
    /// The script that a hook refers to does not exist.
    ScriptNotFound { name: String, path: String },
    /// An operation on the file system failed.
    FilesystemError { operation: String, path: String, reason: String },
}

pub enum ErrorView {
    ConfigNotFound { path: Seq<char> },
    ConfigParseError { reason: Seq<char> },
    RepositoryNotFound { during: RepositoryUse },
    UnsupportedHookType { name: Seq<char> },
    ConflictingContentSource { name: Seq<char> },
    MissingContentSource { name: Seq<char> },
    ScriptNotFound { name: Seq<char>, path: Seq<char> },
    FilesystemError { operation: Seq<char>, path: Seq<char>, reason: Seq<char> },
}

impl View for Error {
    type V = ErrorView;

    open spec fn view(&self) -> ErrorView {
        match self {
            Error::ConfigNotFound { path } => ErrorView::ConfigNotFound { path: path@ },
            Error::ConfigParseError { reason } => ErrorView::ConfigParseError { reason: reason@ },
            Error::RepositoryNotFound { during } => ErrorView::RepositoryNotFound {
                during: *during,
            },
            Error::UnsupportedHookType { name } => ErrorView::UnsupportedHookType { name: name@ },
            Error::ConflictingContentSource { name } => ErrorView::ConflictingContentSource {
                name: name@,
            },
            Error::MissingContentSource { name } => ErrorView::MissingContentSource {
                name: name@,
            },
            Error::ScriptNotFound { name, path } => ErrorView::ScriptNotFound {
                name: name@,
                path: path@,
            },
            Error::FilesystemError { operation, path, reason } => ErrorView::FilesystemError {
                operation: operation@,
                path: path@,
                reason: reason@,
            },
        }
    }
}

impl ErrorView {
    /// The error that refusing the hook `name` for the reason `kind` gives.
    pub open spec fn invalid(name: Seq<char>, kind: ValidationError) -> ErrorView {
        match kind {
            ValidationError::UnsupportedHookType => ErrorView::UnsupportedHookType { name },
            ValidationError::ConflictingContentSource => ErrorView::ConflictingContentSource {
                name,
            },
            ValidationError::MissingContentSource => ErrorView::MissingContentSource { name },
        }
    }

    /// The line shown to the operator.
    pub open spec fn message(self) -> Seq<char> {
        match self {
            ErrorView::ConfigNotFound { path } => "config file not found: "@ + path,
            ErrorView::ConfigParseError { reason } => "parsing hookman.toml: "@ + reason,
            ErrorView::RepositoryNotFound { during } => match during {
                RepositoryUse::Build => "not inside a git repository"@,
                RepositoryUse::Clean => "not inside a Git repository"@,
            },
            ErrorView::UnsupportedHookType { name } => "unsupported hook type `"@ + name + "`"@,
            ErrorView::ConflictingContentSource { name } => "hook "@ + name
                + ": either `run` or `script` can be assigned at a time."@,
            ErrorView::MissingContentSource { name } => "hook "@ + name
                + ": you must use either `run` or `script` in the definition."@,
            ErrorView::ScriptNotFound { name, path } => "hook "@ + name + ": script path '"@ + path
                + "' does not exist"@,
            ErrorView::FilesystemError { operation, path, reason } => operation + " `"@ + path
                + "`: "@ + reason,
        }
    }
}

impl Error {
    /// The error for the hook `name`, refused for the reason `kind`.
    pub fn invalid(name: &str, kind: ValidationError) -> (e: Error)
        ensures
            e@ == ErrorView::invalid(name@, kind),
    {
        let name = String::from_str(name);
        match kind {
            ValidationError::UnsupportedHookType => Error::UnsupportedHookType { name },
            ValidationError::ConflictingContentSource => Error::ConflictingContentSource { name },
            ValidationError::MissingContentSource => Error::MissingContentSource { name },
        }
    }

    /// The line shown to the operator.
    pub fn message(&self) -> (line: String)
        ensures
            line@ == self@.message(),
    {
        match self {
            Error::ConfigNotFound { path } => join2("config file not found: ", path.as_str()),
            Error::ConfigParseError { reason } => join2("parsing hookman.toml: ", reason.as_str()),
            Error::RepositoryNotFound { during } => match during {
                RepositoryUse::Build => String::from_str("not inside a git repository"),
                RepositoryUse::Clean => String::from_str("not inside a Git repository"),
            },
            Error::UnsupportedHookType { name } => join3(
                "unsupported hook type `",
                name.as_str(),
                "`",
            ),
            Error::ConflictingContentSource { name } => join3(
                "hook ",
                name.as_str(),
                ": either `run` or `script` can be assigned at a time.",
            ),
            Error::MissingContentSource { name } => join3(
                "hook ",
                name.as_str(),
                ": you must use either `run` or `script` in the definition.",
            ),
            Error::ScriptNotFound { name, path } => {
                let mut line = join3("hook ", name.as_str(), ": script path '");
                line.append(path.as_str());
                line.append("' does not exist");
                line
            },
            Error::FilesystemError { operation, path, reason } => {
                let mut line = join3(operation.as_str(), " `", path.as_str());
                line.append("`: ");
                line.append(reason.as_str());
                line
            },
        }
    }
}

} // verus!
