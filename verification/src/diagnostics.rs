//! The typed error surface of the configuration subsystem.

use vstd::prelude::*;

verus! {

/// A condition raised while reading, writing or decoding a configuration
/// file.
#[derive(Debug)]
pub enum ConfigurationDiagnostic {
    /// A record held a key outside its recognized set; carries the key.
    UnknownKey(String),
    /// A recognized key held a value of the wrong shape; carries the key.
    TypeMismatch(String),
    /// The text is not a well-formed document.
    Malformed,
    /// A configuration file already sits where one was to be created.
    AlreadyExists,
    /// An in-memory configuration could not be turned into text.
    SerializationError,
}

/// The mathematical shape of a diagnostic.
#[verifier::ext_equal]
pub enum DiagnosticSpec {
    UnknownKey(Seq<char>),
    TypeMismatch(Seq<char>),
    Malformed,
    AlreadyExists,
    SerializationError,
}

impl View for ConfigurationDiagnostic {
    type V = DiagnosticSpec;

    open spec fn view(&self) -> DiagnosticSpec {
        match self {
            ConfigurationDiagnostic::UnknownKey(k) => DiagnosticSpec::UnknownKey(k@),
            ConfigurationDiagnostic::TypeMismatch(k) => DiagnosticSpec::TypeMismatch(k@),
            ConfigurationDiagnostic::Malformed => DiagnosticSpec::Malformed,
            ConfigurationDiagnostic::AlreadyExists => DiagnosticSpec::AlreadyExists,
            ConfigurationDiagnostic::SerializationError => DiagnosticSpec::SerializationError,
        }
    }
}

impl ConfigurationDiagnostic {
    pub fn new_already_exists() -> (r: ConfigurationDiagnostic)
        ensures
            r@ == DiagnosticSpec::AlreadyExists,
    {
        ConfigurationDiagnostic::AlreadyExists
    }

    pub fn new_serialization_error() -> (r: ConfigurationDiagnostic)
        ensures
            r@ == DiagnosticSpec::SerializationError,
    {
        ConfigurationDiagnostic::SerializationError
    }
}

/// An error that crosses the subsystem boundary.
#[derive(Debug)]
pub enum WorkspaceError {
    /// A diagnostic from decoding or writing the configuration.
    Configuration(ConfigurationDiagnostic),
    /// A file could not be opened or read; carries the path's textual form.
    CantReadFile(String),
}

#[verifier::ext_equal]
pub enum WorkspaceErrorSpec {
    Configuration(DiagnosticSpec),
    CantReadFile(Seq<char>),
}

impl View for WorkspaceError {
    type V = WorkspaceErrorSpec;

    open spec fn view(&self) -> WorkspaceErrorSpec {
        match self {
            WorkspaceError::Configuration(d) => WorkspaceErrorSpec::Configuration(d@),
            WorkspaceError::CantReadFile(p) => WorkspaceErrorSpec::CantReadFile(p@),
        }
    }
}

impl WorkspaceError {
    pub fn cant_read_file(path: String) -> (r: WorkspaceError)
        ensures
            r@ == WorkspaceErrorSpec::CantReadFile(path@),
    {
        WorkspaceError::CantReadFile(path)
    }
}

} // verus!
