//! Error types for the sandbox.
use vstd::prelude::*;
use vstd::string::StringExecFns;
use crate::text::{concat2, debug_str, debug_string, push_str};

verus! {

/// Errors from workspace operations. Paths are held as text.
#[derive(Clone, Debug, PartialEq)]
pub enum WorkspaceError {
    NotFound(String),
    NotADirectory(String),
    PermissionDenied(String),
    Io(String),
    PathEscapesWorkspace(String),
}

/// The message of a workspace error; paths are shown Debug-quoted.
pub open spec fn workspace_error_message(e: WorkspaceError) -> Seq<char> {
    match e {
        WorkspaceError::NotFound(p) => "not found: "@ + debug_str(p@),
        WorkspaceError::NotADirectory(p) => "not a directory: "@ + debug_str(p@),
        WorkspaceError::PermissionDenied(p) => "permission denied: "@ + debug_str(p@),
        WorkspaceError::Io(m) => "i/o error: "@ + m@,
        WorkspaceError::PathEscapesWorkspace(p) => "path escapes workspace: "@ + debug_str(p@),
    }
}

impl WorkspaceError {
    /// The error's message.
    pub fn to_string(&self) -> (r: String)
        ensures
            r@ == workspace_error_message(*self),
    {
        match self {
            WorkspaceError::NotFound(p) => concat2("not found: ", debug_string(p.as_str()).as_str()),
            WorkspaceError::NotADirectory(p) => concat2("not a directory: ", debug_string(p.as_str()).as_str()),
            WorkspaceError::PermissionDenied(p) => concat2("permission denied: ", debug_string(p.as_str()).as_str()),
            WorkspaceError::Io(m) => concat2("i/o error: ", m.as_str()),
            WorkspaceError::PathEscapesWorkspace(p) => concat2("path escapes workspace: ", debug_string(p.as_str()).as_str()),
        }
    }
}

#[verifier::external_type_specification]
#[verifier::external_body]
pub struct ExIoError(std::io::Error);

impl From<std::io::Error> for WorkspaceError {
    /// An I/O error becomes `Io` with the error's text (`std::io::Error`'s
    /// Display); nothing is stated of the text.
    #[verifier::external_body]
    fn from(e: std::io::Error) -> Self {
        WorkspaceError::Io(e.to_string())
    }
}

/// Errors from binary resolution.
#[derive(Clone, Debug, PartialEq)]
pub enum BinaryError {
    NotFound(String),
    NotAllowed(String),
    WhichFailed(String, String),
}

/// The message of a binary error.
pub open spec fn binary_error_message(e: BinaryError) -> Seq<char> {
    match e {
        BinaryError::NotFound(n) => "binary not found: "@ + n@,
        BinaryError::NotAllowed(n) => "binary not allowed: "@ + n@,
        BinaryError::WhichFailed(n, m) => "which failed for '"@ + n@ + "': "@ + m@,
    }
}

impl BinaryError {
    /// The error's message.
    pub fn to_string(&self) -> (r: String)
        ensures
            r@ == binary_error_message(*self),
    {
        match self {
            BinaryError::NotFound(n) => concat2("binary not found: ", n.as_str()),
            BinaryError::NotAllowed(n) => concat2("binary not allowed: ", n.as_str()),
            BinaryError::WhichFailed(n, m) => {
                let mut r = String::new();
                push_str(&mut r, "which failed for '");
                push_str(&mut r, n.as_str());
                push_str(&mut r, "': ");
                push_str(&mut r, m.as_str());
                assert(r@ =~= binary_error_message(*self));
                r
            },
        }
    }
}

/// Errors from shell session commands.
#[derive(Clone, Debug, PartialEq)]
pub enum ShellSessionError {
    MissingCdArgument,
    InvalidExportSyntax(String),
    MissingUnsetArgument,
    InvalidCwd(String),
    ProtectedEnv(String),
}

/// The message of a shell session error.
pub open spec fn shell_session_error_message(e: ShellSessionError) -> Seq<char> {
    match e {
        ShellSessionError::MissingCdArgument => "cd requires a path argument"@,
        ShellSessionError::InvalidExportSyntax(s) => "export requires KEY=value syntax, got: "@ + s@,
        ShellSessionError::MissingUnsetArgument => "unset requires a variable name argument"@,
        ShellSessionError::InvalidCwd(s) => "invalid cwd: "@ + s@,
        ShellSessionError::ProtectedEnv(s) => "protected environment variable cannot be set: "@ + s@,
    }
}

impl ShellSessionError {
    /// The error's message.
    pub fn to_string(&self) -> (r: String)
        ensures
            r@ == shell_session_error_message(*self),
    {
        match self {
            ShellSessionError::MissingCdArgument => String::from_str("cd requires a path argument"),
            ShellSessionError::InvalidExportSyntax(s) => concat2("export requires KEY=value syntax, got: ", s.as_str()),
            ShellSessionError::MissingUnsetArgument => String::from_str("unset requires a variable name argument"),
            ShellSessionError::InvalidCwd(s) => concat2("invalid cwd: ", s.as_str()),
            ShellSessionError::ProtectedEnv(s) => concat2("protected environment variable cannot be set: ", s.as_str()),
        }
    }
}

} // verus!
