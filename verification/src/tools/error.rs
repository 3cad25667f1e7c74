//! Errors a tool call can end in.
use vstd::prelude::*;

verus! {

/// Why a tool call failed; the variants but the last two carry a message.
#[derive(Clone, Debug, PartialEq)]
pub enum ToolError {
    /// The arguments were rejected.
    InvalidArgs(String),
    /// The call was refused (by policy or by the user).
    Denied(String),
    /// An I/O operation failed.
    Io(String),
    /// The call ran out of time.
    Timeout,
    /// The call was cancelled.
    Cancelled,
}

} // verus!
