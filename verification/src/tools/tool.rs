//! The interface every tool implements.
use vstd::prelude::*;

verus! {

/// A tool the agent can call: a name, a description for the model, and
/// whether it is safe to retry. Executing a tool is the frontend's work;
/// the library states what each tool decides.
pub trait Tool {
    /// Tool name (e.g. "read", "write", "shell").
    fn name(&self) -> &str;

    /// Human-readable description for the model.
    fn description(&self) -> &str;

    /// Whether this tool is safe to retry on transient errors; a tool is
    /// not, unless it says so.
    fn retryable(&self) -> (r: bool)
        default_ensures
            !r,
    {
        false
    }

    /// Reset per-run limits or counters; called before each run.
    fn reset_limits(&mut self) {
    }
}

} // verus!
