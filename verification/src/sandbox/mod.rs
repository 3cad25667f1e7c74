//! Sandbox policy: binary allowlist, environment filtering, shell session
//! state, workspace path resolution and process output formatting.
pub mod binary_registry;
pub mod env;
pub mod error;
pub mod exec;
pub mod executor;
pub mod shell_session;
pub mod workspace;
