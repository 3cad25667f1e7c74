//! Tool system: the tool interface, the confirmation policy that gates tool
//! calls, and the dispatcher's error reporting.
pub mod confirmation;
pub mod dispatcher;
pub mod error;
pub mod erased;
pub mod tool;
pub mod schema;
pub mod reply;
