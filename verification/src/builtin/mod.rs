//! Built-in tools: what each decides, apart from the I/O it performs.
pub mod bash;
pub mod delegate;
pub mod edit;
pub mod skill_install;
pub mod skill_list;
pub mod skill_remove;
pub mod think;
pub mod read;
pub mod write;
pub mod search;
pub mod registry;
