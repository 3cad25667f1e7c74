//! Persistent memory (the contents of `MEMORY.md` files) and its section of
//! the system prompt.
use vstd::prelude::*;
use vstd::string::StringExecFns;
use crate::text::{concat2, join, join_strings, views};

verus! {

/// Loaded persistent memory from `MEMORY.md` files.
#[derive(Clone, Debug)]
pub struct PersistentMemory {
    /// Content from the workspace root `MEMORY.md` (if present).
    pub workspace_memory: Option<String>,
    /// Content from the channel/session-specific `MEMORY.md` (if present).
    pub channel_memory: Option<String>,
    /// The path used to load workspace memory.
    pub workspace_path: String,
}

/// The sections of the memory prompt: the session memory first, then the
/// workspace memory, each present only when loaded.
pub open spec fn memory_sections(m: PersistentMemory) -> Seq<Seq<char>> {
    let channel = match m.channel_memory {
        Some(t) => seq!["## Session Memory\n"@ + t@],
        None => Seq::empty(),
    };
    let workspace = match m.workspace_memory {
        Some(t) => seq!["## Workspace Memory\n"@ + t@],
        None => Seq::empty(),
    };
    channel + workspace
}

/// Format persistent memory for the system prompt: the sections separated
/// by a blank line.
pub fn format_memory_for_prompt(memory: &PersistentMemory) -> (r: String)
    ensures
        r@ == join(memory_sections(*memory), "\n\n"@),
{
    let mut parts: Vec<String> = Vec::new();
    if let Some(text) = &memory.channel_memory {
        parts.push(concat2("## Session Memory\n", text.as_str()));
    }
    if let Some(text) = &memory.workspace_memory {
        parts.push(concat2("## Workspace Memory\n", text.as_str()));
    }
    assert(views(parts@) =~= memory_sections(*memory));
    join_strings(&parts, "\n\n")
}

} // verus!
