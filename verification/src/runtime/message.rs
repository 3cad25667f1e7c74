//! Conversation messages, as far as the runtime's logic reads them.
use vstd::prelude::*;

verus! {

/// Who wrote a message.
#[derive(Debug, Clone, Copy, PartialEq, Eq, Structural)]
pub enum Role {
    System,
    User,
    Assistant,
    Tool,
}

/// A part of a message: text, or a call of the named tool.
#[derive(Debug, Clone)]
pub enum ContentBlock {
    Text(String),
    ToolCall(String),
}

/// A message of a conversation, as far as the history logic reads it.
#[derive(Debug, Clone)]
pub struct Message {
    pub role: Role,
    pub content: Vec<ContentBlock>,
    /// The tool's name, for a tool result.
    pub name: Option<String>,
}

} // verus!
