//! The confirmation prompt for risky tool calls: its text and buttons, and
//! how the wait for the user's answer ends.
use vstd::prelude::*;
use vstd::string::StringExecFns;
use crate::text::push_str;
use crate::tools::confirmation::{ConfirmationDecision, ConfirmationRequest};

verus! {

/// The text and button data of a confirmation prompt.
#[derive(Debug, PartialEq, Eq)]
pub struct ConfirmationPrompt {
    pub text: String,
    pub approve_data: String,
    pub deny_data: String,
}

/// What the prompt shows: the label, and the arguments in a code block
/// when there are any.
pub open spec fn prompt_label(label: Seq<char>, arguments: Option<Seq<char>>) -> Seq<char> {
    match arguments {
        Some(a) => label + "\n```\n"@ + a + "\n```"@,
        None => label,
    }
}

/// The confirmation prompt for a request: "Allow this action?" over the
/// label, with an approve button and a deny button carrying the id.
pub fn confirmation_prompt(request: &ConfirmationRequest) -> (r: ConfirmationPrompt)
    ensures
        r.text@ == "\u{26A0}\u{FE0F} Allow this action?\n\n"@ + prompt_label(request.label@,
            match request.arguments { Some(a) => Some(a@), None => None }),
        r.approve_data@ == "approve:"@ + request.confirmation_id@,
        r.deny_data@ == "deny:"@ + request.confirmation_id@,
{
    let mut text = String::from_str("\u{26A0}\u{FE0F} Allow this action?\n\n");
    push_str(&mut text, request.label.as_str());
    if let Some(a) = &request.arguments {
        push_str(&mut text, "\n```\n");
        push_str(&mut text, a.as_str());
        push_str(&mut text, "\n```");
    }
    let mut approve_data = String::from_str("approve:");
    push_str(&mut approve_data, request.confirmation_id.as_str());
    let mut deny_data = String::from_str("deny:");
    push_str(&mut deny_data, request.confirmation_id.as_str());
    ConfirmationPrompt { text, approve_data, deny_data }
}

/// How the wait for the user's answer ended.
#[derive(Debug, Clone, Copy, PartialEq, Eq)]
pub enum ConfirmationWait {
    /// The confirmation could not be registered (a run is not active or
    /// another confirmation is pending).
    NotRegistered,
    /// The prompt could not be sent.
    PromptFailed,
    /// The user answered.
    Answered(bool),
    /// The answer channel was dropped without an answer.
    Dropped,
    /// No answer came in time.
    TimedOut,
}

/// The decision a wait gives: only an approval approves; no answer in time
/// is a timeout; anything else denies.
pub open spec fn wait_decision(w: ConfirmationWait) -> ConfirmationDecision {
    match w {
        ConfirmationWait::Answered(true) => ConfirmationDecision::Approved,
        ConfirmationWait::TimedOut => ConfirmationDecision::Timeout,
        _ => ConfirmationDecision::Denied,
    }
}

/// The decision a wait gives (see `wait_decision`); the frontend also
/// forgets the pending confirmation when the prompt failed or timed out.
pub fn confirmation_decision(w: ConfirmationWait) -> (r: ConfirmationDecision)
    ensures
        r == wait_decision(w),
{
    match w {
        ConfirmationWait::Answered(true) => ConfirmationDecision::Approved,
        ConfirmationWait::TimedOut => ConfirmationDecision::Timeout,
        _ => ConfirmationDecision::Denied,
    }
}

} // verus!
