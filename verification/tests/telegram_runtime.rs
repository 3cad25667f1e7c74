use duga::telegram::auth::CallbackAction;
use duga::telegram::runtime::{
    chat_system_prompt, confirmation_tools, normalize_tool_message_sequence, prompt_extras,
    restore_history, run_failed, run_reply,
};
use duga::runtime::message::{ContentBlock, Message, Role};
use duga::telegram::safety::{confirmation_decision, confirmation_prompt, ConfirmationWait};
use duga::telegram::session::{already_running_text, CallbackEffect, CancelEffects, SessionManager};
use duga::tools::confirmation::{ConfirmationDecision, ConfirmationRequest};

fn assistant_with_tool_calls(tool_names: &[&str]) -> Message {
    Message {
        role: Role::Assistant,
        content: tool_names.iter().map(|n| ContentBlock::ToolCall(n.to_string())).collect(),
        name: None,
    }
}

fn assistant_text(text: &str) -> Message {
    Message { role: Role::Assistant, content: vec![ContentBlock::Text(text.into())], name: None }
}

fn tool_msg(output: &str) -> Message {
    Message { role: Role::Tool, content: vec![ContentBlock::Text(output.into())], name: None }
}

fn user_msg(text: &str) -> Message {
    Message { role: Role::User, content: vec![ContentBlock::Text(text.into())], name: None }
}

fn system_msg(text: &str) -> Message {
    Message { role: Role::System, content: vec![ContentBlock::Text(text.into())], name: None }
}

#[test]
fn normalize_preserves_valid_tool_sequence() {
    let messages = vec![
        user_msg("run command"),
        assistant_with_tool_calls(&["bash"]),
        tool_msg("output"),
        assistant_text("done"),
    ];
    let result = normalize_tool_message_sequence(messages);
    assert_eq!(result.len(), 4);
    assert_eq!(result[0].role, Role::User);
    assert_eq!(result[1].role, Role::Assistant);
    assert_eq!(result[2].role, Role::Tool);
    assert_eq!(result[3].role, Role::Assistant);
}

#[test]
fn normalize_drops_orphaned_tool_at_start() {
    let messages = vec![tool_msg("orphaned output"), user_msg("continue"), assistant_text("ok")];
    let result = normalize_tool_message_sequence(messages);
    assert_eq!(result.len(), 2);
    assert_eq!(result[0].role, Role::User);
    assert_eq!(result[1].role, Role::Assistant);
}

#[test]
fn normalize_drops_orphaned_tool_after_text_assistant() {
    let messages = vec![
        user_msg("hello"),
        assistant_text("how can I help?"),
        tool_msg("orphaned"),
        user_msg("next"),
    ];
    let result = normalize_tool_message_sequence(messages);
    assert_eq!(result.len(), 3);
    assert_eq!(result[0].role, Role::User);
    assert_eq!(result[1].role, Role::Assistant);
    assert_eq!(result[2].role, Role::User);
}

#[test]
fn normalize_preserves_multiple_tool_results() {
    let messages = vec![
        user_msg("do two things"),
        assistant_with_tool_calls(&["bash", "read"]),
        tool_msg("bash output"),
        tool_msg("read output"),
        assistant_text("both done"),
    ];
    let result = normalize_tool_message_sequence(messages);
    assert_eq!(result.len(), 5);
    assert_eq!(result[2].role, Role::Tool);
    assert_eq!(result[3].role, Role::Tool);
}

#[test]
fn restored_history_drops_system_windows_and_normalizes() {
    let messages = vec![
        system_msg("old prompt"),
        user_msg("one"),
        assistant_with_tool_calls(&["bash"]),
        tool_msg("out"),
        user_msg("two"),
        assistant_text("done"),
    ];
    let h = restore_history(messages.clone(), 0).unwrap();
    assert_eq!(h.len(), 5);
    assert_eq!(h[0].role, Role::User);
    // A window of three starts at the tool message, which is then orphaned.
    let h = restore_history(messages.clone(), 3).unwrap();
    let roles: Vec<Role> = h.iter().map(|m| m.role).collect();
    assert_eq!(roles, vec![Role::User, Role::Assistant]);
    assert!(restore_history(vec![], 5).is_none());
    assert!(restore_history(vec![system_msg("x")], 5).is_none());
    assert!(restore_history(vec![tool_msg("x")], 0).is_none());
}

#[test]
fn system_prompt_extras_skip_empty_sections() {
    assert_eq!(prompt_extras("", ""), "");
    assert_eq!(prompt_extras("## Available Skills", ""), "## Available Skills\n\n");
    assert_eq!(prompt_extras("", "## Workspace Memory"), "## Workspace Memory\n\n");
    assert_eq!(prompt_extras("S", "M"), "S\n\nM\n\n");
}

#[test]
fn chat_system_prompt_sections() {
    let p = chat_system_prompt(-100123, "EXTRAS\n\n", "ENV", "GUIDE", "STRATEGIES");
    assert!(p.starts_with("You are duga, a safe coding agent operating through Telegram.\nChat ID: -100123\n\n## Skills\n"));
    assert!(p.contains("Chat-specific skills in `<chat_id>/skills/`.\n\nEXTRAS\n\nENV\n\nGUIDE\n\nSTRATEGIES\n\nWhen facing"));
    assert!(p.contains("use the `think` tool first to plan your approach"));
    assert!(p.contains("Be concise — Telegram messages have length limits."));
    assert!(p.ends_with("instead of dumping file content into a text message."));
}

#[test]
fn shell_confirmation_dropped_when_all_binaries_allowed() {
    let configured: Vec<String> = vec!["shell".into(), "write".into(), "bash".into(), "edit".into()];
    assert_eq!(confirmation_tools(&configured, false), configured);
    assert_eq!(confirmation_tools(&configured, true), vec!["write".to_string(), "edit".to_string()]);
}

#[test]
fn run_reply_names_non_default_loop() {
    assert_eq!(run_reply(Some("hi".into()), "simple_react"), "hi");
    assert_eq!(run_reply(Some("hi".into()), "plan_execute"), "hi\n\n⟳ via *plan_execute* loop");
    assert_eq!(run_reply(None, "simple_react"), "");
    assert_eq!(run_failed("boom"), "Agent run failed: boom");
}

#[test]
fn session_allows_one_run_per_chat() {
    let mut m = SessionManager::new();
    assert_eq!(m.status(1), "No active run.");
    assert_eq!(m.memory_summary(1), "No memory for this chat yet.");
    assert!(!m.start_run(1));
    assert!(m.start_run(1));
    assert!(!m.start_run(2));
    assert_eq!(m.status(1), "Active run in progress.");
    assert_eq!(m.memory_summary(1), "Memory is active for this chat.");
    m.finish_run(1);
    assert_eq!(m.status(1), "No active run.");
    assert!(!m.start_run(1));
    assert_eq!(already_running_text(), "⚠️ A task is already running. Use /stop to cancel it.");
}

#[test]
fn session_confirmation_lifecycle() {
    let mut m = SessionManager::new();
    assert!(!m.set_pending_confirmation(5, "c1".into()));
    m.start_run(5);
    assert!(m.set_pending_confirmation(5, "c1".into()));
    assert!(!m.set_pending_confirmation(5, "c2".into()));
    assert_eq!(m.handle_callback(5, CallbackAction::Approve("other".into())), CallbackEffect::Ignore);
    assert_eq!(
        m.handle_callback(5, CallbackAction::Deny("c1".into())),
        CallbackEffect::Resolve { approved: false }
    );
    assert_eq!(m.handle_callback(5, CallbackAction::Deny("c1".into())), CallbackEffect::Ignore);
    assert!(m.set_pending_confirmation(5, "c3".into()));
    assert!(!m.clear_pending_confirmation(5, "c1"));
    assert!(m.clear_pending_confirmation(5, "c3"));
    assert_eq!(m.handle_callback(5, CallbackAction::Unknown("x".into())), CallbackEffect::ReplyUnknown);
}

#[test]
fn session_cancel_denies_pending_confirmation() {
    let mut m = SessionManager::new();
    assert_eq!(m.cancel(9), CancelEffects { cancel_run: false, deny_confirmation: None });
    m.start_run(9);
    m.set_pending_confirmation(9, "c9".into());
    assert_eq!(m.cancel(9), CancelEffects { cancel_run: true, deny_confirmation: Some("c9".into()) });
    let s = m.session(9).unwrap();
    assert!(s.cancelled);
    assert!(s.pending_confirmation.is_none());
    assert!(s.active);
}

#[test]
fn confirmation_prompt_text_and_buttons() {
    let req = ConfirmationRequest {
        confirmation_id: "abc-123".into(),
        tool_name: "shell".into(),
        label: "Run dangerous command".into(),
        arguments: Some("rm -rf /".into()),
    };
    let p = confirmation_prompt(&req);
    assert_eq!(p.text, "⚠️ Allow this action?\n\nRun dangerous command\n```\nrm -rf /\n```");
    assert_eq!(p.approve_data, "approve:abc-123");
    assert_eq!(p.deny_data, "deny:abc-123");
    let req2 = ConfirmationRequest { arguments: None, ..req };
    assert_eq!(confirmation_prompt(&req2).text, "⚠️ Allow this action?\n\nRun dangerous command");
    assert_eq!(confirmation_decision(ConfirmationWait::Answered(true)), ConfirmationDecision::Approved);
    assert_eq!(confirmation_decision(ConfirmationWait::Answered(false)), ConfirmationDecision::Denied);
    assert_eq!(confirmation_decision(ConfirmationWait::Dropped), ConfirmationDecision::Denied);
    assert_eq!(confirmation_decision(ConfirmationWait::NotRegistered), ConfirmationDecision::Denied);
    assert_eq!(confirmation_decision(ConfirmationWait::PromptFailed), ConfirmationDecision::Denied);
    assert_eq!(confirmation_decision(ConfirmationWait::TimedOut), ConfirmationDecision::Timeout);
}
