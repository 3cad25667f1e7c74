use duga::runtime::message::{ContentBlock, Message, Role};
use duga::runtime::summarizer::{
    extract_message_text, fallback_summary, find_existing_summary, format_messages_for_summarization,
    format_role, summary_outcome, summary_request,
};

fn text_msg(role: Role, text: &str) -> Message {
    Message { role, content: vec![ContentBlock::Text(text.to_string())], name: None }
}

#[test]
fn format_messages_basic() {
    let messages = vec![
        text_msg(Role::User, "search for Portuguese citizenship law"),
        text_msg(Role::Assistant, "I'll fetch the Lei da Nacionalidade..."),
    ];
    let result = format_messages_for_summarization(&messages);
    assert!(result.contains("[user]: search for Portuguese citizenship law"));
    assert!(result.contains("[assistant]: I'll fetch the Lei da Nacionalidade..."));
}

#[test]
fn format_messages_truncates_long() {
    let long = "A".repeat(600);
    let messages = vec![text_msg(Role::User, &long)];
    let result = format_messages_for_summarization(&messages);
    assert!(result.contains("...(truncated)"));
    assert!(result.len() < 600 + 50);
}

#[test]
fn format_messages_skips_empty() {
    let messages = vec![Message { role: Role::Tool, content: vec![], name: None }];
    let result = format_messages_for_summarization(&messages);
    assert!(result.is_empty());
}

#[test]
fn find_existing_summary_detects_summary_prefix() {
    let messages = vec![text_msg(Role::Assistant, "Summary:\n- topic A\n- finding B")];
    let result = find_existing_summary(&messages);
    assert!(result.is_some());
    assert!(result.unwrap().contains("topic A"));
}

#[test]
fn find_existing_summary_returns_none_when_absent() {
    let messages = vec![text_msg(Role::User, "hello")];
    assert!(find_existing_summary(&messages).is_none());
}

#[test]
fn format_role_includes_tool_name() {
    let msg = Message { role: Role::Tool, content: vec![ContentBlock::Text("output".into())], name: Some("bash".into()) };
    assert_eq!(format_role(&msg), "tool: bash");
}

#[test]
fn fallback_summary_produces_role_labels() {
    let messages = vec![text_msg(Role::User, "task"), text_msg(Role::Assistant, "reply")];
    let summary = fallback_summary(&messages);
    assert!(summary.contains("Compressed context:"));
    assert!(summary.contains("user"));
    assert!(summary.contains("assistant"));
}

#[test]
fn summary_prompts_and_outcomes() {
    assert_eq!(summary_request(&[]), None);
    let messages = vec![text_msg(Role::User, "hi")];
    let req = summary_request(&messages).unwrap();
    assert!(req.starts_with("Summarize the following conversation history in 3-5 bullet points."));
    assert!(req.ends_with("no preamble.\n\n[user]: hi\n"));
    let with_summary = vec![text_msg(Role::Assistant, "Notes. Summary: old stuff"), text_msg(Role::User, "more")];
    assert_eq!(find_existing_summary(&with_summary), Some("Summary: old stuff".to_string()));
    let req = summary_request(&with_summary).unwrap();
    assert!(req.starts_with("Previous summary:\nSummary: old stuff\n\nNew messages to incorporate:"));
    assert_eq!(summary_outcome(&messages, Some("  - point\n".into())), "- point");
    assert_eq!(summary_outcome(&messages, Some("   ".into())), "Compressed context:\n- user");
    assert_eq!(summary_outcome(&messages, Some("x".repeat(2001))), "Compressed context:\n- user");
    assert_eq!(summary_outcome(&messages, None), "Compressed context:\n- user");
    assert_eq!(summary_outcome(&[], None), "");
    let multi = Message {
        role: Role::Assistant,
        content: vec![ContentBlock::Text("a".into()), ContentBlock::ToolCall("bash".into()), ContentBlock::Text("b".into())],
        name: None,
    };
    assert_eq!(extract_message_text(&multi), "a\nb");
}

#[test]
fn format_messages_cuts_on_characters() {
    // 301 characters, over 500 bytes: kept whole.
    let accented = format!("a{}", "é".repeat(300));
    let result = format_messages_for_summarization(&[text_msg(Role::User, &accented)]);
    assert_eq!(result, format!("[user]: {accented}\n"));

    // 600 characters: cut to the first 500.
    let long = "é".repeat(600);
    let result = format_messages_for_summarization(&[text_msg(Role::User, &long)]);
    assert_eq!(result, format!("[user]: {}...(truncated)\n", "é".repeat(500)));
}
