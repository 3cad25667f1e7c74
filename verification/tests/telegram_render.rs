use duga::telegram::api_types::{api_reply_error, InputRichMessage};
use duga::runtime::events::FrontendEvent;
use duga::telegram::render::{
    build_final_text, build_process_draft_html, fallback_chunks, final_delivery,
    finalize_summary, format_finish_label, format_step_label, start_text, EventRenderer,
    FinalDelivery, RenderAction,
};

#[test]
fn test_label_format_with_description() {
    assert_eq!(format_step_label("shell", "ls -la", 1), "🔧 shell: ls -la");
    assert_eq!(format_finish_label("read", "Reading config", true), "✅ read: Reading config");
    assert_eq!(
        format_finish_label("search", "Searching for error", false),
        "❌ search: Searching for error"
    );
}

#[test]
fn test_label_format_fallback_when_description_equals_tool_name() {
    assert_eq!(format_step_label("shell", "shell", 1), "🔧 shell");
    assert_eq!(format_finish_label("shell", "shell", true), "✅ shell");
    assert_eq!(format_finish_label("shell", "shell", false), "❌ shell");
}

#[test]
fn test_label_format_with_empty_description() {
    assert_eq!(format_step_label("shell", "", 1), "🔧 shell");
    assert_eq!(format_finish_label("tool", "", true), "✅ tool");
    assert_eq!(format_finish_label("tool", "", false), "❌ tool");
}

#[test]
fn test_label_format_with_retry() {
    assert_eq!(format_step_label("write", "Writing file", 3), "🔧 write: Writing file (attempt 3)");
    assert_eq!(format_step_label("write", "write", 3), "🔧 write (attempt 3)");
}

#[test]
fn test_label_format_success() {
    assert_eq!(format_finish_label("read", "Reading config", true), "✅ read: Reading config");
}

#[test]
fn test_label_format_failure() {
    assert_eq!(
        format_finish_label("search", "Searching for error", false),
        "❌ search: Searching for error"
    );
}

#[test]
fn test_label_format_backward_compat_no_description() {
    assert_eq!(format_finish_label("tool", "", true), "✅ tool");
    assert_eq!(format_finish_label("tool", "", false), "❌ tool");
}

fn started(name: &str, id: &str, attempt: u32, description: &str) -> FrontendEvent {
    FrontendEvent::ToolCallStarted {
        tool_name: name.to_string(),
        tool_call_id: id.to_string(),
        attempt,
        description: description.to_string(),
    }
}

fn finished(name: &str, id: &str, success: bool, description: &str) -> FrontendEvent {
    FrontendEvent::ToolCallFinished {
        tool_name: name.to_string(),
        tool_call_id: id.to_string(),
        success,
        attempt: 1,
        description: description.to_string(),
    }
}

#[test]
fn test_label_replacement_start_to_finish() {
    let mut r = EventRenderer::new();
    r.on_event(started("shell", "call_1", 1, "ls"));
    assert_eq!(r.labels()[0], "🔧 shell: ls");
    r.on_event(finished("shell", "call_1", true, "ls"));
    assert_eq!(r.labels()[0], "✅ shell: ls");
    assert_eq!(r.labels().len(), 1, "still one line, not two");

    r.on_event(started("read", "call_2", 1, "Reading config"));
    r.on_event(finished("read", "call_2", false, "Reading config"));
    assert_eq!(r.labels()[1], "❌ read: Reading config");
    assert_eq!(r.labels().len(), 2, "two tools, two lines");
}

#[test]
fn process_text_excludes_thinking_and_delta() {
    let labels: Vec<String> = vec!["✅ shell: ls".into(), "✅ read: config".into()];
    let text = build_process_draft_html(&labels, None);
    assert!(text.contains("🔄 Processing… (2 steps)"));
    assert!(text.contains("✅ shell: ls"));
    assert!(text.contains("✅ read: config"));
    assert!(!text.contains("💭"));
    assert!(!text.contains("Thinking"));
    assert!(!text.contains("reasoning"));
}

#[test]
fn process_text_with_error() {
    let labels: Vec<String> = vec![];
    let text = build_process_draft_html(&labels, Some("LLM timeout"));
    assert!(text.contains("⚠️ Error: LLM timeout"));
    assert!(text.contains("🔄 Processing… (0 steps)"));
}

#[test]
fn process_text_collapses_labels_over_five() {
    let labels: Vec<String> = (0..6).map(|i| format!("✅ tool_{i}")).collect();
    let text = build_process_draft_html(&labels, None);
    assert!(text.contains("<blockquote expandable>"));
    assert!(text.contains("✅ tool_0"));
    assert!(text.contains("✅ tool_5"));
    let outside: String = text.split("<blockquote").next().unwrap().to_string();
    assert!(!outside.contains("✅ tool_"));
}

#[test]
fn process_text_no_labels_under_six_not_collapsed() {
    let labels: Vec<String> = vec!["✅ shell".into(), "✅ read".into()];
    let text = build_process_draft_html(&labels, None);
    assert!(!text.contains("<blockquote"));
}

#[test]
fn final_text_includes_thinking_when_present() {
    let mut thinking = "Let me analyze this step by step…".to_string();
    let result = build_final_text(Some("The answer is 42.".into()), &mut thinking);
    let text = result.unwrap();
    assert!(text.contains("💭 *Thinking*"));
    assert!(text.contains("Let me analyze this step by step…"));
    assert!(text.contains("The answer is 42."));
    assert!(thinking.is_empty());
}

#[test]
fn final_text_thinking_only_when_answer_missing() {
    let mut thinking = "Reasoning without answer".to_string();
    let result = build_final_text(None, &mut thinking);
    let text = result.unwrap();
    assert!(text.contains("💭 *Thinking*"));
    assert!(text.contains("Reasoning without answer"));
    assert!(!text.contains("\n\n"));
    assert!(thinking.is_empty());
}

#[test]
fn final_text_answer_only_when_no_thinking() {
    let mut thinking = String::new();
    let result = build_final_text(Some("Plain answer".into()), &mut thinking);
    assert_eq!(result.unwrap(), "Plain answer");
}

#[test]
fn final_text_none_when_both_missing() {
    let mut thinking = String::new();
    let result = build_final_text(None, &mut thinking);
    assert!(result.is_none());
}

#[test]
fn final_text_thinking_does_not_leak_into_process_text() {
    let labels: Vec<String> = vec!["✅ shell: ls".into()];
    let text = build_process_draft_html(&labels, None);
    assert!(!text.contains("💭"));
    assert!(!text.contains("Thinking"));
    assert!(!text.contains("think"));
}

#[test]
fn renderer_full_flow_keeps_reasoning_out_of_progress() {
    let mut r = EventRenderer::new();
    match r.on_event(FrontendEvent::RunStarted { task: "test task".into() }) {
        RenderAction::Start { text } => assert_eq!(text, "🔄 Processing: test task"),
        other => panic!("unexpected {other:?}"),
    }
    assert!(matches!(
        r.on_event(FrontendEvent::LlmThinkingDelta { model: "test".into(), delta: "hidden reasoning".into() }),
        RenderAction::Nothing
    ));
    assert!(matches!(r.on_event(started("think", "think_1", 1, "Planning")), RenderAction::Nothing));
    // Think calls are skipped: neither their start nor their finish is shown.
    assert!(matches!(r.on_event(finished("think", "think_1", true, "Planning")), RenderAction::Nothing));
    assert!(matches!(r.on_event(started("shell", "shell_1", 1, "ls")), RenderAction::Redraw));
    assert!(matches!(r.on_event(finished("shell", "shell_1", true, "ls")), RenderAction::Redraw));
    assert!(matches!(
        r.on_event(FrontendEvent::LlmTokenDelta { model: "test".into(), delta: "streaming answer".into() }),
        RenderAction::Nothing
    ));
    let (draft, html) = r.redraw();
    assert!(!html);
    assert_eq!(draft, "🔄 Processing… (1 steps)\n✅ shell: ls");
    assert!(!draft.contains("hidden reasoning"));
    assert!(!draft.contains("streaming answer"));
    match r.on_event(FrontendEvent::RunFinished { text: Some("final answer".into()) }) {
        RenderAction::Finish { answer } => {
            assert_eq!(answer.unwrap(), "💭 *Thinking*\nhidden reasoning\n\nfinal answer")
        }
        other => panic!("unexpected {other:?}"),
    }
    assert_eq!(r.summary(), "✅ Completed in 1 step(s)\n✅ shell: ls");
    assert!(matches!(r.on_event(FrontendEvent::RunStarted { task: "again".into() }), RenderAction::Stop));
}

#[test]
fn renderer_finish_without_start_appends_label() {
    let mut r = EventRenderer::new();
    r.on_event(finished("search", "x", false, "grep"));
    assert_eq!(r.labels(), &["❌ tool: grep".to_string()]);
}

#[test]
fn renderer_retry_and_delegation_labels() {
    let mut r = EventRenderer::new();
    r.on_event(started("write", "w", 2, "Writing file"));
    r.on_event(FrontendEvent::LoopDelegated {
        from: "main".into(),
        to: "coder".into(),
        reason: "needs code".into(),
        depth: 1,
    });
    r.on_event(FrontendEvent::MemoryCompressed { before_tokens: 1200, after_tokens: 300 });
    r.on_event(FrontendEvent::Error { message: "boom".into() });
    assert_eq!(
        r.labels(),
        &[
            "🔧 write: Writing file (attempt 2)".to_string(),
            "🔀 delegated to *coder*: needs code".to_string(),
            "💾 Memory: 1200 → 300 tokens".to_string(),
        ]
    );
    assert_eq!(r.error_message(), Some("boom"));
    let (draft, _) = r.redraw();
    assert!(draft.starts_with("🔄 Processing… (3 steps)\n⚠️ Error: boom\n"));
}

#[test]
fn renderer_summary_with_error_and_many_labels() {
    let labels: Vec<String> = (0..6).map(|i| format!("✅ t{i}")).collect();
    let s = finalize_summary(&labels, Some("bad <x>"));
    assert!(s.starts_with("✅ Completed in 6 step(s)\n⚠️ Error: bad <x>\n<blockquote expandable>"));
    assert!(s.ends_with("</blockquote>"));
}

#[test]
fn start_text_cuts_long_tasks() {
    let task = "a".repeat(90);
    let t = start_text(&task);
    assert_eq!(t, format!("🔄 Processing: {}…", "a".repeat(77)));
    assert_eq!(start_text(&"b".repeat(80)), format!("🔄 Processing: {}", "b".repeat(80)));
}

#[test]
fn final_delivery_quotes_long_answers() {
    let short = "short answer";
    match final_delivery(short) {
        FinalDelivery::Rich { markdown } => assert_eq!(markdown, short),
        other => panic!("unexpected {other:?}"),
    }
    let long = "x<".repeat(200);
    match final_delivery(&long) {
        FinalDelivery::Quoted { parts } => {
            assert_eq!(parts.len(), 1);
            assert_eq!(parts[0], format!("<blockquote expandable>{}</blockquote>", "x&lt;".repeat(200)));
        }
        other => panic!("unexpected {other:?}"),
    }
    let chunks = fallback_chunks("**bold**");
    assert_eq!(chunks, vec!["<b>bold</b>".to_string()]);
}

#[test]
fn input_rich_message_markdown() {
    let m = InputRichMessage::markdown("**bold**");
    assert_eq!(m.markdown.as_deref(), Some("**bold**"));
    assert!(m.html.is_none());
}

#[test]
fn input_rich_message_html() {
    let m = InputRichMessage::html("<b>x</b>");
    assert_eq!(m.html.as_deref(), Some("<b>x</b>"));
    assert!(m.markdown.is_none());
}

#[test]
fn api_reply_error_reads_description() {
    assert_eq!(api_reply_error(Some(true), Some("ignored")), None);
    assert_eq!(api_reply_error(Some(false), Some("Bad Request")), Some("Bad Request".to_string()));
    assert_eq!(api_reply_error(None, None), Some("unknown error".to_string()));
}

#[test]
fn e2e_thinking_only_in_final_not_process() {
    let mut r = EventRenderer::new();
    assert!(matches!(r.on_event(FrontendEvent::RunStarted { task: "t".into() }), RenderAction::Start { .. }));
    assert!(matches!(r.on_event(started("think", "think_1", 1, "Planning")), RenderAction::Nothing));
    assert!(matches!(r.on_event(finished("think", "think_1", true, "Planning")), RenderAction::Nothing));
    assert!(matches!(r.on_event(FrontendEvent::RunFinished { text: None }), RenderAction::Finish { .. }));
    assert!(r.summary().starts_with("✅ Completed in 0 step(s)"));
}
