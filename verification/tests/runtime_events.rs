use duga::runtime::events::{AgentEvent, FrontendEvent, FrontendEventSink, SendOutcome, ToolCallInfo};
use duga::tools::schema::Json;

fn test_sink() -> FrontendEventSink {
    FrontendEventSink::new()
}

fn call(tool: &str, id: &str, args: Vec<(&str, Json)>) -> ToolCallInfo {
    let raw_args = Json::Object(args.into_iter().map(|(k, v)| (k.to_string(), v)).collect());
    ToolCallInfo { tool: tool.into(), id: id.into(), raw_args }
}

fn text(s: &str) -> Json {
    Json::Str(s.to_string())
}

fn finished(id: &str, success: bool, attempt: u32, tool_name: &str) -> AgentEvent {
    AgentEvent::ToolCallFinished { tool_call_id: id.into(), success, attempt, tool_name: tool_name.into() }
}

#[test]
fn map_event_agent_started() {
    let mut sink = test_sink();
    match sink.map_event(AgentEvent::AgentStarted { task: "do thing".into() }) {
        Some(FrontendEvent::RunStarted { task }) => assert_eq!(task, "do thing"),
        other => panic!("unexpected: {other:?}"),
    }
}

#[test]
fn map_event_tool_call() {
    let mut sink = test_sink();
    let event = AgentEvent::ToolCallStarted { tool_call: call("shell", "c1", vec![("cmd", text("ls")), ("label", text("ls -la"))]), attempt: 1 };
    match sink.map_event(event) {
        Some(FrontendEvent::ToolCallStarted { tool_name, attempt, description, .. }) => {
            assert_eq!(tool_name, "shell");
            assert_eq!(attempt, 1);
            assert_eq!(description, "ls -la");
        }
        other => panic!("unexpected: {other:?}"),
    }
}

#[test]
fn map_event_tool_call_no_label() {
    let mut sink = test_sink();
    let event = AgentEvent::ToolCallStarted { tool_call: call("shell", "c1", vec![("cmd", text("ls"))]), attempt: 1 };
    match sink.map_event(event) {
        Some(FrontendEvent::ToolCallStarted { tool_name, description, .. }) => {
            assert_eq!(tool_name, "shell");
            assert_eq!(description, "shell");
        }
        other => panic!("unexpected: {other:?}"),
    }
}

#[test]
fn map_event_step_suppressed() {
    let mut sink = test_sink();
    assert!(sink.map_event(AgentEvent::StepStarted { step: 1 }).is_none());
    assert!(sink.map_event(AgentEvent::LlmRequest).is_none());
}

#[test]
fn map_event_tool_call_finished_no_cached_description() {
    let mut sink = test_sink();
    match sink.map_event(finished("c9", true, 1, "shell")) {
        Some(FrontendEvent::ToolCallFinished { tool_name, success, attempt, description, .. }) => {
            assert_eq!(tool_name, "shell");
            assert!(success);
            assert_eq!(attempt, 1);
            assert_eq!(description, "shell");
        }
        other => panic!("unexpected: {other:?}"),
    }
}

#[test]
fn map_event_tool_call_finished_uses_cached_description() {
    let mut sink = test_sink();
    let started = sink.map_event(AgentEvent::ToolCallStarted {
        tool_call: call("shell", "id-1", vec![("cmd", text("ls")), ("label", text("list files"))]),
        attempt: 1,
    });
    assert!(started.is_some());
    match sink.map_event(finished("id-1", true, 1, "shell")) {
        Some(FrontendEvent::ToolCallFinished { description, .. }) => {
            assert_eq!(description, "list files", "description should come from ToolCallStarted cache");
        }
        other => panic!("unexpected: {other:?}"),
    }
    // The cached description is used once.
    match sink.map_event(finished("id-1", true, 2, "shell")) {
        Some(FrontendEvent::ToolCallFinished { description, .. }) => assert_eq!(description, "shell"),
        other => panic!("unexpected: {other:?}"),
    }
}

#[test]
fn map_event_tool_call_started_label_is_empty_string() {
    let mut sink = test_sink();
    let event = AgentEvent::ToolCallStarted { tool_call: call("shell", "c1", vec![("label", text(""))]), attempt: 1 };
    match sink.map_event(event) {
        Some(FrontendEvent::ToolCallStarted { tool_name, description, .. }) => {
            assert_eq!(tool_name, "shell");
            assert_eq!(description, "");
        }
        other => panic!("unexpected: {other:?}"),
    }
}

#[test]
fn map_event_tool_call_started_label_is_non_string() {
    // When the label is not a string (a JSON number), the description
    // falls back to the tool name.
    let mut sink = test_sink();
    let event = AgentEvent::ToolCallStarted { tool_call: call("shell", "c1", vec![("label", Json::Number("42".to_string()))]), attempt: 1 };
    match sink.map_event(event) {
        Some(FrontendEvent::ToolCallStarted { tool_name, description, .. }) => {
            assert_eq!(tool_name, "shell");
            assert_eq!(description, "shell");
        }
        other => panic!("unexpected: {other:?}"),
    }
}

#[test]
fn map_event_tool_call_finished_preserves_tool_name_from_event() {
    let mut sink = test_sink();
    match sink.map_event(finished("x", false, 3, "write")) {
        Some(FrontendEvent::ToolCallFinished { tool_name, success, attempt, .. }) => {
            assert_eq!(tool_name, "write");
            assert!(!success);
            assert_eq!(attempt, 3);
        }
        other => panic!("unexpected: {other:?}"),
    }
}

#[test]
fn emit_reports_closed_channel_only() {
    let sink = FrontendEventSink::with_name("telegram");
    assert_eq!(sink.name(), "telegram");
    assert!(sink.emit_result(SendOutcome::Sent).is_ok());
    assert!(sink.emit_result(SendOutcome::Full).is_ok());
    let e = sink.emit_result(SendOutcome::Closed).unwrap_err();
    assert_eq!(e.sink, "telegram");
    assert_eq!(e.message, "frontend event channel closed");
}
