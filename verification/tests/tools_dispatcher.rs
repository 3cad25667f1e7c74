use duga::tools::dispatcher::{ToolDispatcher, ToolDispatcherError, ToolSchema};
use duga::tools::error::ToolError;

fn schema(name: &str) -> ToolSchema {
    ToolSchema { name: name.into(), description: format!("{name} tool"), parameters: "{}".into() }
}

#[test]
fn new_dispatcher_is_empty() {
    let d = ToolDispatcher::new();
    assert!(d.names().is_empty());
}

#[test]
fn get_nonexistent_returns_none() {
    let d = ToolDispatcher::new();
    assert!(d.get("nonexistent").is_none());
}

#[test]
fn tool_schema_not_found() {
    let d = ToolDispatcher::new();
    let err = d.tool_schema("missing").unwrap_err();
    assert_eq!(err, ToolDispatcherError::NotFound("missing".into()));
}

#[test]
fn dispatcher_debug_format() {
    let d = ToolDispatcher::new();
    let dbg = format!("{:?}", d);
    assert!(dbg.contains("ToolDispatcher"));
}

#[test]
fn registering_and_dispatching() {
    let mut d = ToolDispatcher::new();
    assert!(matches!(d.dispatch_target("empty"), Err(ToolError::InvalidArgs(m)) if m.contains("No tools registered")));
    d.register(schema("read")).unwrap();
    d.register(schema("write")).unwrap();
    assert_eq!(d.register(schema("read")), Err(ToolDispatcherError::DuplicateName("read".into())));
    assert_eq!(d.names(), vec!["read".to_string(), "write".to_string()]);
    assert_eq!(d.tool_schema("write").unwrap().description, "write tool");
    assert_eq!(d.dispatch_target("read").unwrap().name, "read");
    match d.dispatch_target("nonexistent") {
        Err(ToolError::InvalidArgs(m)) => assert_eq!(m, "Unknown tool 'nonexistent'. Available: read, write"),
        other => panic!("unexpected {other:?}"),
    }
    assert!(!d.confirmation_enabled());
    d.set_confirmation();
    assert!(d.confirmation_enabled());
    d.clear_confirmation();
    assert!(!d.confirmation_enabled());
}
