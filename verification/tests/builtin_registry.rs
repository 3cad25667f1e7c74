use duga::builtin::registry::register_builtin_tools;
use duga::tools::dispatcher::{ToolDispatcher, ToolDispatcherError, ToolSchema};

fn schema(name: &str) -> ToolSchema {
    ToolSchema { name: name.to_string(), description: format!("{name} tool"), parameters: "{}".to_string() }
}

#[test]
fn registers_every_builtin_tool() {
    let mut d = ToolDispatcher::new();
    let tools: Vec<ToolSchema> = ["read", "write", "search", "think", "bash"].iter().map(|n| schema(n)).collect();
    assert_eq!(register_builtin_tools(&mut d, &tools), Ok(()));
    let names = d.names();
    assert_eq!(names.len(), 5);
    assert_eq!(d.get("think").unwrap().description, "think tool");
}

#[test]
fn duplicate_builtin_stops_registration() {
    let mut d = ToolDispatcher::new();
    d.register(schema("search")).unwrap();
    let tools: Vec<ToolSchema> = ["read", "search", "think"].iter().map(|n| schema(n)).collect();
    assert_eq!(
        register_builtin_tools(&mut d, &tools),
        Err(ToolDispatcherError::DuplicateName("search".to_string()))
    );
    assert!(d.get("read").is_some());
    assert!(d.get("think").is_none());
}
