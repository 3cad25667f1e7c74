use duga::tools::dispatcher::ToolDispatcher;
use duga::tools::erased::ErasedTool;
use duga::tools::error::ToolError;
use duga::tools::schema::Json;
use duga::tools::tool::Tool;

struct MockTool;

impl Tool for MockTool {
    fn name(&self) -> &str {
        "mock"
    }
    fn description(&self) -> &str {
        "A mock tool for testing"
    }
    fn retryable(&self) -> bool {
        true
    }
}

fn s(x: &str) -> String {
    x.to_string()
}

/// The schema a generator gives for `struct MockArgs { msg: String }`.
fn mock_args_schema() -> Json {
    Json::Object(vec![
        (s("$schema"), Json::Str(s("http://json-schema.org/draft-07/schema#"))),
        (s("title"), Json::Str(s("MockArgs"))),
        (s("type"), Json::Str(s("object"))),
        (s("required"), Json::Array(vec![Json::Str(s("msg"))])),
        (s("properties"), Json::Object(vec![(s("msg"), Json::Object(vec![(s("type"), Json::Str(s("string")))]))])),
    ])
}

#[test]
fn test_erased_tool_schema() {
    let tool = MockTool;
    let erased = ErasedTool::erase(tool, mock_args_schema());
    let schema = erased.schema();
    assert_eq!(schema.name, "mock");
}

#[test]
fn test_dispatcher_register_and_lookup() {
    let tool = MockTool;
    let erased = ErasedTool::erase(tool, mock_args_schema());
    let mut dispatcher = ToolDispatcher::new();
    dispatcher.register_erased(&erased).unwrap();
    assert!(dispatcher.get("mock").is_some());
}

#[test]
fn erased_tool_keeps_name_description_and_retry_flag() {
    let erased = ErasedTool::erase(MockTool, mock_args_schema());
    assert_eq!(erased.description, "A mock tool for testing");
    assert!(erased.retryable);
    let schema = erased.schema();
    assert!(schema.parameters.starts_with("{\"type\":\"object\""));
    assert!(!schema.parameters.contains("$schema"));
    assert!(schema.parameters.contains("\"additionalProperties\":false"));
    assert!(schema.parameters.contains("\"label\""));
}

#[test]
fn erased_tool_rejects_non_object_args() {
    let erased = ErasedTool::erase(MockTool, mock_args_schema());
    let err = erased.validate_args(&Json::Str(s("bad"))).unwrap_err();
    assert!(matches!(err, ToolError::InvalidArgs(message) if message.contains("JSON object")));
}

#[test]
fn erased_tool_rejects_schema_violations() {
    let erased = ErasedTool::erase(MockTool, mock_args_schema());
    let args = Json::Object(vec![(s("unexpected"), Json::Str(s("field")))]);
    let err = erased.validate_args(&args).unwrap_err();
    assert!(matches!(err, ToolError::InvalidArgs(message) if message.contains("Schema validation failed")));
}

#[test]
fn erased_tool_accepts_valid_args() {
    let erased = ErasedTool::erase(MockTool, mock_args_schema());
    let args = Json::Object(vec![(s("msg"), Json::Str(s("hello")))]);
    assert!(erased.validate_args(&args).is_ok());
}
