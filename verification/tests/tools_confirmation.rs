use duga::tools::confirmation::{
    confirmation_outcome, evaluate_confirmation, ConfirmationDecision, ConfirmationMiddleware,
    ConfirmationPolicy, ConfirmationProvider, ConfirmationRequest, MiddlewareDecision,
};
use duga::tools::dispatcher::{unknown_tool_message, ToolDispatcherError};
use duga::tools::error::ToolError;
use duga::tools::tool::Tool;
use std::time::Duration;

#[test]
fn policy_requires_confirmation() {
    let policy = ConfirmationPolicy::default();
    assert!(policy.requires_confirmation("shell"));
    assert!(policy.requires_confirmation("edit"));
    assert!(policy.requires_confirmation("write"));
    assert!(!policy.requires_confirmation("read"));
    assert!(!policy.requires_confirmation("search"));
}

#[test]
fn evaluate_confirm_when_required() {
    let policy = ConfirmationPolicy::default();
    let decision = evaluate_confirmation("shell", &policy, "abc-123".to_string(), "Run: ls".to_string(), None);
    match decision {
        MiddlewareDecision::Confirm(req) => {
            assert_eq!(req.tool_name, "shell");
            assert_eq!(req.confirmation_id, "abc-123");
        }
        other => panic!("expected Confirm, got {other:?}"),
    }
}

#[test]
fn evaluate_allow_when_not_required() {
    let policy = ConfirmationPolicy::default();
    let decision = evaluate_confirmation("read", &policy, "abc-123".to_string(), "Read file".to_string(), None);
    match decision {
        MiddlewareDecision::Allow => {}
        other => panic!("expected Allow, got {other:?}"),
    }
}

#[test]
fn custom_policy() {
    let policy = ConfirmationPolicy::new(vec!["delete".to_string(), "rm".to_string()], Duration::from_secs(30));
    assert!(policy.requires_confirmation("delete"));
    assert!(!policy.requires_confirmation("shell"));
    assert_eq!(policy.timeout, Duration::from_secs(30));
}

#[test]
fn legacy_bash_policy_maps_to_shell() {
    let policy = ConfirmationPolicy::new(vec!["bash".to_string()], Duration::from_secs(30));
    assert!(policy.requires_confirmation("shell"));
    assert!(policy.requires_confirmation("bash"));
}

#[test]
fn default_policy_timeout_is_one_minute() {
    let policy = ConfirmationPolicy::default();
    assert_eq!(policy.timeout, Duration::from_secs(60));
}

struct FixedAnswer(ConfirmationDecision);

impl ConfirmationProvider for FixedAnswer {
    fn confirm(&self, request: &ConfirmationRequest, _timeout: Duration) -> ConfirmationDecision {
        assert_eq!(request.label, "Tool `shell` requested: Run commands");
        assert_eq!(request.confirmation_id, "call-1");
        self.0
    }
}

#[test]
fn middleware_outcomes() {
    let approve = ConfirmationMiddleware::new(ConfirmationPolicy::default(), FixedAnswer(ConfirmationDecision::Approved));
    assert_eq!(approve.confirm_tool_call("shell", "call-1", "Run commands", None), Ok(()));
    let deny = ConfirmationMiddleware::new(ConfirmationPolicy::default(), FixedAnswer(ConfirmationDecision::Denied));
    assert_eq!(
        deny.confirm_tool_call("shell", "call-1", "Run commands", None),
        Err(ToolError::Denied("tool 'shell' denied by confirmation".to_string()))
    );
    let late = ConfirmationMiddleware::new(ConfirmationPolicy::default(), FixedAnswer(ConfirmationDecision::Timeout));
    assert_eq!(
        late.confirm_tool_call("shell", "call-1", "Run commands", None),
        Err(ToolError::Denied("tool 'shell' confirmation timed out".to_string()))
    );
    // A tool outside the policy is never put to the provider.
    assert_eq!(deny.confirm_tool_call("read", "x", "y", None), Ok(()));
}

#[test]
fn outcome_of_each_decision() {
    assert_eq!(confirmation_outcome("edit", ConfirmationDecision::Approved), Ok(()));
    assert_eq!(
        confirmation_outcome("edit", ConfirmationDecision::Timeout),
        Err(ToolError::Denied("tool 'edit' confirmation timed out".to_string()))
    );
}

#[test]
fn unknown_tool_replies() {
    assert_eq!(unknown_tool_message("x", &[]), "Unknown tool 'x'. No tools registered.");
    assert_eq!(
        unknown_tool_message("x", &["read".to_string(), "write".to_string()]),
        "Unknown tool 'x'. Available: read, write"
    );
    assert_eq!(ToolDispatcherError::NotFound("missing".into()).to_string(), "tool not found: missing");
    assert_eq!(ToolDispatcherError::DuplicateName("a".into()).to_string(), "duplicate tool name: a");
}

struct TestTool {
    name: &'static str,
    desc: &'static str,
    retryable: bool,
}

impl Tool for TestTool {
    fn name(&self) -> &str {
        self.name
    }

    fn description(&self) -> &str {
        self.desc
    }

    fn retryable(&self) -> bool {
        self.retryable
    }
}

struct PlainTool;

impl Tool for PlainTool {
    fn name(&self) -> &str {
        "plain"
    }

    fn description(&self) -> &str {
        "d"
    }
}

#[test]
fn tool_name_and_description() {
    let tool = TestTool { name: "test_tool", desc: "A test tool.", retryable: false };
    assert_eq!(tool.name(), "test_tool");
    assert_eq!(tool.description(), "A test tool.");
}

#[test]
fn tool_retryable_defaults_to_false() {
    let tool = TestTool { name: "t", desc: "d", retryable: false };
    assert!(!tool.retryable());

    let tool = TestTool { name: "t", desc: "d", retryable: true };
    assert!(tool.retryable());

    assert!(!PlainTool.retryable());
}
