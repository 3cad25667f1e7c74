use duga::builtin::think::{count_words, ThinkArgs, ThinkLimits, ThinkTool};
use duga::runtime::agent::sandbox_environment_context;
use duga::sandbox::executor::SandboxMode;

fn est(text: &str) -> usize {
    (count_words(text) as f64 * 1.3).ceil() as usize
}

fn think(tool: &mut ThinkTool, label: &str, thought: &str) -> bool {
    let e = est(thought);
    tool.execute(ThinkArgs { label: label.into(), thought: thought.into() }, e).is_ok()
}

#[test]
fn test_think_basic() {
    let mut tool = ThinkTool::new(ThinkLimits { max_calls: 10, max_tokens: 1000 });
    let r = tool.execute(ThinkArgs { label: "Thinking about hello".into(), thought: "hello".into() }, est("hello"));
    assert_eq!(r.unwrap(), "hello");
}

#[test]
fn test_think_limit() {
    let mut tool = ThinkTool::new(ThinkLimits { max_calls: 1, max_tokens: 1000 });
    assert!(think(&mut tool, "Thinking about a", "a"));
    assert!(!think(&mut tool, "Thinking about b", "b"));
}

#[test]
fn test_think_limit_reset_restores_budget() {
    let mut tool = ThinkTool::new(ThinkLimits { max_calls: 1, max_tokens: 1000 });
    assert!(think(&mut tool, "First", "first"));
    assert!(!think(&mut tool, "Second", "second"));
    tool.reset();
    assert!(think(&mut tool, "Third after reset", "third"));
}

#[test]
fn test_think_token_limit_reset_restores_budget() {
    let mut tool = ThinkTool::new(ThinkLimits { max_calls: 10, max_tokens: 5 });
    assert_eq!(est("one two three"), 4);
    assert!(think(&mut tool, "Small thought", "one two three"));
    assert!(!think(&mut tool, "Another", "four five"));
    tool.reset();
    assert!(think(&mut tool, "After reset", "fresh start"));
}

#[test]
fn sandbox_context_docker_mode() {
    let ctx = sandbox_environment_context(SandboxMode::Docker);
    assert!(ctx.contains("sandboxed container"));
    assert!(ctx.contains("apk") || ctx.contains("apt"));
}

#[test]
fn sandbox_context_host_mode() {
    let ctx = sandbox_environment_context(SandboxMode::Host);
    assert!(ctx.contains("direct system access"));
}

#[test]
fn sandbox_context_capability_mode() {
    let ctx = sandbox_environment_context(SandboxMode::Capability);
    assert!(ctx.contains("direct system access"));
}
