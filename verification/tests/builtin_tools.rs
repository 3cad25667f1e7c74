use duga::builtin::delegate::{DelegateArgs, DelegateTool};
use duga::builtin::skill_install::{
    build_skill_md, validate_aux_path, validate_description, validate_skill_name, InstallSkillArgs,
    InstallSkillTool, SkillFile, SkillTarget,
};
use duga::builtin::think::{count_words, ThinkArgs, ThinkLimits, ThinkTool};
use duga::sandbox::workspace::Workspace;
use duga::tools::error::ToolError;
use duga::tools::tool::Tool;

fn delegate_tool_description(enabled: &[&str]) -> String {
    let ids: Vec<String> = enabled.iter().map(|s| s.to_string()).collect();
    let tool = DelegateTool::new(ids);
    tool.description().to_string()
}

#[test]
fn no_loops_enabled() {
    let desc = delegate_tool_description(&[]);
    assert!(desc.contains("No specialized loops"));
    assert!(!desc.contains("Available:"));
}

#[test]
fn two_loops_enabled() {
    let desc = delegate_tool_description(&["problem_solving", "verification"]);
    assert!(desc.contains("problem_solving"));
    assert!(desc.contains("verification"));
    assert!(desc.contains("Available:"));
}

#[test]
fn simple_react_filtered() {
    let desc = delegate_tool_description(&["simple_react", "problem_solving"]);
    // simple_react should NOT appear
    assert!(!desc.contains("simple_react"));
    // problem_solving should appear
    assert!(desc.contains("problem_solving"));
}

#[test]
fn single_loop_enabled() {
    let desc = delegate_tool_description(&["search"]);
    assert!(desc.contains("search"));
    assert!(desc.contains("Available: search"));
}

#[test]
fn delegate_lists_targets_and_refuses_direct_calls() {
    let tool = DelegateTool::new(vec!["simple_react".into(), "a".into(), "b".into()]);
    assert_eq!(tool.enabled_ids(), &["a".to_string(), "b".to_string()]);
    assert_eq!(
        tool.description(),
        "Hand control to a specialized loop for complex tasks. Available: a, b. Use when your current approach isn't optimal. The `loop` argument must be one of: a, b."
    );
    assert_eq!(tool.name(), "delegate");
    let err = tool.execute(&DelegateArgs { loop_name: "a".into(), reason: "r".into() }).unwrap_err();
    match err {
        ToolError::InvalidArgs(m) => assert!(m.contains("cannot be called directly")),
        other => panic!("unexpected {other:?}"),
    }
}

#[test]
fn think_budget_and_reset() {
    let mut tool = ThinkTool::new(ThinkLimits { max_calls: 1, max_tokens: 1000 });
    let args = |t: &str| ThinkArgs { label: "l".into(), thought: t.into() };
    assert_eq!(tool.execute(args("a"), 2), Ok("a".to_string()));
    assert_eq!(tool.execute(args("b"), 2), Err(ToolError::Denied("think call limit reached".into())));
    tool.reset_limits();
    assert!(tool.execute(args("c"), 2).is_ok());

    let mut tool = ThinkTool::new(ThinkLimits { max_calls: 10, max_tokens: 5 });
    assert!(tool.execute(args("one two three"), 4).is_ok());
    assert_eq!(tool.execute(args("four five"), 3), Err(ToolError::Denied("think token limit reached".into())));
    tool.reset_limits();
    assert!(tool.execute(args("fresh start"), 3).is_ok());
    assert_eq!(ThinkTool::default().name(), "think");
}

#[test]
fn words_are_counted_like_split_whitespace() {
    assert_eq!(count_words(""), 0);
    assert_eq!(count_words("one two three"), 3);
    assert_eq!(count_words("  spaced\tout \n words  "), 3);
}

#[test]
fn build_skill_md_produces_valid_frontmatter() {
    let md = build_skill_md("my-skill", "Does things", "# Hello\n\nWorld");
    assert!(md.starts_with("---\nname: my-skill\ndescription: Does things\n---"));
    assert!(md.contains("# Hello"));
    assert!(md.contains("World"));
}

#[test]
fn build_skill_md_escapes_triple_dashes_in_body() {
    let md = build_skill_md("test", "Test skill", "---\nbody\n---");
    // Triple dashes should be escaped/munged
    assert!(!md.contains("\n---\nbody\n---"));
    assert!(md.contains("- - -"));
    assert_eq!(md, "---\nname: test\ndescription: Test skill\n---\n\n- - -\nbody\n- - -");
}

fn invalid_message(r: Result<(), ToolError>) -> String {
    match r {
        Err(ToolError::InvalidArgs(m)) => m,
        other => panic!("expected InvalidArgs, got {other:?}"),
    }
}

#[test]
fn skill_name_rules() {
    assert!(validate_skill_name("code-review").is_ok());
    assert!(validate_skill_name("my-skill-123").is_ok());
    assert!(validate_skill_name("a").is_ok());
    assert!(invalid_message(validate_skill_name("")).contains("required"));
    assert!(invalid_message(validate_skill_name(&"a".repeat(65))).contains("too long"));
    assert_eq!(
        invalid_message(validate_skill_name("MySkill")),
        "name 'MySkill' contains uppercase characters at position 0 — use only lowercase [a-z]"
    );
    assert_eq!(
        invalid_message(validate_skill_name("my_skill")),
        "name 'my_skill' contains invalid character '_' at position 2 — use only [a-z0-9-]"
    );
    assert!(invalid_message(validate_skill_name("-start")).contains("start or end with a hyphen"));
    assert!(invalid_message(validate_skill_name("end-")).contains("start or end with a hyphen"));
    assert!(invalid_message(validate_skill_name("my--skill")).contains("double hyphens"));
}

#[test]
fn description_and_aux_path_rules() {
    assert!(validate_description("Does things").is_ok());
    assert!(validate_description("  Has whitespace  ").is_ok());
    assert!(invalid_message(validate_description("   ")).contains("required"));
    assert!(invalid_message(validate_description(&"x".repeat(1025))).contains("too long"));
    assert!(validate_aux_path("utils/helpers.js").is_ok());
    assert!(invalid_message(validate_aux_path("")).contains("empty"));
    assert!(invalid_message(validate_aux_path("../escape.py")).contains(".."));
    assert!(invalid_message(validate_aux_path("/etc/passwd")).contains("relative"));
    assert!(invalid_message(validate_aux_path("good\0bad.py")).contains("null"));
}

fn install_args(target: SkillTarget, channel_id: Option<&str>, name: &str, files: Option<Vec<SkillFile>>) -> InstallSkillArgs {
    InstallSkillArgs {
        label: "Install".into(),
        target,
        channel_id: channel_id.map(|c| c.into()),
        name: name.into(),
        description: "A test skill".into(),
        body: "# Body".into(),
        files,
    }
}

#[test]
fn install_plan_writes_skill_and_aux_files() {
    let ws = Workspace::from_root("/ws".into());
    let tool = InstallSkillTool::new("/ws/skills".into(), "/ws".into());
    let files = vec![
        SkillFile { path: "scrape.py".into(), content: "print(1)".into() },
        SkillFile { path: "docs/README.md".into(), content: "# Docs".into() },
    ];
    let plan = tool.plan_install(&install_args(SkillTarget::Global, None, "scraper", Some(files)), &ws);
    assert_eq!(plan.writes.len(), 3);
    assert_eq!(plan.writes[0].0, "skills/scraper/SKILL.md");
    assert_eq!(plan.writes[0].1, "---\nname: scraper\ndescription: A test skill\n---\n\n# Body");
    assert_eq!(plan.writes[2].0, "skills/scraper/docs/README.md");
    assert_eq!(
        plan.outcome,
        Ok("Installed skill 'scraper' (global) with 2 auxiliary files to skills/scraper/SKILL.md".to_string())
    );

    let plan = tool.plan_install(&install_args(SkillTarget::Channel, Some("12345"), "chat-skill", None), &ws);
    assert_eq!(plan.writes[0].0, "12345/skills/chat-skill/SKILL.md");
    assert_eq!(plan.outcome, Ok("Installed skill 'chat-skill' (channel) to skills/chat-skill/SKILL.md".to_string()));
}

#[test]
fn install_plan_stops_at_errors() {
    let ws = Workspace::from_root("/ws".into());
    let tool = InstallSkillTool;
    let plan = tool.plan_install(&install_args(SkillTarget::Channel, None, "test", None), &ws);
    assert!(plan.writes.is_empty());
    assert_eq!(plan.outcome, Err(ToolError::InvalidArgs("channel_id is required when target is 'channel'".into())));

    let plan = tool.plan_install(&install_args(SkillTarget::Channel, Some("../x"), "test", None), &ws);
    assert_eq!(plan.outcome, Err(ToolError::InvalidArgs("channel_id must not contain path separators or '..'".into())));

    let plan = tool.plan_install(&install_args(SkillTarget::Global, None, "BAD-Name", None), &ws);
    assert!(matches!(plan.outcome, Err(ToolError::InvalidArgs(ref m)) if m.contains("uppercase")));

    let files = vec![
        SkillFile { path: "ok.txt".into(), content: "1".into() },
        SkillFile { path: "../escape.py".into(), content: "2".into() },
        SkillFile { path: "never.txt".into(), content: "3".into() },
    ];
    let plan = tool.plan_install(&install_args(SkillTarget::Global, None, "test", Some(files)), &ws);
    assert_eq!(plan.writes.len(), 2);
    assert!(matches!(plan.outcome, Err(ToolError::InvalidArgs(ref m)) if m.contains("..")));
    assert_eq!(SkillTarget::Channel.to_string(), "channel");
}
