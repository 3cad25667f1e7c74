use duga::builtin::bash::{BashArgs, BashStep, BashTool};
use duga::builtin::edit::{count_matches_exec, edit_report, edit_text};
use duga::builtin::skill_list::{format_skill_list, ListSkillsArgs, ListSkillsTool};
use duga::builtin::skill_remove::{RemoveSkillArgs, RemoveSkillTool, SkillRemoveTarget};
use duga::runtime::skills::{SkillGate, SkillIndex, SkillSource};
use duga::sandbox::binary_registry::BinaryRegistry;
use duga::sandbox::workspace::Workspace;
use duga::strmap::StrMap;
use duga::tools::error::ToolError;

fn args(cmd: &[&str], session: Option<&str>) -> BashArgs {
    BashArgs { command: cmd.iter().map(|s| s.to_string()).collect(), session: session.map(|s| s.to_string()) }
}

fn reply(step: BashStep) -> Result<String, ToolError> {
    match step {
        BashStep::Reply(r) => r,
        BashStep::Run(_) => panic!("expected a reply"),
    }
}

#[test]
fn shell_builtins_keep_session_state() {
    let mut reg = BinaryRegistry::empty();
    reg.insert("ls".into(), "/bin/ls".into());
    let mut tool = BashTool::with_sandbox(reg, Workspace::from_root("/ws".into()));
    assert_eq!(reply(tool.handle(&args(&[], None), false)), Err(ToolError::InvalidArgs("Empty command".into())));
    assert_eq!(reply(tool.handle(&args(&["pwd"], None), true)), Err(ToolError::Cancelled));
    assert_eq!(reply(tool.handle(&args(&["cd", "src/./lib"], Some("s1")), false)), Ok("src/lib".into()));
    assert_eq!(reply(tool.handle(&args(&["pwd"], Some("s1")), false)), Ok("src/lib".into()));
    assert_eq!(reply(tool.handle(&args(&["pwd"], Some("s2")), false)), Ok(".".into()));
    assert_eq!(reply(tool.handle(&args(&["cd", "../.."], Some("s1")), false)), Err(ToolError::Denied("cd failed".into())));
    assert_eq!(reply(tool.handle(&args(&["export", "FOO=bar"], Some("s1")), false)), Ok("exported FOO=bar".into()));
    assert_eq!(
        reply(tool.handle(&args(&["unset"], Some("s1")), false)),
        Err(ToolError::Denied("unset requires a variable name argument".into()))
    );
    match tool.handle(&args(&["ls", "-la"], Some("s1")), false) {
        BashStep::Run(spec) => {
            assert_eq!(spec.program, "/bin/ls");
            assert_eq!(spec.args, vec!["-la".to_string()]);
            assert_eq!(spec.cwd, "src/lib");
            assert_eq!(spec.env, vec![("FOO".to_string(), "bar".to_string())]);
        }
        BashStep::Reply(r) => panic!("expected a command, got {r:?}"),
    }
    assert_eq!(
        reply(tool.handle(&args(&["rm", "-rf", "/"], None), false)),
        Err(ToolError::Denied("binary not allowed: rm".into()))
    );
    match tool.handle(&args(&["ls"], Some("unknown")), false) {
        BashStep::Run(spec) => assert_eq!(spec.cwd, ""),
        BashStep::Reply(_) => panic!("expected a command"),
    }
}

#[test]
fn allow_all_runs_bare_names() {
    let mut tool = BashTool::with_sandbox(BinaryRegistry::allow_all(), Workspace::from_root("/ws".into()));
    match tool.handle(&args(&["python3", "x.py"], None), false) {
        BashStep::Run(spec) => {
            assert_eq!(spec.program, "python3");
            assert_eq!(spec.cwd, ".");
        }
        BashStep::Reply(r) => panic!("expected a command, got {r:?}"),
    }
}

#[test]
fn edit_requires_unique_match() {
    assert_eq!(edit_text("f.txt", "a b a", "b", "c"), Ok("a c a".to_string()));
    assert_eq!(
        edit_text("f.txt", "a b a", "a", "c"),
        Err(ToolError::InvalidArgs("oldText appears 2 times in f.txt; include more context for a unique replacement".into()))
    );
    assert_eq!(edit_text("f.txt", "abc", "x", "y"), Err(ToolError::InvalidArgs("oldText not found in f.txt".into())));
    assert_eq!(edit_text("f.txt", "abc", "", "y"), Err(ToolError::InvalidArgs("oldText must not be empty".into())));
    assert_eq!(count_matches_exec(&"aaaa".chars().collect::<Vec<_>>(), &['a', 'a']), 2);
    assert_eq!(edit_report("f.txt", "é", "ab"), "Edited f.txt: replaced 2 bytes with 2 bytes");
}

fn idx(name: &str, desc: Option<&str>, source: SkillSource) -> SkillIndex {
    SkillIndex {
        name: name.into(),
        description: desc.map(|d| d.into()),
        source,
        directory: "/d".into(),
        requires: None,
        disable_model_invocation: false,
    }
}

#[test]
fn skill_listing() {
    let tool = ListSkillsTool::new("/data/skills".into(), "/data".into());
    assert_eq!(tool.channel_dir(&ListSkillsArgs { label: "l".into(), channel_id: Some("42".into()) }), Ok(Some("/data/42/skills".into())));
    assert!(tool.channel_dir(&ListSkillsArgs { label: "l".into(), channel_id: Some("../x".into()) }).is_err());
    assert_eq!(tool.list(Vec::new(), None, &StrMap::new()), "(no skills installed)");
    let listing = tool.list(
        vec![idx("code-review", Some("Review code changes"), SkillSource::Workspace), idx("x", None, SkillSource::Workspace)],
        Some(vec![idx("x", Some("Channel override"), SkillSource::Channel)]),
        &StrMap::new(),
    );
    assert!(listing.starts_with("## Installed Skills (1 global, 1 channel-specific)\n\n"));
    assert!(listing.contains("- ✅ **code-review** — Review code changes"));
    assert!(listing.contains("- ✅ **x** [channel] — Channel override"));
    assert!(listing.ends_with("Use `read skills/<name>/SKILL.md` to load full instructions for any skill."));
    let gate = SkillGate { available: false, missing_bins: vec!["jq".into()], missing_env: vec![] };
    let text = format_skill_list(&[idx("s", None, SkillSource::Workspace)], &[gate]);
    assert!(text.contains("- ⚠️ (missing: jq) **s** — (no description)"));
}

#[test]
fn skill_removal() {
    let ws = Workspace::from_root("/ws".into());
    let tool = RemoveSkillTool::new("/ws/skills".into(), "/ws".into());
    let a = RemoveSkillArgs { label: "l".into(), target: SkillRemoveTarget::Global, channel_id: None, name: "demo".into() };
    assert_eq!(tool.locate(&a, &ws), Ok("skills/demo".into()));
    assert_eq!(tool.report(&a, true), "Removed skill 'demo' (global) — directory skills/demo and all auxiliary files deleted.");
    assert_eq!(tool.report(&a, false), "Skill 'demo' (global) does not exist — nothing to remove.");
    let c = RemoveSkillArgs { label: "l".into(), target: SkillRemoveTarget::Channel, channel_id: Some("7".into()), name: "demo".into() };
    assert_eq!(tool.locate(&c, &ws), Ok("7/skills/demo".into()));
    let bad = RemoveSkillArgs { label: "l".into(), target: SkillRemoveTarget::Channel, channel_id: None, name: "demo".into() };
    assert_eq!(tool.locate(&bad, &ws), Err(ToolError::InvalidArgs("channel_id is required when target is 'channel'".into())));
}
