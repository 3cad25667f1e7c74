use duga::runtime::skills::{
    discover_skills, extract_env_var_name, format_skills_for_prompt, format_skills_index_for_prompt,
    format_skills_index_with_gates, gate_from_lookups, index_from_frontmatter, load_skill_body, load_skills,
    split_frontmatter, Skill, SkillFrontmatter, SkillGate, SkillIndex, SkillRequires, SkillSource,
};
use duga::strmap::StrMap;

fn index(name: &str, desc: Option<&str>, source: SkillSource) -> SkillIndex {
    SkillIndex {
        name: name.into(),
        description: desc.map(|d| d.into()),
        source,
        directory: format!("/tmp/skills/{name}"),
        requires: None,
        disable_model_invocation: false,
    }
}

#[test]
fn format_skills_for_prompt_includes_bodies() {
    let skill = Skill {
        name: "code-review".into(),
        description: Some("Review code".into()),
        body: "# Review\n\nInstructions here.".into(),
        source: SkillSource::Workspace,
        directory: "/tmp/skills/review".into(),
    };

    let formatted = format_skills_for_prompt(&[skill]);
    assert!(formatted.contains("code-review"));
    assert!(formatted.contains("Review code"));
    assert!(formatted.contains("Instructions here"));
    assert_eq!(
        formatted,
        "## Available Skills\n- **code-review**: Review code\n\n### code-review\n# Review\n\nInstructions here.\n"
    );
    assert_eq!(format_skills_for_prompt(&[]), "");
}

#[test]
fn format_index_empty_returns_empty_string() {
    assert_eq!(format_skills_index_for_prompt(&[], &StrMap::new()), "");
}

#[test]
fn format_index_includes_names_and_descriptions() {
    let idx = SkillIndex {
        name: "code-review".into(),
        description: Some("Review code".into()),
        source: SkillSource::Workspace,
        directory: "/tmp/skills/review".into(),
        requires: None,
        disable_model_invocation: false,
    };

    let formatted = format_skills_index_for_prompt(&[idx], &StrMap::new());
    assert!(formatted.contains("code-review"));
    assert!(formatted.contains("Review code"));
    // Should include usage instruction
    assert!(formatted.contains("use `read` to load"));
}

#[test]
fn format_index_excludes_disabled_skills() {
    let idx = SkillIndex {
        name: "admin".into(),
        description: Some("Admin tasks".into()),
        source: SkillSource::Workspace,
        directory: "/tmp/skills/admin".into(),
        requires: None,
        disable_model_invocation: true,
    };

    let formatted = format_skills_index_for_prompt(&[idx], &StrMap::new());
    assert!(!formatted.contains("admin"));
}

#[test]
fn format_index_marks_unavailable_skills() {
    let idx = SkillIndex {
        name: "scraper".into(),
        description: Some("Scrape sites".into()),
        source: SkillSource::Workspace,
        directory: "/tmp/skills/scraper".into(),
        requires: Some(SkillRequires { bins: Some(vec!["nonexistent-12345".into()]), env: None }),
        disable_model_invocation: false,
    };

    let formatted = format_skills_index_for_prompt(&[idx], &StrMap::new());
    assert!(formatted.contains("scraper"));
    assert!(formatted.contains("⚠️ unavailable"));
    assert!(formatted.contains("nonexistent-12345"));
}

#[test]
fn format_index_output_is_compact() {
    let idx = SkillIndex {
        name: "review".into(),
        description: Some("Review code".into()),
        source: SkillSource::Workspace,
        directory: "/tmp/skills/review".into(),
        requires: None,
        disable_model_invocation: false,
    };

    let formatted = format_skills_index_for_prompt(&[idx], &StrMap::new());
    // Should NOT contain "###" headers (body sections)
    assert!(!formatted.contains("### "));
    // Should be small (< 500 chars for one skill)
    assert!(formatted.len() < 500);
}

#[test]
fn format_index_with_given_gates_is_exact() {
    let gate = SkillGate { available: false, missing_bins: vec!["jq".into(), "curl".into()], missing_env: vec!["TOKEN".into()] };
    let text = format_skills_index_with_gates(&[index("s", None, SkillSource::Channel)], &[gate]);
    assert_eq!(
        text,
        "## Available Skills\n- **s** ⚠️ unavailable: missing jq, curl; missing env: TOKEN\n\nWhen a task matches a skill's description, use `read` to load its full instructions from the skill's SKILL.md file."
    );
}

#[test]
fn env_var_names_from_templates() {
    assert_eq!(extract_env_var_name("${GITHUB_TOKEN}"), "GITHUB_TOKEN");
    assert_eq!(extract_env_var_name("  ${GITHUB_TOKEN:-fallback} "), "GITHUB_TOKEN");
    assert_eq!(extract_env_var_name("HOME"), "HOME");
    assert_eq!(extract_env_var_name("${}"), "");
}

#[test]
fn gates_from_lookups() {
    let req = Some(SkillRequires {
        bins: Some(vec!["a".into(), "b".into(), "c".into()]),
        env: Some(vec![("HOME_VAR".into(), "${HOME}".into()), ("SECRET".into(), "${MISSING:-x}".into()), ("EMPTY".into(), "${EMPTY}".into())]),
    });
    let mut env = StrMap::new();
    env.insert("HOME".into(), "/root".into());
    env.insert("EMPTY".into(), "".into());
    let gate = gate_from_lookups(&req, &[true, false, true], &env);
    assert!(!gate.available);
    assert_eq!(gate.missing_bins, vec!["b"]);
    assert_eq!(gate.missing_env, vec!["SECRET", "EMPTY"]);
    let none = gate_from_lookups(&None, &[], &env);
    assert_eq!(none, SkillGate::always());
}

#[test]
fn frontmatter_split() {
    let (yaml, body) = split_frontmatter("---\nname: code-review\ndescription: Review code\n---\n\n# Review\n\nUse this.");
    assert_eq!(yaml.as_deref(), Some("\nname: code-review\ndescription: Review code"));
    assert_eq!(body, "# Review\n\nUse this.");
    let (yaml, body) = split_frontmatter("# No frontmatter");
    assert_eq!(yaml, None);
    assert_eq!(body, "# No frontmatter");
    let (yaml, body) = split_frontmatter("---\nunterminated");
    assert_eq!(yaml, None);
    assert_eq!(body, "---\nunterminated");
}

#[test]
fn channel_skill_overrides_workspace_skill() {
    let ws = vec![index("review", Some("WS version"), SkillSource::Workspace), index("lint", None, SkillSource::Workspace)];
    let ch = vec![index("review", Some("CH version"), SkillSource::Channel)];
    let merged = discover_skills(ws, Some(ch));
    assert_eq!(merged.len(), 2);
    let review = merged.iter().find(|s| s.name == "review").unwrap();
    assert_eq!(review.description.as_deref(), Some("CH version"));
    assert_eq!(review.source, SkillSource::Channel);
    assert!(discover_skills(Vec::new(), None).is_empty());
}

#[test]
fn index_and_body_from_skill_file() {
    let fm = SkillFrontmatter { name: None, description: Some("d".into()), requires: None, disable_model_invocation: Some(true) };
    let idx = index_from_frontmatter("/ws/skills/review".into(), "review".into(), fm, SkillSource::Workspace);
    assert_eq!(idx.name, "review");
    assert!(idx.disable_model_invocation);
    let skill = load_skill_body(&idx, "---\nname: review\n---\n\nRun from {baseDir} and {baseDir}/x");
    assert_eq!(skill.body, "Run from /ws/skills/review and /ws/skills/review/x");
    let all = load_skills(&[idx], &["plain {baseDir}".to_string()]);
    assert_eq!(all[0].body, "plain /ws/skills/review");
}

fn gate_index(requires: Option<duga::runtime::skills::SkillRequires>) -> duga::runtime::skills::SkillIndex {
    duga::runtime::skills::SkillIndex {
        name: "test".into(),
        description: None,
        source: duga::runtime::skills::SkillSource::Workspace,
        directory: "/tmp/skills/test".into(),
        requires,
        disable_model_invocation: false,
    }
}

fn process_env() -> duga::strmap::StrMap {
    let mut env = duga::strmap::StrMap::new();
    env.insert("HOME".into(), "/root".into());
    env.insert("PATH".into(), "/usr/bin:/bin".into());
    env
}

#[test]
fn gate_skill_no_requires_is_always_available() {
    let gate = duga::runtime::skills::gate_skill(&gate_index(None), &process_env());
    assert!(gate.available);
    assert!(gate.missing_bins.is_empty());
    assert!(gate.missing_env.is_empty());
}

#[test]
fn gate_skill_missing_bin_is_unavailable() {
    let idx = gate_index(Some(duga::runtime::skills::SkillRequires {
        bins: Some(vec!["nonexistent-bin-xyz-12345".into()]),
        env: None,
    }));
    let gate = duga::runtime::skills::gate_skill(&idx, &process_env());
    assert!(!gate.available);
    assert_eq!(gate.missing_bins, vec!["nonexistent-bin-xyz-12345"]);
    assert!(gate.missing_env.is_empty());
}

#[test]
fn gate_skill_existing_bin_is_available() {
    let idx = gate_index(Some(duga::runtime::skills::SkillRequires {
        bins: Some(vec!["echo".into(), "ls".into()]),
        env: None,
    }));
    let gate = duga::runtime::skills::gate_skill(&idx, &process_env());
    assert!(gate.available, "echo and ls should be on PATH");
    assert!(gate.missing_bins.is_empty());
}

#[test]
fn gate_skill_home_env_is_available() {
    let idx = gate_index(Some(duga::runtime::skills::SkillRequires {
        bins: None,
        env: Some(vec![("HOME_VAR".into(), "${HOME}".into())]),
    }));
    let gate = duga::runtime::skills::gate_skill(&idx, &process_env());
    assert!(gate.available, "HOME should always be set");
}

#[test]
fn gate_skill_missing_env_is_unavailable() {
    let idx = gate_index(Some(duga::runtime::skills::SkillRequires {
        bins: None,
        env: Some(vec![("SECRET".into(), "${MISSING_ENV_VAR_XYZ_12345}".into())]),
    }));
    let gate = duga::runtime::skills::gate_skill(&idx, &process_env());
    assert!(!gate.available);
    assert_eq!(gate.missing_env, vec!["SECRET"]);
}

#[test]
fn gate_skill_env_with_default_syntax() {
    let idx = gate_index(Some(duga::runtime::skills::SkillRequires {
        bins: None,
        env: Some(vec![("TOKEN".into(), "${GITHUB_TOKEN:-fallback}".into())]),
    }));
    let gate = duga::runtime::skills::gate_skill(&idx, &process_env());
    assert!(!gate.available);
    assert_eq!(gate.missing_env, vec!["TOKEN"]);
}
