use duga::runtime::agent::{
    compressed_context, date_text, format_ymd, sandbox_environment_context, system_prompt, tool_guidance,
};
use duga::runtime::calendar::days_to_ymd;
use duga::runtime::memory::{format_memory_for_prompt, PersistentMemory};
use duga::sandbox::executor::SandboxMode;

#[test]
fn tool_guidance_includes_all_required_tools() {
    let guidance = tool_guidance();
    assert!(guidance.contains("think"), "should mention think");
    assert!(guidance.contains("shell"), "should mention shell");
    assert!(guidance.contains("read"), "should mention read");
    assert!(guidance.contains("edit"), "should mention edit");
    assert!(guidance.contains("write"), "should mention write");
    assert!(guidance.contains("search"), "should mention search");
}

#[test]
fn tool_guidance_requires_non_empty_labels() {
    let guidance = tool_guidance();
    assert!(guidance.contains("label"), "should mention label requirement");
    assert!(guidance.contains("non-empty"), "should require non-empty");
}

#[test]
fn tool_guidance_is_static_str() {
    let a = tool_guidance();
    let b = tool_guidance();
    assert_eq!(a, b);
    assert!(!a.is_empty());
}

#[test]
fn days_to_ymd_known_dates() {
    // 2025-01-01 = day 20089
    assert_eq!(days_to_ymd(20089), (2025, 1, 1));
    // 1970-01-01 = day 0
    assert_eq!(days_to_ymd(0), (1970, 1, 1));
    // 2000-02-29 = day 11016 (leap day)
    assert_eq!(days_to_ymd(11016), (2000, 2, 29));
}

#[test]
fn days_to_ymd_before_epoch_and_century_rules() {
    assert_eq!(days_to_ymd(-1), (1969, 12, 31));
    assert_eq!(days_to_ymd(-719468), (0, 3, 1));
    // 1900 is not a leap year: 1900-02-28 is followed by 1900-03-01.
    assert_eq!(days_to_ymd(-25509), (1900, 2, 28));
    assert_eq!(days_to_ymd(-25508), (1900, 3, 1));
    // 2024-12-31 and the next day.
    assert_eq!(days_to_ymd(20088), (2024, 12, 31));
}

#[test]
fn sandbox_context_modes() {
    let docker = sandbox_environment_context(SandboxMode::Docker);
    assert!(docker.contains("sandboxed container"));
    assert!(docker.contains("apk") || docker.contains("apt"));
    assert!(sandbox_environment_context(SandboxMode::Host).contains("direct system access"));
    assert!(sandbox_environment_context(SandboxMode::Capability).contains("direct system access"));
}

#[test]
fn date_formatting_pads_fields() {
    assert_eq!(format_ymd(2025, 1, 9), "2025-01-09");
    assert_eq!(format_ymd(987, 12, 31), "0987-12-31");
    assert_eq!(format_ymd(-5, 3, 1), "-005-03-01");
    assert_eq!(date_text(0), "1970-01-01");
    assert_eq!(date_text(20089 * 86400 + 3600), "2025-01-01");
}

#[test]
fn system_prompt_layout() {
    let p = system_prompt("2025-01-01", "/ws", "ENV", "TOOLS", "STRATS");
    assert!(p.starts_with("You are duga, a safe coding agent.\n\nCurrent date: 2025-01-01\nWorking directory: /ws\n\nENV\n\nTOOLS\n\nSTRATS\n\nWhen facing"));
    assert!(p.ends_with("hardest parts of the task."));
}

#[test]
fn summarizer_lists_first_sixteen_roles() {
    let roles: Vec<String> = (0..20).map(|_| "user".to_string()).collect();
    let summary = compressed_context(&roles);
    assert!(summary.starts_with("Compressed context:"));
    assert_eq!(summary.matches("user").count(), 16);
    assert_eq!(compressed_context(&["user".to_string(), "assistant".to_string()]), "Compressed context:\n- user\n- assistant");
}

#[test]
fn format_memory_for_prompt_order() {
    let memory = PersistentMemory {
        workspace_memory: Some("Workspace".into()),
        channel_memory: Some("Channel".into()),
        workspace_path: "/tmp/MEMORY.md".into(),
    };

    let formatted = format_memory_for_prompt(&memory);
    // Channel memory must come first in the prompt.
    let ch_idx = formatted.find("Channel").unwrap();
    let ws_idx = formatted.find("Workspace").unwrap();
    assert!(ch_idx < ws_idx);
    assert_eq!(formatted, "## Session Memory\nChannel\n\n## Workspace Memory\nWorkspace");
}

#[test]
fn format_memory_single_and_empty() {
    let only_ws = PersistentMemory { workspace_memory: Some("W".into()), channel_memory: None, workspace_path: "m".into() };
    assert_eq!(format_memory_for_prompt(&only_ws), "## Workspace Memory\nW");
    let none = PersistentMemory { workspace_memory: None, channel_memory: None, workspace_path: "m".into() };
    assert_eq!(format_memory_for_prompt(&none), "");
}
