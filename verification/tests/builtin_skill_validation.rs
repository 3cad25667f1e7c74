use duga::builtin::skill_install::{validate_aux_path, validate_description, validate_skill_name};
use duga::tools::error::ToolError;

fn message(r: Result<(), ToolError>) -> String {
    match r.unwrap_err() {
        ToolError::InvalidArgs(m) | ToolError::Denied(m) | ToolError::Io(m) => m,
        ToolError::Timeout => "timed out".to_string(),
        ToolError::Cancelled => "cancelled".to_string(),
    }
}

#[test]
fn valid_name_lowercase() {
    assert!(validate_skill_name("code-review").is_ok());
    assert!(validate_skill_name("my-skill-123").is_ok());
    assert!(validate_skill_name("a").is_ok());
}

#[test]
fn name_rejects_empty() {
    assert!(message(validate_skill_name("")).contains("required"));
}

#[test]
fn name_rejects_too_long() {
    let long = "a".repeat(65);
    assert!(message(validate_skill_name(&long)).contains("too long"));
}

#[test]
fn name_rejects_uppercase() {
    assert!(message(validate_skill_name("MySkill")).contains("uppercase"));
}

#[test]
fn name_rejects_special_chars() {
    assert!(message(validate_skill_name("my_skill")).contains("invalid character"));
    assert!(message(validate_skill_name("my.skill")).contains("invalid character"));
}

#[test]
fn name_rejects_leading_hyphen() {
    assert!(message(validate_skill_name("-start")).contains("start or end with a hyphen"));
}

#[test]
fn name_rejects_trailing_hyphen() {
    assert!(message(validate_skill_name("end-")).contains("start or end with a hyphen"));
}

#[test]
fn name_rejects_double_hyphen() {
    assert!(message(validate_skill_name("my--skill")).contains("double hyphens"));
}

#[test]
fn description_accepts_valid() {
    assert!(validate_description("Does things").is_ok());
    assert!(validate_description("  Has whitespace  ").is_ok());
}

#[test]
fn description_rejects_empty() {
    assert!(message(validate_description("")).contains("required"));
    assert!(message(validate_description("   ")).contains("required"));
}

#[test]
fn description_rejects_too_long() {
    let long = "x".repeat(1025);
    assert!(message(validate_description(&long)).contains("too long"));
}

#[test]
fn aux_path_accepts_valid() {
    assert!(validate_aux_path("search.py").is_ok());
    assert!(validate_aux_path("utils/helpers.js").is_ok());
    assert!(validate_aux_path("data/config.json").is_ok());
}

#[test]
fn aux_path_rejects_empty() {
    assert!(message(validate_aux_path("")).contains("empty"));
}

#[test]
fn aux_path_rejects_parent_traversal() {
    assert!(message(validate_aux_path("../escape.py")).contains(".."));
}

#[test]
fn aux_path_rejects_absolute() {
    assert!(message(validate_aux_path("/etc/passwd")).contains("relative"));
}

#[test]
fn aux_path_rejects_null_byte() {
    assert!(message(validate_aux_path("good\0bad.py")).contains("null"));
}
