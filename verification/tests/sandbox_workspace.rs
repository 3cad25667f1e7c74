use duga::sandbox::error::WorkspaceError;
use duga::sandbox::executor::{
    check_inspection, DockerExecutor, InspectOutcome, SandboxExecutor, SandboxMode,
};
use duga::sandbox::workspace::Workspace;
use duga::tools::error::ToolError;

fn ws() -> Workspace {
    Workspace::from_root("/tmp/ws".to_string())
}

#[test]
fn test_resolve_relative_path() {
    assert_eq!(ws().resolve("src/main.rs").unwrap(), "src/main.rs");
}

#[test]
fn test_resolve_dot() {
    assert_eq!(ws().resolve(".").unwrap(), ".");
}

#[test]
fn test_resolve_empty() {
    assert_eq!(ws().resolve("").unwrap(), ".");
}

#[test]
fn test_resolve_absolute_rejected() {
    assert!(matches!(ws().resolve("/etc/passwd"), Err(WorkspaceError::PathEscapesWorkspace(_))));
}

#[test]
fn test_resolve_parent_rejected() {
    assert!(matches!(ws().resolve("foo/../bar"), Err(WorkspaceError::PathEscapesWorkspace(_))));
}

#[test]
fn test_resolve_dot_prefix() {
    assert_eq!(ws().resolve("./src/main.rs").unwrap(), "src/main.rs");
}

#[test]
fn test_resolve_double_slash_normalized() {
    assert_eq!(ws().resolve("foo//bar").unwrap(), "foo/bar");
}

#[test]
fn test_sandbox_executor_capability_default() {
    let exec = SandboxExecutor::capability();
    match exec {
        SandboxExecutor::Capability(_) => {}
        other => panic!("expected Capability, got {:?}", other),
    }
}

#[test]
fn test_sandbox_executor_docker_creation_fails_without_container() {
    let result = SandboxExecutor::docker("", "/workspace");
    assert!(result.is_err());
}

#[test]
fn test_docker_executor_path_translation() {
    let exec = DockerExecutor::new_unchecked("test-container", "/workspace");
    assert_eq!(exec.translate_to_container("src/main.rs"), "/workspace/src/main.rs");
    assert_eq!(exec.translate_to_host("/workspace/src/main.rs"), Some("src/main.rs".to_string()));
    assert!(exec.translate_to_host("/etc/passwd").is_none());
}

#[test]
fn test_docker_executor_rejects_empty_mount() {
    let result = DockerExecutor::with_checks("test", "");
    assert!(result.is_err());
}

#[test]
fn test_from_config_capability_mode() {
    let result = SandboxExecutor::from_config(SandboxMode::Capability, None, None);
    assert!(matches!(result, Ok(SandboxExecutor::Capability(_))));
}

#[test]
fn test_from_config_host_mode() {
    let result = SandboxExecutor::from_config(SandboxMode::Host, None, None);
    assert!(matches!(result, Ok(SandboxExecutor::Capability(_))));
}

#[test]
fn test_from_config_docker_missing_container() {
    let result = SandboxExecutor::from_config(SandboxMode::Docker, None, None);
    assert!(result.is_err());
    assert!(format!("{:?}", result).contains("docker"));
}

#[test]
fn from_config_docker_defaults_mount() {
    match SandboxExecutor::from_config(SandboxMode::Docker, Some("box"), None) {
        Ok(SandboxExecutor::Docker(e)) => {
            assert_eq!(e.container(), "box");
            assert_eq!(e.translate_to_container("a"), "/workspace/a");
        }
        other => panic!("unexpected {other:?}"),
    }
}

#[test]
fn docker_inspection_verdicts() {
    assert_eq!(check_inspection("c", &InspectOutcome::Succeeded("'true'\n".into())), Ok(()));
    assert_eq!(
        check_inspection("c", &InspectOutcome::Succeeded("'false'\n".into())),
        Err(ToolError::Denied("Docker container 'c' is not running".into()))
    );
    assert_eq!(
        check_inspection("c", &InspectOutcome::Failed),
        Err(ToolError::Denied("Docker container 'c' not found".into()))
    );
    assert_eq!(
        check_inspection("c", &InspectOutcome::NotRun("no docker".into())),
        Err(ToolError::Denied("Failed to validate Docker container 'c': no docker".into()))
    );
}
