use duga::sandbox::binary_registry::{BinaryPattern, BinaryRegistry};
use duga::sandbox::env::{is_secret_pattern, upper_has_secret_fragment};
use duga::sandbox::error::{BinaryError, ShellSessionError, WorkspaceError};
use duga::sandbox::executor::{shell_command, SandboxMode};
use std::path::Path;

#[test]
fn test_registry_resolve_echo() {
    let reg = BinaryRegistry::new(&["echo".into()]).unwrap();
    let path = reg.resolve("echo").unwrap();
    assert!(Path::new(&path).is_absolute());
}

#[test]
fn test_registry_not_allowed() {
    let reg = BinaryRegistry::new(&["echo".into()]).unwrap();
    let result = reg.resolve("nonexistent_binary_xyz");
    assert!(matches!(result, Err(BinaryError::NotAllowed(_))));
}

#[test]
fn test_registry_not_found() {
    let result = BinaryRegistry::new(&["nonexistent_binary_xyz_12345".to_string()]);
    // May be NotFound or WhichFailed depending on `which` behavior
    assert!(result.is_err());
}

#[test]
fn test_registry_rejects_path_separator() {
    let result = BinaryRegistry::new(&["./evil".into()]);
    assert!(matches!(result, Err(BinaryError::NotFound(_))));
}

#[test]
fn test_registry_rejects_empty() {
    let result = BinaryRegistry::new(&["".into()]);
    assert!(matches!(result, Err(BinaryError::NotFound(_))));
}

#[test]
fn test_is_allowed() {
    let reg = BinaryRegistry::new(&["echo".into(), "true".into()]).unwrap();
    assert!(reg.is_allowed("echo"));
    assert!(reg.is_allowed("true"));
    assert!(!reg.is_allowed("ls"));
}

#[test]
fn test_registry_multiple() {
    let reg = BinaryRegistry::new(&["echo".into(), "true".into(), "false".into()]).unwrap();
    assert_eq!(reg.len(), 3);
    assert!(!reg.is_empty());
}

#[test]
fn test_allow_all_is_allow_all() {
    let reg = BinaryRegistry::allow_all();
    assert!(reg.is_allow_all());
    assert!(reg.is_empty());
    assert_eq!(reg.len(), 0);
}

#[test]
fn test_allow_all_is_allowed_always_true() {
    let reg = BinaryRegistry::allow_all();
    assert!(reg.is_allowed("anything"));
    assert!(reg.is_allowed("echo"));
    assert!(reg.is_allowed("nonexistent_binary_xyz"));
}

#[test]
fn test_allow_all_resolve_to_pathbuf() {
    let reg = BinaryRegistry::allow_all();
    let pb = reg.resolve_to_pathbuf("echo").unwrap();
    assert_eq!(std::path::PathBuf::from(pb), std::path::PathBuf::from("echo"));
}

#[test]
fn test_parse_exact_bare_name() {
    let p = BinaryPattern::parse("echo").unwrap();
    assert_eq!(p, BinaryPattern::Exact("echo".into()));
}

#[test]
fn test_parse_exact_absolute_path() {
    let p = BinaryPattern::parse("/usr/bin/cat").unwrap();
    assert_eq!(p, BinaryPattern::Exact("/usr/bin/cat".into()));
}

#[test]
fn test_parse_glob_star() {
    let p = BinaryPattern::parse("/usr/bin/*").unwrap();
    assert_eq!(p, BinaryPattern::Glob("/usr/bin/*".into()));
}

#[test]
fn test_parse_glob_question() {
    let p = BinaryPattern::parse("/usr/bin/g?").unwrap();
    assert_eq!(p, BinaryPattern::Glob("/usr/bin/g?".into()));
}

#[test]
fn test_parse_glob_bracket() {
    let p = BinaryPattern::parse("/usr/bin/[gc]*").unwrap();
    assert_eq!(p, BinaryPattern::Glob("/usr/bin/[gc]*".into()));
}

#[test]
fn test_parse_rejects_empty() {
    let result = BinaryPattern::parse("");
    assert!(result.is_err());
}

#[test]
fn test_parse_rejects_traversal() {
    let result = BinaryPattern::parse("../etc/passwd");
    assert!(result.is_err());
}

#[test]
fn test_parse_rejects_relative_dot_slash() {
    let result = BinaryPattern::parse("./evil");
    assert!(result.is_err());
}

#[test]
fn parse_error_messages() {
    assert_eq!(BinaryPattern::parse(""), Err(BinaryError::NotFound("<empty>".into())));
    assert_eq!(
        BinaryPattern::parse("/a/../b"),
        Err(BinaryError::NotFound("path traversal not allowed: /a/../b".into()))
    );
    assert_eq!(
        BinaryPattern::parse(".\\evil"),
        Err(BinaryError::NotFound("relative path not allowed: .\\evil".into()))
    );
}

#[test]
fn registry_insert_then_lookup() {
    let mut reg = BinaryRegistry::empty();
    reg.insert("tool".into(), "/opt/tool".into());
    assert_eq!(reg.resolve("tool"), Ok("/opt/tool".to_string()));
    reg.insert("tool".into(), "/opt/tool2".into());
    assert_eq!(reg.resolve("tool"), Ok("/opt/tool2".to_string()));
    assert_eq!(reg.len(), 1);
}

#[test]
fn test_is_secret_pattern() {
    assert!(is_secret_pattern("GITHUB_TOKEN"));
    assert!(is_secret_pattern("AWS_SECRET_ACCESS_KEY"));
    assert!(is_secret_pattern("API_KEY"));
    assert!(is_secret_pattern("DB_PASSWORD"));
    assert!(!is_secret_pattern("HOME"));
    assert!(!is_secret_pattern("PATH"));
    assert!(!is_secret_pattern("USER"));
}

#[test]
fn workspace_error_display_not_found() {
    let err = WorkspaceError::NotFound("/tmp/missing".into());
    let msg = err.to_string();
    assert!(msg.contains("not found"));
    assert!(msg.contains("missing"));
}

#[test]
fn workspace_error_display_path_escapes() {
    let err = WorkspaceError::PathEscapesWorkspace("../etc".into());
    let msg = err.to_string();
    assert!(msg.contains("escapes"));
    assert!(msg.contains("../etc"));
}

#[test]
fn workspace_error_display_permission_denied() {
    let err = WorkspaceError::PermissionDenied("/root/secret".into());
    assert!(err.to_string().contains("permission denied"));
}

#[test]
fn workspace_error_display_not_a_directory() {
    let err = WorkspaceError::NotADirectory("/tmp/file.txt".into());
    assert!(err.to_string().contains("not a directory"));
}

#[test]
fn workspace_error_display_io() {
    let err = WorkspaceError::Io("broken pipe".into());
    assert!(err.to_string().contains("i/o error"));
    assert!(err.to_string().contains("broken pipe"));
}

#[test]
fn workspace_error_from_io() {
    let io_err = std::io::Error::new(std::io::ErrorKind::NotFound, "file missing");
    let ws_err: WorkspaceError = io_err.into();
    assert!(matches!(ws_err, WorkspaceError::Io(_)));
    assert!(ws_err.to_string().contains("file missing"));
}

#[test]
fn workspace_error_equality() {
    let a = WorkspaceError::NotFound("/x".into());
    let b = WorkspaceError::NotFound("/x".into());
    assert_eq!(a, b);
}

#[test]
fn workspace_error_paths_are_debug_quoted() {
    assert_eq!(WorkspaceError::NotFound("/x".into()).to_string(), "not found: \"/x\"");
}

#[test]
fn binary_error_display_not_found() {
    let err = BinaryError::NotFound("python".into());
    assert!(err.to_string().contains("not found"));
    assert!(err.to_string().contains("python"));
}

#[test]
fn binary_error_display_not_allowed() {
    let err = BinaryError::NotAllowed("rm".into());
    assert!(err.to_string().contains("not allowed"));
    assert!(err.to_string().contains("rm"));
}

#[test]
fn binary_error_display_which_failed() {
    let err = BinaryError::WhichFailed("java".into(), "no java in PATH".into());
    let msg = err.to_string();
    assert!(msg.contains("which failed"));
    assert!(msg.contains("java"));
    assert!(msg.contains("no java in PATH"));
}

#[test]
fn binary_error_equality() {
    let a = BinaryError::NotFound("cmd".into());
    let b = BinaryError::NotFound("cmd".into());
    assert_eq!(a, b);
    assert_ne!(a, BinaryError::NotAllowed("cmd".into()));
}

#[test]
fn shell_session_error_missing_cd_arg() {
    let err = ShellSessionError::MissingCdArgument;
    assert!(err.to_string().contains("cd requires"));
}

#[test]
fn shell_session_error_invalid_export_syntax() {
    let err = ShellSessionError::InvalidExportSyntax("FOO".into());
    assert!(err.to_string().contains("export requires"));
    assert!(err.to_string().contains("FOO"));
}

#[test]
fn shell_session_error_protected_env() {
    let err = ShellSessionError::ProtectedEnv("PATH".into());
    assert!(err.to_string().contains("protected"));
    assert!(err.to_string().contains("PATH"));
}

#[test]
fn errors_are_cloneable() {
    let err = WorkspaceError::NotFound("/x".into());
    let cloned = err.clone();
    assert_eq!(err, cloned);

    let err = BinaryError::NotAllowed("cmd".into());
    let cloned = err.clone();
    assert_eq!(err, cloned);
}

#[test]
fn test_sandbox_mode_from_config_str() {
    assert_eq!(SandboxMode::from_config_str("capability"), SandboxMode::Capability);
    assert_eq!(SandboxMode::from_config_str("host"), SandboxMode::Host);
    assert_eq!(SandboxMode::from_config_str("docker"), SandboxMode::Docker);
    assert_eq!(SandboxMode::from_config_str("unknown"), SandboxMode::Capability);
    assert_eq!(SandboxMode::from_config_str("DOCKER"), SandboxMode::Docker);
}

#[test]
fn test_docker_shell_command_quotes_args_without_chaining_each_arg() {
    let command = shell_command("/workspace/src dir", "/bin/echo", &["hello world".into(), "it's ok".into()]);

    assert_eq!(command, "cd '/workspace/src dir' && '/bin/echo' 'hello world' 'it'\\''s ok'");
}

#[test]
fn test_registry_from_absolute_paths() {
    let echo = which::which("echo").unwrap();
    let reg = BinaryRegistry::from_paths(&[echo.display().to_string()]).unwrap();
    let name = echo.file_name().unwrap().to_str().unwrap();
    assert!(reg.resolve(name).unwrap().starts_with('/'));
}

#[test]
fn test_from_patterns_glob_no_matches_warns() {
    let patterns = vec![BinaryPattern::Glob("/nonexistent_dir_xyz/*".into())];
    // The caller expanded the glob to nothing: no error, nothing registered.
    let reg = BinaryRegistry::from_patterns(&patterns, &[vec![]]).unwrap();
    assert_eq!(reg.len(), 0);
    assert!(reg.is_empty());
}

#[test]
fn test_from_patterns_exact_absolute_path_rejects_missing() {
    let patterns = vec![BinaryPattern::Exact("/nonexistent/binary_xyz".into())];
    let result = BinaryRegistry::from_patterns(&patterns, &[vec![]]);
    assert!(result.is_err());
}

#[test]
fn from_patterns_registers_names_of_each_kind() {
    let echo = which::which("echo").unwrap().display().to_string();
    let patterns = vec![
        BinaryPattern::Exact("echo".into()),
        BinaryPattern::Exact(echo.clone()),
        BinaryPattern::Glob("/usr/bin/tru*".into()),
    ];
    let reg = BinaryRegistry::from_patterns(&patterns, &[vec![], vec![], vec!["/usr/bin/true".into()]]).unwrap();
    assert!(reg.is_allowed("echo"));
    assert!(reg.is_allowed("true"));
    assert_eq!(reg.len(), 2);
    assert!(matches!(
        BinaryRegistry::from_patterns(&[BinaryPattern::Exact("bin/echo".into())], &[vec![]]),
        Err(BinaryError::NotFound(m)) if m == "bin/echo"
    ));
    assert!(matches!(
        BinaryRegistry::from_patterns(&[BinaryPattern::Exact("no-such-binary-duga".into())], &[vec![]]),
        Err(BinaryError::WhichFailed(n, _)) if n == "no-such-binary-duga"
    ));
    assert!(matches!(
        BinaryRegistry::from_paths(&["relative/echo".to_string()]),
        Err(BinaryError::NotFound(m)) if m == "relative/echo"
    ));
}

#[test]
fn allow_all_resolve_returns_bare_name() {
    let reg = BinaryRegistry::allow_all();
    assert_eq!(reg.resolve("echo").unwrap(), "echo");
}

#[test]
fn secret_fragment_is_looked_for_in_the_uppercased_name() {
    assert!(upper_has_secret_fragment("MY_API_KEY"));
    assert!(upper_has_secret_fragment("DB_PASSWORD_FILE"));
    assert!(!upper_has_secret_fragment("HOME"));
    // The function takes the name already uppercased.
    assert!(!upper_has_secret_fragment("my_api_key"));
    assert!(is_secret_pattern("my_api_key"));
}

#[test]
fn lowercase_mode_names() {
    assert_eq!(SandboxMode::from_lowercase_name("docker"), SandboxMode::Docker);
    assert_eq!(SandboxMode::from_lowercase_name("host"), SandboxMode::Host);
    assert_eq!(SandboxMode::from_lowercase_name("Docker"), SandboxMode::Capability);
    assert_eq!(SandboxMode::from_config_str("Docker"), SandboxMode::Docker);
}
