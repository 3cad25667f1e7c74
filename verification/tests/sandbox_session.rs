use duga::sandbox::shell_session::{SessionCommand, ShellSession};
use duga::sandbox::workspace::Workspace;

fn make_ws() -> Workspace {
    Workspace::from_root("/tmp".to_string())
}

#[test]
fn test_session_new() {
    let sess = ShellSession::new(".".into());
    assert_eq!(sess.cwd().as_str(), ".");
    assert!(sess.env().is_empty());
}

#[test]
fn test_classify_cd() {
    let cmd = ShellSession::classify(&["cd".into(), "src".into()]);
    assert_eq!(cmd, SessionCommand::Cd("src".into()));
}

#[test]
fn test_classify_export() {
    let cmd = ShellSession::classify(&["export".into(), "FOO=bar".into()]);
    assert_eq!(cmd, SessionCommand::Export("FOO".into(), "bar".into()));
}

#[test]
fn test_classify_export_no_value() {
    let cmd = ShellSession::classify(&["export".into(), "FOO".into()]);
    assert_eq!(cmd, SessionCommand::Export("FOO".into(), String::new()));
}

#[test]
fn test_classify_unset() {
    let cmd = ShellSession::classify(&["unset".into(), "FOO".into()]);
    assert_eq!(cmd, SessionCommand::Unset("FOO".into()));
}

#[test]
fn test_classify_pwd() {
    let cmd = ShellSession::classify(&["pwd".into()]);
    assert_eq!(cmd, SessionCommand::Pwd);
}

#[test]
fn test_classify_spawn() {
    let cmd = ShellSession::classify(&["ls".into(), "-la".into()]);
    assert_eq!(cmd, SessionCommand::Spawn(vec!["ls".into(), "-la".into()]));
}

#[test]
fn test_apply_cd() {
    let ws = make_ws();
    let mut sess = ShellSession::new(".".into());
    let result = sess.apply(SessionCommand::Cd(".".into()), &ws);
    assert!(result.is_ok());
    assert_eq!(sess.cwd().as_str(), ".");
}

#[test]
fn test_apply_pwd() {
    let mut sess = ShellSession::new("src".into());
    let result = sess.apply(SessionCommand::Pwd, &Workspace::from_root("/tmp".into())).unwrap();
    assert_eq!(result, Some("src".into()));
}

#[test]
fn test_apply_export() {
    let ws = make_ws();
    let mut sess = ShellSession::new(".".into());
    sess.apply(SessionCommand::Export("FOO".into(), "bar".into()), &ws).unwrap();
    assert_eq!(sess.env().get("FOO"), Some(&"bar".to_string()));
}

#[test]
fn test_apply_unset() {
    let ws = make_ws();
    let mut sess = ShellSession::new(".".into());
    sess.env_mut().insert("FOO".into(), "bar".into());
    sess.apply(SessionCommand::Unset("FOO".into()), &ws).unwrap();
    assert!(!sess.env().contains_key("FOO"));
}

#[test]
fn test_apply_spawn_returns_none() {
    let ws = make_ws();
    let mut sess = ShellSession::new(".".into());
    let result = sess.apply(SessionCommand::Spawn(vec!["ls".into()]), &ws).unwrap();
    assert!(result.is_none());
}
