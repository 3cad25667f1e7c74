use duga::builtin::bash::session_reply;
use duga::builtin::skill_remove::{RemoveSkillArgs, RemoveSkillTool, SkillRemoveTarget};
use duga::sandbox::executor::reject_protected_env;
use duga::telegram::send_file::{resolve_send_path, send_refusal_reply, SendFileConfig};
use duga::tools::error::ToolError;

fn words(ws: &[&str]) -> Vec<String> {
    ws.iter().map(|w| w.to_string()).collect()
}

fn config() -> SendFileConfig {
    SendFileConfig { enabled: true, allowed_extensions: vec![".png".into()], max_file_size_mb: 1 }
}

#[test]
fn shell_builtins_reply_with_their_action() {
    let r = session_reply(&words(&["pwd"]), "src".into()).unwrap();
    assert!(r.success);
    assert_eq!(r.output, "src");
    assert_eq!(r.metadata.to_text(), "{\"action\":\"pwd\"}");
    let r = session_reply(&words(&["cd", "src"]), "src".into()).unwrap();
    assert_eq!(r.metadata.to_text(), "{\"action\":\"cd\"}");
    assert!(session_reply(&words(&["ls", "-la"]), String::new()).is_none());
}

#[test]
fn remove_skill_twice_reports_nothing_removed() {
    let tool = RemoveSkillTool::new(String::new(), String::new());
    let a = RemoveSkillArgs { label: "l".into(), target: SkillRemoveTarget::Global, channel_id: None, name: "meta-test".into() };
    let first = tool.reply(&a, true);
    assert!(first.success);
    assert_eq!(first.metadata.to_text(), "{\"name\":\"meta-test\",\"target\":\"global\",\"removed\":true}");
    let second = tool.reply(&a, false);
    assert!(second.success);
    assert!(second.output.contains("does not exist"));
    assert_eq!(second.metadata.to_text(), "{\"name\":\"meta-test\",\"target\":\"global\",\"removed\":false}");
}

#[test]
fn send_file_refusals_in_order() {
    let escaping = resolve_send_path("/srv/ws", "/workspace/../etc/passwd");
    let msg = escaping.clone().unwrap_err();
    let r = send_refusal_reply(&config(), "/workspace/../etc/passwd", &escaping, false, 0).unwrap();
    assert!(!r.success);
    assert_eq!(r.output, format!("Error: {msg}"));
    assert!(r.output.contains("path escapes workspace"));
    assert_eq!(r.metadata.to_text(), "{\"error\":\"path_escapes_workspace\"}");

    let ok = Ok("out/a.png".to_string());
    let r = send_refusal_reply(&config(), "out/a.png", &ok, false, 0).unwrap();
    assert_eq!(r.output, "Error: file not found: out/a.png");
    assert_eq!(r.metadata.to_text(), "{\"error\":\"file_not_found\"}");

    let disabled = SendFileConfig { enabled: false, ..config() };
    let r = send_refusal_reply(&disabled, "out/a.png", &ok, true, 0).unwrap();
    assert_eq!(r.output, "Error: send_file is disabled in bot configuration.");
    assert_eq!(r.metadata.to_text(), "{\"error\":\"disabled\"}");

    let txt = Ok("out/a.txt".to_string());
    let r = send_refusal_reply(&config(), "out/a.txt", &txt, true, 0).unwrap();
    assert_eq!(r.metadata.to_text(), "{\"error\":\"extension_not_allowed\"}");

    let r = send_refusal_reply(&config(), "out/a.png", &ok, true, 2_000_000).unwrap();
    assert_eq!(r.output, "Error: file too large (2000000 bytes, max 1 MB)");
    assert_eq!(r.metadata.to_text(), "{\"error\":\"file_too_large\",\"file_size\":2000000}");

    assert!(send_refusal_reply(&config(), "out/a.png", &ok, true, 10).is_none());
}

#[test]
fn docker_refuses_protected_variables() {
    let protected = words(&["LD_PRELOAD", "PATH"]);
    let env = vec![("A".to_string(), "1".to_string()), ("LD_PRELOAD".to_string(), "x.so".to_string())];
    assert_eq!(
        reject_protected_env(&env, &protected),
        Err(ToolError::Denied("protected environment variable cannot be set: LD_PRELOAD".into()))
    );
    assert_eq!(reject_protected_env(&env[..1].to_vec(), &protected), Ok(()));
}
