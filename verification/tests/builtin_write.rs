use duga::builtin::write::{
    symlink_check_paths, symlink_refusal, temp_write_name, write_path_resolution, write_report, WriteTool,
};
use duga::tools::error::ToolError;

fn denied(m: &str) -> Result<(String, bool), ToolError> {
    Err(ToolError::Denied(m.to_string()))
}

#[test]
fn test_resolve_write_relative_in_workspace() {
    assert_eq!(write_path_resolution("sub/new.txt", "/ws", &[], &[]), Ok(("sub/new.txt".to_string(), false)));
}

#[test]
fn test_resolve_write_relative_root_level() {
    let tool = WriteTool::new();
    assert_eq!(tool.resolve_write_path("/ws", "new.txt"), Ok(("new.txt".to_string(), false)));
}

#[test]
fn test_resolve_write_relative_prefers_workspace_with_aux_root() {
    let aux = vec!["/data".to_string()];
    assert_eq!(
        write_path_resolution("logs/output.log", "/ws", &aux, &aux),
        Ok(("logs/output.log".to_string(), false))
    );
}

#[test]
fn test_resolve_write_absolute_aux_path_to_aux() {
    let aux = vec!["/data".to_string()];
    assert_eq!(
        write_path_resolution("/data/logs/output.log", "/ws", &aux, &aux),
        Ok(("logs/output.log".to_string(), true))
    );
    // The canonical form of the root counts too.
    assert_eq!(
        write_path_resolution("/real/data/x.log", "/ws", &aux, &["/real/data".to_string()]),
        Ok(("x.log".to_string(), true))
    );
}

#[test]
fn test_resolve_write_absolute_aux_path_rejects_parent_traversal() {
    let aux = vec!["/data".to_string()];
    let result = write_path_resolution("/data/../etc/passwd", "/ws", &aux, &aux);
    assert_eq!(result, denied("path escapes auxiliary root: /data/../etc/passwd"));
}

#[test]
fn test_resolve_write_absolute_workspace_prefix_to_workspace() {
    let tool = WriteTool::new();
    assert_eq!(tool.resolve_write_path("/home/u/ws", "/workspace/README.md"), Ok(("README.md".to_string(), false)));
}

#[test]
fn test_resolve_write_not_found() {
    assert_eq!(
        write_path_resolution("/workspace/deep/nested/new.txt", "/ws", &[], &[]),
        Ok(("deep/nested/new.txt".to_string(), false))
    );
}

#[test]
fn test_resolve_write_workspace_priority() {
    let aux = vec!["/data".to_string()];
    let tool = WriteTool::new().with_aux_roots(aux);
    assert_eq!(tool.resolve_write_path("/ws", "logs/app.log"), Ok(("logs/app.log".to_string(), false)));
}

#[test]
fn test_write_escaped() {
    assert!(write_path_resolution("../x.txt", "/ws", &[], &[]).is_err());
    assert_eq!(write_path_resolution("../../etc/passwd", "/ws", &[], &[]), denied("path escapes workspace: ../../etc/passwd"));
    assert_eq!(write_path_resolution("/ws/../x", "/ws", &[], &[]), denied("path escapes workspace: /ws/../x"));
    assert_eq!(
        write_path_resolution("/etc/passwd", "/ws", &[], &[]),
        denied("path not in workspace or auxiliary roots: /etc/passwd")
    );
}

#[test]
fn symlink_checks_and_reports() {
    assert_eq!(
        symlink_check_paths("/ws", "a/b/c.txt"),
        vec!["/ws/a".to_string(), "/ws/a/b".to_string(), "/ws/a/b/c.txt".to_string()]
    );
    assert_eq!(symlink_refusal("/ws/a"), ToolError::Denied("path contains symlink: /ws/a".into()));
    assert_eq!(write_report("héllo", "notes.txt"), "Wrote 6 bytes to notes.txt");
    let t = temp_write_name();
    assert!(t.starts_with(".duga-write-") && t.ends_with(".tmp"));
    assert_ne!(t, temp_write_name());
}
