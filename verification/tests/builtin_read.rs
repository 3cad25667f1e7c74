use duga::builtin::read::{
    aux_window, binary_preview, choose_read_path, detect_limit, read_candidates, read_limit, ReadCandidate, ReadTool,
};
use duga::tools::error::ToolError;

#[test]
fn relative_path_candidates() {
    assert_eq!(
        read_candidates("notes/a.txt", "/ws", None, &[]),
        vec![ReadCandidate::Workspace("notes/a.txt".into()), ReadCandidate::Aux("notes/a.txt".into())]
    );
    // `..` leaves the workspace and is not tried in the auxiliary roots.
    assert_eq!(read_candidates("../etc/passwd", "/ws", None, &[]), vec![]);
}

#[test]
fn absolute_path_candidates() {
    let aux = vec!["/data".to_string()];
    let c = read_candidates("/ws/skills/x/SKILL.md", "/ws", None, &aux);
    assert_eq!(
        c,
        vec![
            ReadCandidate::Workspace("skills/x/SKILL.md".into()),
            ReadCandidate::Aux("skills/x/SKILL.md".into()),
        ]
    );
    let c = read_candidates("/workspace/skills/a.md", "/home/u/ws", None, &aux);
    assert_eq!(
        c,
        vec![
            ReadCandidate::Workspace("skills/a.md".into()),
            ReadCandidate::Aux("skills/a.md".into()),
            ReadCandidate::Workspace("skills/a.md".into()),
            ReadCandidate::Aux("skills/a.md".into()),
        ]
    );
    let c = read_candidates("/data/42/log.jsonl", "/ws", Some("/real/data/42/log.jsonl"), &["/real/data".to_string()]);
    assert_eq!(c, vec![ReadCandidate::AuxRoot(0, "42/log.jsonl".into())]);
}

#[test]
fn choosing_the_first_found() {
    let cands = vec![ReadCandidate::Workspace("a".into()), ReadCandidate::Aux("a".into())];
    assert_eq!(choose_read_path("a", &cands, &[false, true]), Ok(("a".to_string(), true)));
    assert_eq!(choose_read_path("a", &cands, &[true, true]), Ok(("a".to_string(), false)));
    assert_eq!(
        choose_read_path("a", &cands, &[false, false]),
        Err(ToolError::Denied("path not in workspace or auxiliary roots: a".into()))
    );
}

#[test]
fn read_tool_resolves_in_a_real_directory() {
    let tool = ReadTool::new();
    assert_eq!(tool.resolve_path("/", "tmp"), Ok(("tmp".to_string(), false)));
    assert_eq!(tool.resolve_path("/", "/tmp"), Ok(("tmp".to_string(), false)));
    assert!(matches!(tool.resolve_path("/", "missing-duga-entry-17"), Err(ToolError::Denied(_))));
    let aux_tool = ReadTool::new().with_aux_roots(vec!["/".to_string()]);
    assert_eq!(aux_tool.resolve_path("/nonexistent-duga-ws", "tmp"), Ok(("tmp".to_string(), true)));
}

#[test]
fn read_limits_and_windows() {
    assert_eq!(read_limit(None), 256 * 1024);
    assert_eq!(read_limit(Some(10)), 10);
    assert_eq!(read_limit(Some(u64::MAX)), 4 * 1024 * 1024);
    assert_eq!(detect_limit(100), 100);
    assert_eq!(detect_limit(1 << 20), 8192);
    assert_eq!(aux_window(10, None, Some(4)), (0, 4));
    assert_eq!(aux_window(10, Some(8), Some(4)), (8, 10));
    assert_eq!(aux_window(10, Some(10), None), (10, 10));
    assert_eq!(aux_window(10, Some(u64::MAX), None), (10, 10));
}

#[test]
fn binary_files_show_a_hex_preview() {
    assert_eq!(binary_preview(b"plain text"), None);
    assert_eq!(
        binary_preview(&[0x00, 0xff, 0x1a]),
        Some("<binary file: 3 bytes, first 64 bytes hex: 00 ff 1a>".to_string())
    );
    let big = vec![0u8; 100];
    let p = binary_preview(&big).unwrap();
    assert!(p.starts_with("<binary file: 100 bytes, first 64 bytes hex: 00 00"));
    assert_eq!(p.matches("00").count(), 64 + 1);
}

#[test]
fn aux_root_candidates_never_go_up() {
    let aux = vec!["/data".to_string()];
    assert_eq!(read_candidates("/data/../etc/passwd", "/ws", None, &aux), vec![]);
    assert_eq!(
        read_candidates("/data/notes.txt", "/ws", None, &aux),
        vec![ReadCandidate::AuxRoot(0, "notes.txt".to_string())]
    );
}
