use duga::builtin::search::{
    is_file_searched, parse_extensions, path_display, steering_hint, ContextKind, SearchArgs,
    SearchCollector, SearchTool,
};
use duga::tools::error::ToolError;

fn args(query: &str) -> SearchArgs {
    SearchArgs {
        label: "Searching".into(),
        query: query.into(),
        path: None,
        literal: None,
        max_results: None,
        context_lines: None,
        extensions: None,
        glob: None,
        no_hidden: None,
        max_file_size: None,
        max_depth: None,
    }
}

#[test]
fn test_search_invalid_regex() {
    let r = SearchTool::new().plan("/ws", &args("[bad"));
    assert!(r.is_err());
    match r {
        Err(ToolError::InvalidArgs(m)) => assert!(m.starts_with("Invalid regex: ")),
        _ => panic!("expected invalid args"),
    }
}

#[test]
fn search_plan_defaults_and_literal_queries() {
    let p = SearchTool::new().plan("/ws", &SearchArgs { literal: Some(true), ..args("foo.bar[0]") }).unwrap();
    assert_eq!(p.root, "/ws/.");
    assert!(p.no_hidden);
    assert_eq!((p.max_depth, p.max_file_size, p.context_lines, p.max_results), (50, 10_485_760, 0, 200));
    assert!(p.extensions.is_none());
    let p = SearchTool::new()
        .plan("/ws", &SearchArgs { path: Some("src".into()), extensions: Some(" .RS, py,,".into()), ..args("main") })
        .unwrap();
    assert_eq!(p.root, "/ws/src");
    assert_eq!(p.extensions, Some(vec!["rs".to_string(), "py".to_string()]));
    assert!(matches!(
        SearchTool::new().plan("/ws", &SearchArgs { path: Some("../x".into()), ..args("a") }),
        Err(ToolError::Denied(m)) if m == "path escapes: ../x"
    ));
}

#[test]
fn extension_lists() {
    assert_eq!(parse_extensions("rs,py,ts"), vec!["rs", "py", "ts"]);
    assert_eq!(parse_extensions(""), Vec::<String>::new());
    assert_eq!(parse_extensions("..Md"), vec!["md"]);
}

#[test]
fn file_filters() {
    let exts = vec!["py".to_string()];
    assert!(is_file_searched("a/b.py", Some(&exts), None, Some(10), 100));
    assert!(is_file_searched("a/b.PY", Some(&exts), None, None, 100));
    assert!(!is_file_searched("a/b.rs", Some(&exts), None, Some(10), 100));
    assert!(!is_file_searched("a/b.py", Some(&exts), None, Some(101), 100));
    assert!(is_file_searched("tests/x.rs", None, Some("tests/*"), None, 100));
    assert!(!is_file_searched("src/x.rs", None, Some("tests/*"), None, 100));
    // An invalid glob filters nothing.
    assert!(is_file_searched("src/x.rs", None, Some("[["), None, 100));
}

#[test]
fn collector_formats_matches_and_context() {
    let mut c = SearchCollector::new(200, 0);
    c.start_file("t.txt".into());
    assert!(c.matched(Some(1), b"hello world\n"));
    assert!(c.matched(Some(3), b"hello again\r\n"));
    assert_eq!(c.output(), "t.txt:1: hello world\nt.txt:3: hello again");
    assert_eq!(c.match_count(), 2);

    let mut c = SearchCollector::new(200, 1);
    c.start_file("f.txt".into());
    c.context(ContextKind::Before, Some(2), b"line2\n");
    c.matched(Some(3), b"needle\n");
    c.context(ContextKind::After, Some(4), b"line4\n");
    assert_eq!(c.output(), "f.txt:3:\n 2: line2\n>3: needle\n 4: line4\n");

    let mut c = SearchCollector::new(1, 0);
    c.start_file("b.bin".into());
    assert!(!c.matched(None, &[0xff, 0xfe]));
    assert!(c.is_full());
    assert_eq!(c.output(), "b.bin:0: <binary>\n... (truncated, reached max_results of 1)");

    assert_eq!(SearchCollector::new(5, 0).output(), "No matches found");
}

#[test]
fn hints_and_display() {
    assert_eq!(steering_hint(50), None);
    assert_eq!(
        steering_hint(51).unwrap(),
        "Search returned 51 results. Consider narrowing with specific terms, extensions (e.g. extensions=\"rs,py\"), or a sub-path."
    );
    assert_eq!(path_display("/ws/src/a.rs", "/ws"), "src/a.rs");
    assert_eq!(path_display("/other/a.rs", "/ws"), "/other/a.rs");
}
