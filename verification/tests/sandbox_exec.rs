use duga::sandbox::exec::{apply_combined_limit, finish_output, format_output, truncation_notice, CappedCapture, OutputLimits};
use duga::sandbox::executor::{docker_env, CommandSpec, DockerExecutor};
use duga::sandbox::workspace::{path_components, strip_path_prefix, Workspace};
use duga::tools::error::ToolError;

#[test]
fn capped_capture_stops_at_limit() {
    // A stream that ends exactly at the limit is kept whole, not truncated.
    let mut c = CappedCapture::new(10);
    let n = c.next_read();
    assert_eq!(n, 10);
    c.absorb(b"hello");
    assert_eq!(c.next_read(), 5);
    c.absorb(b"world");
    assert_eq!(c.next_read(), 1);
    let (bytes, buf, truncated) = c.finish();
    assert_eq!((bytes, buf.as_slice(), truncated), (10, &b"helloworld"[..], false));

    // A byte beyond the limit truncates the capture and stops reading.
    let mut c = CappedCapture::new(10);
    c.absorb(b"helloworld");
    c.absorb(b"!");
    assert_eq!(c.next_read(), 0);
    let (bytes, buf, truncated) = c.finish();
    assert_eq!((bytes, buf.as_slice(), truncated), (10, &b"helloworld"[..], true));

    let mut small = CappedCapture::new(100);
    assert_eq!(small.next_read(), 100);
    small.absorb(b"ok");
    let (bytes, buf, truncated) = small.finish();
    assert_eq!((bytes, buf, truncated), (2, b"ok".to_vec(), false));
}

#[test]
fn capped_capture_zero_limit_without_output_is_not_truncated() {
    let c = CappedCapture::new(0);
    assert_eq!(c.next_read(), 1);
    let (bytes, buf, truncated) = c.finish();
    assert_eq!((bytes, buf, truncated), (0, Vec::new(), false));

    let mut c = CappedCapture::new(0);
    c.absorb(b"x");
    let (bytes, _, truncated) = c.finish();
    assert_eq!((bytes, truncated), (0, true));
}

#[test]
fn combined_limit_cuts_stderr_first() {
    let mut out = b"abcdef".to_vec();
    let mut err = b"123456".to_vec();
    assert!(apply_combined_limit(&mut out, &mut err, 6, 6, 8));
    assert_eq!((out.as_slice(), err.as_slice()), (&b"abcdef"[..], &b"12"[..]));
    let mut out = b"abcdef".to_vec();
    let mut err = b"123".to_vec();
    assert!(apply_combined_limit(&mut out, &mut err, 6, 3, 4));
    assert_eq!((out.as_slice(), err.as_slice()), (&b"abcd"[..], &b""[..]));
    assert!(!apply_combined_limit(&mut out, &mut err, 2, 2, 4));
}

#[test]
fn output_formatting() {
    assert_eq!(format_output("", "", Some(0)), "");
    assert_eq!(format_output("", "", Some(2)), "EXIT: 2");
    assert_eq!(format_output("out", "", None), "out\nSIGNAL: killed");
    assert_eq!(format_output("o", "e", Some(0)), "STDOUT:\no\nSTDERR:\ne\nEXIT: 0");
    assert_eq!(truncation_notice("stdout", 10), "stdout exceeded 10 byte limit");
    let limits = OutputLimits { max_stdout_bytes: 4, max_stderr_bytes: 4, max_combined_bytes: 6 };
    let (text, truncated) = finish_output("abcd", "xy", Some(0), &limits, 4, 4, true, false);
    assert!(truncated);
    assert_eq!(
        text,
        "STDOUT:\nabcd\nSTDERR:\nxy\nEXIT: 0\n[TRUNCATED] stdout exceeded 4 byte limit\n[TRUNCATED] combined output exceeded 6 byte limit"
    );
}

#[test]
fn docker_executor_builds_exec_arguments() {
    assert_eq!(
        DockerExecutor::with_checks("", "/workspace").unwrap_err(),
        ToolError::Denied("Docker container name must not be empty".into())
    );
    assert_eq!(
        DockerExecutor::with_checks("c", "").unwrap_err(),
        ToolError::Denied("Docker workspace mount must not be empty".into())
    );
    let d = DockerExecutor::with_checks("box", "/workspace").unwrap();
    assert_eq!(d.translate_to_container("src"), "/workspace/src");
    assert_eq!(d.translate_to_host("/workspace/src/a.rs"), Some("src/a.rs".into()));
    assert_eq!(d.translate_to_host("/other/a.rs"), None);
    let spec = CommandSpec {
        program: "/bin/echo".into(),
        args: vec!["hi there".into()],
        cwd: "src".into(),
        env: vec![("A".into(), "1".into())],
    };
    assert_eq!(
        d.exec_args(&spec).unwrap(),
        vec!["exec", "-e", "A=1", "--workdir", "/workspace/src", "box", "sh", "-c", "cd '/workspace/src' && '/bin/echo' 'hi there'"]
    );
    let escaping = CommandSpec { program: "x".into(), args: vec![], cwd: "../up".into(), env: vec![] };
    assert_eq!(d.exec_args(&escaping).unwrap_err(), ToolError::Denied("path escapes workspace: \"../up\"".into()));
    let env = docker_env(&vec![("A".into(), "1".into())], Some("/usr/bin".into()));
    assert_eq!(env, vec![("A".to_string(), "1".to_string()), ("PATH".to_string(), "/usr/bin".to_string())]);
    let env = docker_env(&vec![("PATH".into(), "/x".into())], Some("/usr/bin".into()));
    assert_eq!(env, vec![("PATH".to_string(), "/x".to_string())]);
}

#[test]
fn paths_and_workspace_resolution() {
    assert_eq!(path_components("/a//b/./c/"), vec!["a", "b", "c"]);
    assert_eq!(strip_path_prefix("/ws/a/b", "/ws"), Some("a/b".into()));
    assert_eq!(strip_path_prefix("/wsx/a", "/ws"), None);
    assert_eq!(strip_path_prefix("/ws", "/ws/"), Some("".into()));
    let ws = Workspace::from_root("/root/ws".into());
    assert_eq!(ws.resolve("a/./b//c"), Ok("a/b/c".to_string()));
    assert_eq!(ws.resolve(""), Ok(".".to_string()));
    assert!(ws.resolve("/etc/passwd").is_err());
    assert!(ws.resolve("a/../../b").is_err());
    // A resolved path resolves to itself.
    let once = ws.resolve("x/./y").unwrap();
    assert_eq!(ws.resolve(&once), Ok(once.clone()));
}

#[test]
fn whole_run_truncation_counts_kept_bytes() {
    let limits = OutputLimits { max_stdout_bytes: 10, max_stderr_bytes: 10, max_combined_bytes: 15 };
    let mut out = CappedCapture::new(limits.max_stdout_bytes);
    let mut err = CappedCapture::new(limits.max_stderr_bytes);
    out.absorb(b"0123456789AB");
    err.absorb(b"abcdefgh");
    assert_eq!(out.next_read(), 0);
    let (out_bytes, out_buf, out_trunc) = out.finish();
    let (err_bytes, err_buf, err_trunc) = err.finish();
    assert_eq!((out_bytes, out_buf.as_slice(), out_trunc), (10, &b"0123456789"[..], true));
    assert_eq!((err_bytes, err_buf.as_slice(), err_trunc), (8, &b"abcdefgh"[..], false));
    let (_, truncated) = finish_output("0123456789", "abcdefgh", Some(0), &limits, out_bytes, err_bytes, out_trunc, err_trunc);
    assert!(truncated);

    // Within every limit, nothing is reported truncated.
    let mut out = CappedCapture::new(limits.max_stdout_bytes);
    out.absorb(b"12345");
    let (out_bytes, _, out_trunc) = out.finish();
    let (text, truncated) = finish_output("12345", "", Some(0), &limits, out_bytes, 0, out_trunc, false);
    assert!(!truncated);
    assert!(!text.contains("[TRUNCATED]"));
}
