use duga::telegram::send_file::{
    check_send_policy, check_send_size, fit_caption, get_send_method, path_extension, resolve_send_path, send_path_with_canonical,
    send_method_name, SendFileConfig, SendMethod,
};
use duga::telegram::formatting::{
    chunk_message, escape_telegram_plain_text, format_final_message, maybe_collapse,
    sanitize_tool_call_syntax,
};
use duga::telegram::markdown::markdown_to_telegram_html;

#[test]
fn test_escape_html_chars() {
    let result = escape_telegram_plain_text("<script>alert('xss')</script>");
    assert!(!result.contains('<'));
    assert!(!result.contains('>'));
}

#[test]
fn test_chunk_short_message() {
    let chunks = chunk_message("hello");
    assert_eq!(chunks.len(), 1);
    assert_eq!(chunks[0], "hello");
}

#[test]
fn test_chunk_long_message() {
    let line = "a".repeat(100) + "\n";
    let text: String = std::iter::repeat(&line).take(100).cloned().collect();
    let chunks = chunk_message(&text);
    assert!(chunks.len() > 1);
    for chunk in &chunks {
        assert!(chunk.len() <= 4000);
    }
}

#[test]
fn test_chunk_message_natural_breaks() {
    let text = "Line one\nLine two\nLine three";
    let text = text.repeat(1000);
    let chunks = chunk_message(&text);
    for chunk in &chunks {
        assert!(chunk.len() <= 4000);
    }
}

#[test]
fn test_escape_html_special_chars() {
    assert_eq!(duga::telegram::formatting::escape_html("&"), "&amp;");
    assert_eq!(duga::telegram::formatting::escape_html("<"), "&lt;");
    assert_eq!(duga::telegram::formatting::escape_html(">"), "&gt;");
    assert_eq!(duga::telegram::formatting::escape_html("<b>bold</b>"), "&lt;b&gt;bold&lt;/b&gt;");
}

#[test]
fn test_maybe_collapse_short_text() {
    let (result, needs_html) = maybe_collapse("short", 10);
    assert_eq!(result, "short");
    assert!(!needs_html);
}

#[test]
fn test_maybe_collapse_long_text() {
    let (result, needs_html) = maybe_collapse("this is a very long message", 10);
    assert!(result.starts_with("<blockquote expandable>"));
    assert!(result.ends_with("</blockquote>"));
    assert!(needs_html);
}

#[test]
fn test_maybe_collapse_escapes_html() {
    let (result, _needs_html) = maybe_collapse("<script>alert(1)</script>", 5);
    assert!(!result.contains('<') || result.starts_with("<blockquote"));
    assert!(result.contains("&lt;script&gt;"));
}

#[test]
fn test_chunk_message_then_wrap_html() {
    let raw = "Line A\nLine B\nLine C".repeat(500);
    let raw_chunks = chunk_message(&raw);
    let html_chunks: Vec<String> = raw_chunks
        .iter()
        .map(|c| format!("<blockquote expandable>{}</blockquote>", duga::telegram::formatting::escape_html(c)))
        .collect();
    for chunk in &html_chunks {
        assert!(chunk.starts_with("<blockquote expandable>"));
        assert!(chunk.ends_with("</blockquote>"));
        assert!(chunk.len() <= 4096);
    }
}

#[test]
fn sanitize_removes_tool_calls_closing_tag() {
    let input = "Some text </tool_calls> more text";
    let result = sanitize_tool_call_syntax(input);
    assert_eq!(result, "Some text  more text");
}

#[test]
fn sanitize_removes_invoke_block() {
    let input = "Before <invoke name=\"shell\">\n  <parameter name=\"cmd\">curl</parameter>\n</invoke> After";
    let result = sanitize_tool_call_syntax(input);
    assert_eq!(result, "Before [tool call removed] After");
}

#[test]
fn sanitize_removes_parameter_blocks() {
    let input = "Text <parameter name=\"x\">value</parameter> end";
    let result = sanitize_tool_call_syntax(input);
    assert_eq!(result, "Text end");
}

#[test]
fn sanitize_preserves_normal_text() {
    let input = "Normal text with < and > characters";
    let result = sanitize_tool_call_syntax(input);
    assert_eq!(result, input);
}

#[test]
fn sanitize_handles_nested_like_pattern() {
    let input = "Done. </tool_calls>\n<invoke name=\"shell\">\n<parameter name=\"command\" string=\"false\">[\"curl\",\"-s\"]</parameter>\n</invoke>";
    let result = sanitize_tool_call_syntax(input);
    assert!(!result.contains("</tool_calls>"), "closing tag should be removed");
    assert!(!result.contains("<invoke"), "invoke block should be removed");
    assert!(!result.contains("</invoke>"), "invoke closing should be removed");
    assert!(!result.contains("<parameter"), "parameter should be removed");
}

// ── integration scenarios from the bot flow ──

#[test]
fn escape_html() {
    let result = escape_telegram_plain_text("<b>bold</b>");
    assert!(!result.contains('<'));
    assert!(!result.contains('>'));
    assert!(result.contains("&lt;"));
}

#[test]
fn chunk_short_message() {
    let chunks = chunk_message("hello");
    assert_eq!(chunks.len(), 1);
    assert_eq!(chunks[0], "hello");
}

#[test]
fn chunk_long_message_splits_on_newlines() {
    let line = "a".repeat(100) + "\n";
    let text: String = std::iter::repeat(&line).take(100).cloned().collect();
    let chunks = chunk_message(&text);
    assert!(chunks.len() > 1);
    for chunk in &chunks {
        assert!(chunk.len() <= 4000);
    }
}

#[test]
fn empty_string() {
    assert_eq!(markdown_to_telegram_html(""), "");
}

#[test]
fn whitespace_only() {
    let result = markdown_to_telegram_html("   \n  ");
    assert!(result.is_empty());
}

#[test]
fn html_injection_is_escaped() {
    let result = markdown_to_telegram_html("<script>alert('xss')</script>");
    assert!(!result.contains("<script>"));
    assert!(result.contains("&lt;script&gt;"));
}

#[test]
fn link_with_html_injection_in_text() {
    let result = markdown_to_telegram_html("[<script>](https://safe.com)");
    assert!(!result.contains("<script>"));
    assert!(result.contains("&lt;script&gt;"));
    assert!(result.contains("href=\"https://safe.com\""));
}

#[test]
fn format_final_message_delegates() {
    let result = format_final_message("**bold** and *italic*");
    assert!(result.contains("<b>"));
    assert!(result.contains("<i>"));
}

#[test]
fn format_final_message_escapes_plain_text() {
    let result = format_final_message("<script>alert(1)</script>");
    assert!(!result.contains("<script>"));
    assert!(result.contains("&lt;script&gt;"));
}

// ── additional checks ──

#[test]
fn chunks_rejoin_to_the_original_text() {
    let text = "word ".repeat(2500);
    let chunks = chunk_message(&text);
    assert!(chunks.len() > 1);
    assert_eq!(chunks.concat(), text);
}

#[test]
fn chunk_cuts_at_last_newline_before_the_limit() {
    let text = format!("{}\n{}", "x".repeat(3000), "y".repeat(3000));
    let chunks = chunk_message(&text);
    assert_eq!(chunks, vec!["x".repeat(3000), format!("\n{}", "y".repeat(3000))]);
}

#[test]
fn chunk_counts_bytes_not_characters() {
    let text = "é".repeat(2500);
    let chunks = chunk_message(&text);
    assert_eq!(chunks.len(), 2);
    assert_eq!(chunks[0].len(), 4000);
    assert_eq!(chunks[1].len(), 1000);
}

#[test]
fn markdown_heading_code_and_link() {
    let html = markdown_to_telegram_html("# Title\n\n`a<b`\n\n```rust\nfn x() {}\n```\n\n[t](https://e.com/?a=\"1\")");
    assert!(html.starts_with("<b>Title</b>"));
    assert!(html.contains("<code>a&lt;b</code>"));
    assert!(html.contains("<pre><code class=\"language-rust\">fn x() {}\n</code></pre>"));
    assert!(html.contains("<a href=\"https://e.com/?a=&quot;1&quot;\">t</a>"));
}

#[test]
fn markdown_list_items_get_bullets() {
    let html = markdown_to_telegram_html("- one\n- two");
    assert!(html.contains("• one"));
    assert!(html.contains("• two"));
}

#[test]
fn sanitize_unclosed_invoke_is_kept() {
    assert_eq!(sanitize_tool_call_syntax("a <invoke name=x> b"), "a <invoke name=x> b");
}

#[test]
fn send_file_methods_and_checks() {
    assert_eq!(get_send_method("image.jpg", false), SendMethod::Document);
    assert_eq!(get_send_method("photo.JPEG", true), SendMethod::Photo);
    assert_eq!(get_send_method("song.mp3", false), SendMethod::Audio);
    assert_eq!(get_send_method("vid.mkv", false), SendMethod::Video);
    assert_eq!(get_send_method("animated.GIF", false), SendMethod::Animation);
    assert_eq!(get_send_method("voice.ogg", false), SendMethod::Voice);
    assert_eq!(get_send_method(".bashrc", true), SendMethod::Document);
    assert_eq!(send_method_name(SendMethod::Animation), "animation");
    assert_eq!(path_extension("dir/archive.tar.gz"), Some("gz".into()));
    assert_eq!(path_extension("dir/.hidden"), None);
    assert_eq!(resolve_send_path("/srv/ws", "out/chart.png"), Ok("out/chart.png".into()));
    assert_eq!(resolve_send_path("/srv/ws", "/srv/ws/out/chart.png"), Ok("out/chart.png".into()));
    assert_eq!(resolve_send_path("/srv/ws", "/workspace/chess.svg"), Ok("chess.svg".into()));
    assert_eq!(resolve_send_path("/srv/ws", "../x"), Err("path escapes workspace: ../x".into()));
    let config = SendFileConfig { enabled: true, allowed_extensions: vec![".png".into(), ".pdf".into()], max_file_size_mb: 1 };
    assert_eq!(check_send_policy(&config, "a/b.PNG"), Ok(()));
    assert_eq!(
        check_send_policy(&config, "a/b.exe"),
        Err("Error: file extension '.exe' is not in the allowed list: [\".png\", \".pdf\"]".into())
    );
    let disabled = SendFileConfig { enabled: false, allowed_extensions: vec![], max_file_size_mb: 1 };
    assert_eq!(check_send_policy(&disabled, "a"), Err("Error: send_file is disabled in bot configuration.".into()));
    assert_eq!(check_send_size(&config, 1048576), Ok(()));
    assert_eq!(check_send_size(&config, 1048577), Err("Error: file too large (1048577 bytes, max 1 MB)".into()));
    let long: String = "x".repeat(1030);
    let fitted = fit_caption(&long);
    assert_eq!(fitted.chars().count(), 1022);
    assert!(fitted.ends_with('…'));
    assert_eq!(fit_caption("short"), "short");
}

#[test]
fn chunk_never_cuts_at_the_very_start() {
    // The only newline is at the start of the second chunk's window.
    let text = format!("a\n{}", "b".repeat(5000));
    let chunks = chunk_message(&text);
    assert_eq!(chunks.concat(), text);
    assert!(chunks.iter().all(|c| !c.is_empty() && c.len() <= 4000));
}

#[test]
fn chunk_cuts_between_characters() {
    let text = format!("a{}", "é".repeat(2001));
    assert_eq!(text.len(), 4003);
    let chunks = chunk_message(&text);
    assert_eq!(chunks.concat(), text);
    assert_eq!(chunks[0].len(), 3999);
    assert!(chunks.iter().all(|c| !c.is_empty() && c.len() <= 4000));
}

#[test]
fn send_path_uses_the_canonical_form_given() {
    assert_eq!(
        send_path_with_canonical("/srv/ws", "/tmp/link/a.txt", Some("/srv/ws/docs/a.txt".into())),
        Ok("docs/a.txt".into())
    );
    assert_eq!(
        send_path_with_canonical("/srv/ws", "/tmp/link/a.txt", None),
        Err("path escapes workspace: /tmp/link/a.txt".into())
    );
    assert_eq!(
        send_path_with_canonical("/srv/ws", "/tmp/link/a.txt", Some("/etc/passwd".into())),
        Err("path escapes workspace: /tmp/link/a.txt".into())
    );
    // A path under the root needs no lookup: what was looked up is not used.
    assert_eq!(
        send_path_with_canonical("/srv/ws", "/srv/ws/a.txt", Some("/srv/ws/b.txt".into())),
        Ok("a.txt".into())
    );
}
