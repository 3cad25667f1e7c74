use duga::telegram::attachments::sanitize_filename;
use duga::telegram::markdown::markdown_to_telegram_html;

#[test]
fn plain_text_no_markdown() {
    let result = markdown_to_telegram_html("Hello world");
    // Plain text should be HTML-escaped (identical to escape_html output).
    assert_eq!(result, "Hello world");
}

#[test]
fn plain_text_with_special_chars() {
    let result = markdown_to_telegram_html("a <b> & c");
    assert_eq!(result, "a &lt;b&gt; &amp; c");
}

#[test]
fn bold_text() {
    let result = markdown_to_telegram_html("**bold text**");
    assert!(result.contains("<b>") && result.contains("</b>"));
    assert!(result.contains("bold text"));
}

#[test]
fn italic_text() {
    let result = markdown_to_telegram_html("*italic text*");
    assert!(result.contains("<i>") && result.contains("</i>"));
    assert!(result.contains("italic text"));
}

#[test]
fn strikethrough_text() {
    let result = markdown_to_telegram_html("~~struck~~");
    assert!(result.contains("<s>") && result.contains("</s>"));
    assert!(result.contains("struck"));
}

#[test]
fn nested_bold_in_italic() {
    let result = markdown_to_telegram_html("*italic **and bold***");
    assert!(result.contains("<i>"));
    assert!(result.contains("<b>"));
    assert!(result.contains("</b>"));
    assert!(result.contains("</i>"));
}

#[test]
fn nested_italic_in_bold() {
    let result = markdown_to_telegram_html("**bold *and italic***");
    assert!(result.contains("<b>"));
    assert!(result.contains("<i>"));
    assert!(result.contains("</i>"));
    assert!(result.contains("</b>"));
}

#[test]
fn inline_code() {
    let result = markdown_to_telegram_html("use `let x = 1;` here");
    assert!(result.contains("<code>"));
    assert!(result.contains("</code>"));
    assert!(result.contains("let x = 1;"));
}

#[test]
fn fenced_code_block_with_language() {
    let result = markdown_to_telegram_html("```rust\nfn main() {}\n```");
    assert!(result.contains("<pre><code class=\"language-rust\">"));
    assert!(result.contains("fn main() {}"));
    assert!(result.contains("</code></pre>"));
}

#[test]
fn fenced_code_block_no_language() {
    let result = markdown_to_telegram_html("```\nplain code\n```");
    assert!(result.contains("<pre><code>"));
    assert!(!result.contains("class="));
    assert!(result.contains("plain code"));
    assert!(result.contains("</code></pre>"));
}

#[test]
fn code_block_generic_types() {
    // Vec<T>, HashMap<K, V> — must be HTML-escaped inside <code>.
    let result = markdown_to_telegram_html("```rust\nlet v: Vec&lt;T&gt; = vec![];\nlet m: HashMap&lt;K, V&gt; = HashMap::new();\n```");
    assert!(result.contains("Vec"));
    // The raw < and > in code must be escaped to prevent Telegram 400 errors.
    assert!(!result
        .chars()
        .any(|c| c == '<' && !result.contains("<pre") && !result.contains("<code")));
}

#[test]
fn code_block_logic_symbols() {
    // &&, ||, <, > — must be HTML-escaped inside <code>.
    let md = "```c\nif (a &lt; b &amp;&amp; c &gt; d) { return true; }\n```";
    let result = markdown_to_telegram_html(md);
    // The result should contain escaped entities, not raw < > &
    assert!(result.contains("&amp;"));
}

#[test]
fn link_basic() {
    let result = markdown_to_telegram_html("[click here](https://example.com)");
    assert!(result.contains("<a href=\"https://example.com\">"));
    assert!(result.contains("click here"));
    assert!(result.contains("</a>"));
}

#[test]
fn link_special_chars_in_url() {
    let result =
        markdown_to_telegram_html("[docs](https://example.com/search?q=foo&bar=baz)");
    assert!(result.contains("href=\""));
    assert!(result.contains("search?q=foo&amp;bar=baz"));
}

#[test]
fn blockquote_single_line() {
    let result = markdown_to_telegram_html("> quoted text");
    assert!(result.contains("<blockquote>"));
    assert!(result.contains("quoted text"));
    assert!(result.contains("</blockquote>"));
}

#[test]
fn blockquote_multi_line() {
    let result = markdown_to_telegram_html("> line one\n> line two\n> line three");
    assert!(result.contains("<blockquote>"));
    assert!(result.contains("line one"));
    assert!(result.contains("line two"));
    assert!(result.contains("line three"));
    assert!(result.contains("</blockquote>"));
}

#[test]
fn heading_becomes_bold() {
    let result = markdown_to_telegram_html("# Heading 1");
    assert!(result.contains("<b>"));
    assert!(result.contains("Heading 1"));
    assert!(result.contains("</b>"));
}

#[test]
fn heading_level_2() {
    let result = markdown_to_telegram_html("## Subheading");
    assert!(result.contains("<b>"));
    assert!(result.contains("Subheading"));
    assert!(result.contains("</b>"));
}

#[test]
fn unordered_list() {
    let result = markdown_to_telegram_html("- item one\n- item two\n- item three");
    assert!(result.contains("• item one"));
    assert!(result.contains("• item two"));
    assert!(result.contains("• item three"));
}

#[test]
fn ordered_list_renders_as_bullets() {
    let result = markdown_to_telegram_html("1. first\n2. second\n3. third");
    // Telegram has no list tags; ordered lists become bullets too.
    assert!(result.contains("• first"));
    assert!(result.contains("• second"));
    assert!(result.contains("• third"));
}

#[test]
fn table_stripped_to_plain_text() {
    let md = "| Col A | Col B |\n|-------|-------|\n| a1    | b1    |\n| a2    | b2    |";
    let result = markdown_to_telegram_html(md);
    // Table tags are stripped, but text content survives.
    assert!(result.contains("Col A"));
    assert!(result.contains("a1"));
    assert!(!result.contains("<table"));
}

#[test]
fn horizontal_rule() {
    let result = markdown_to_telegram_html("before\n\n---\n\nafter");
    assert!(result.contains("before"));
    assert!(result.contains("---"));
    assert!(result.contains("after"));
}

#[test]
fn malformed_markdown_passthrough() {
    // Unclosed bold — treated as literal text.
    let result = markdown_to_telegram_html("**unclosed bold");
    assert!(result.contains("unclosed bold"));
}

#[test]
fn combined_formatting() {
    let md = "# Result\n\n**Bold** and *italic* with `code` and ~~strike~~";
    let result = markdown_to_telegram_html(md);
    assert!(result.contains("<b>"));
    assert!(result.contains("<i>"));
    assert!(result.contains("<code>"));
    assert!(result.contains("<s>"));
}

#[test]
fn sanitize_filename_handles_special_chars() {
    assert_eq!(sanitize_filename("hello world.txt"), "hello_world.txt");
    assert_eq!(sanitize_filename("path/to/file"), "path_to_file");
    assert_eq!(sanitize_filename("normal-name.txt"), "normal-name.txt");
}
