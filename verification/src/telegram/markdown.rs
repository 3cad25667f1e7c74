//! Markdown to Telegram HTML conversion over the events of a Markdown parser.
use vstd::prelude::*;
use crate::telegram::formatting::{attr_escape, escape_attr, escape_html, html_escape};
use crate::text::{chars_of, push_str, string_of, trim, trim_vec};
use pulldown_cmark::{CodeBlockKind as K, Event as E, Tag as T, TagEnd as TE};

verus! {

/// A Markdown start tag, as far as the conversion tells tags apart.
pub enum MdTag {
    Heading,
    BlockQuote,
    /// A fenced code block with its info string.
    FencedCode(String),
    IndentedCode,
    Item,
    Emphasis,
    Strong,
    Strikethrough,
    /// A link with its destination.
    Link(String),
    Image,
    /// Paragraphs, lists, tables and other tags that print nothing when opened.
    Other,
}

/// A Markdown end tag, as far as the conversion tells them apart.
pub enum MdTagEnd {
    Paragraph,
    List,
    Heading,
    BlockQuote,
    CodeBlock,
    Item,
    Emphasis,
    Strong,
    Strikethrough,
    Link,
    /// Images, tables and other tags that print nothing when closed.
    Other,
}

/// One event of the Markdown parser.
pub enum MdEvent {
    Start(MdTag),
    End(MdTagEnd),
    Text(String),
    Code(String),
    Html(String),
    InlineHtml(String),
    SoftBreak,
    HardBreak,
    Rule,
    TaskListMarker(bool),
    /// Footnote references and math, which Telegram cannot show.
    Dropped,
}

/// HTML printed for a start tag.
pub open spec fn render_start(t: MdTag) -> Seq<char> {
    match t {
        MdTag::Heading => "<b>"@,
        MdTag::BlockQuote => "<blockquote>"@,
        MdTag::FencedCode(lang) => if lang@.len() > 0 {
            "<pre><code class=\"language-"@ + attr_escape(lang@) + "\">"@
        } else {
            "<pre><code>"@
        },
        MdTag::IndentedCode => "<pre><code>"@,
        MdTag::Item => "• "@,
        MdTag::Emphasis => "<i>"@,
        MdTag::Strong => "<b>"@,
        MdTag::Strikethrough => "<s>"@,
        MdTag::Link(url) => "<a href=\""@ + attr_escape(url@) + "\">"@,
        MdTag::Image => "[image]"@,
        MdTag::Other => Seq::empty(),
    }
}

/// HTML printed for an end tag.
pub open spec fn render_end(t: MdTagEnd) -> Seq<char> {
    match t {
        MdTagEnd::Paragraph => "\n"@,
        MdTagEnd::List => "\n"@,
        MdTagEnd::Heading => "</b>"@ + "\n"@,
        MdTagEnd::BlockQuote => "</blockquote>"@,
        MdTagEnd::CodeBlock => "</code></pre>"@,
        MdTagEnd::Item => "\n"@,
        MdTagEnd::Emphasis => "</i>"@,
        MdTagEnd::Strong => "</b>"@,
        MdTagEnd::Strikethrough => "</s>"@,
        MdTagEnd::Link => "</a>"@,
        MdTagEnd::Other => Seq::empty(),
    }
}

/// HTML printed for one event. All text, including raw HTML from the
/// input, is escaped.
pub open spec fn render_event(e: MdEvent) -> Seq<char> {
    match e {
        MdEvent::Start(t) => render_start(t),
        MdEvent::End(t) => render_end(t),
        MdEvent::Text(t) => html_escape(t@),
        MdEvent::Code(t) => "<code>"@ + html_escape(t@) + "</code>"@,
        MdEvent::Html(t) => html_escape(t@),
        MdEvent::InlineHtml(t) => html_escape(t@),
        MdEvent::SoftBreak => "\n"@,
        MdEvent::HardBreak => "\n"@,
        MdEvent::Rule => "---\n"@,
        MdEvent::TaskListMarker(checked) => if checked { "☑ "@ } else { "☐ "@ },
        MdEvent::Dropped => Seq::empty(),
    }
}

/// HTML printed for a sequence of events.
pub open spec fn render_events(es: Seq<MdEvent>) -> Seq<char>
    decreases es.len(),
{
    if es.len() == 0 {
        Seq::empty()
    } else {
        render_events(es.drop_last()) + render_event(es.last())
    }
}

/// Rendering events one after another gives their renderings one after
/// another.
pub proof fn lemma_render_events_concat(a: Seq<MdEvent>, b: Seq<MdEvent>)
    ensures
        render_events(a + b) == render_events(a) + render_events(b),
    decreases b.len(),
{
    if b.len() == 0 {
        assert(a + b =~= a);
    } else {
        lemma_render_events_concat(a, b.drop_last());
        assert((a + b).drop_last() =~= a + b.drop_last());
        assert((a + b).last() == b.last());
    }
}

/// A list item is a bullet, its content and a line break: whatever comes
/// before it, an item puts `• ` before its content and ends its line, so
/// consecutive items stand on lines of their own.
pub proof fn lemma_list_item_on_its_own_line(before: Seq<MdEvent>, content: Seq<MdEvent>)
    ensures
        render_events(before + seq![MdEvent::Start(MdTag::Item)] + content + seq![MdEvent::End(MdTagEnd::Item)])
            == render_events(before) + "• "@ + render_events(content) + "\n"@,
{
    let s = seq![MdEvent::Start(MdTag::Item)];
    let e = seq![MdEvent::End(MdTagEnd::Item)];
    lemma_render_events_concat(before + s + content, e);
    lemma_render_events_concat(before + s, content);
    lemma_render_events_concat(before, s);
    assert(s.drop_last() =~= Seq::<MdEvent>::empty());
    assert(e.drop_last() =~= Seq::<MdEvent>::empty());
    assert(s.last() == MdEvent::Start(MdTag::Item));
    assert(render_event(s.last()) == "• "@);
    assert(render_events(s.drop_last()) == Seq::<char>::empty());
    assert(render_events(s) =~= "• "@);
    assert(render_events(e) =~= "\n"@);
}

proof fn lemma_render_wrapped(before: Seq<MdEvent>, open: MdEvent, content: Seq<MdEvent>, close: MdEvent)
    ensures
        render_events(before + seq![open] + content + seq![close])
            == render_events(before) + render_event(open) + render_events(content) + render_event(close),
{
    let o = seq![open];
    let c = seq![close];
    lemma_render_events_concat(before + o + content, c);
    lemma_render_events_concat(before + o, content);
    lemma_render_events_concat(before, o);
    assert(o.drop_last() =~= Seq::<MdEvent>::empty());
    assert(c.drop_last() =~= Seq::<MdEvent>::empty());
    assert(o.last() == open);
    assert(c.last() == close);
    assert(render_events(o.drop_last()) == Seq::<char>::empty());
    assert(render_events(c.drop_last()) == Seq::<char>::empty());
    assert(render_events(o) =~= render_event(open));
    assert(render_events(c) =~= render_event(close));
}

/// Inline and block markup map to Telegram's tags around the converted
/// content: emphasis to `<i>`, strong text to `<b>`, strikethrough to
/// `<s>`, headings to a bold line, block quotes to `<blockquote>`, indented
/// code to `<pre><code>`, and a paragraph ends its line.
pub proof fn lemma_markup_maps_to_tags(before: Seq<MdEvent>, content: Seq<MdEvent>)
    ensures
        render_events(before + seq![MdEvent::Start(MdTag::Emphasis)] + content + seq![MdEvent::End(MdTagEnd::Emphasis)])
            == render_events(before) + "<i>"@ + render_events(content) + "</i>"@,
        render_events(before + seq![MdEvent::Start(MdTag::Strong)] + content + seq![MdEvent::End(MdTagEnd::Strong)])
            == render_events(before) + "<b>"@ + render_events(content) + "</b>"@,
        render_events(before + seq![MdEvent::Start(MdTag::Strikethrough)] + content + seq![MdEvent::End(MdTagEnd::Strikethrough)])
            == render_events(before) + "<s>"@ + render_events(content) + "</s>"@,
        render_events(before + seq![MdEvent::Start(MdTag::Heading)] + content + seq![MdEvent::End(MdTagEnd::Heading)])
            == render_events(before) + "<b>"@ + render_events(content) + "</b>\n"@,
        render_events(before + seq![MdEvent::Start(MdTag::BlockQuote)] + content + seq![MdEvent::End(MdTagEnd::BlockQuote)])
            == render_events(before) + "<blockquote>"@ + render_events(content) + "</blockquote>"@,
        render_events(before + seq![MdEvent::Start(MdTag::IndentedCode)] + content + seq![MdEvent::End(MdTagEnd::CodeBlock)])
            == render_events(before) + "<pre><code>"@ + render_events(content) + "</code></pre>"@,
        render_events(before + seq![MdEvent::Start(MdTag::Other)] + content + seq![MdEvent::End(MdTagEnd::Paragraph)])
            == render_events(before) + render_events(content) + "\n"@,
{
    lemma_render_wrapped(before, MdEvent::Start(MdTag::Emphasis), content, MdEvent::End(MdTagEnd::Emphasis));
    lemma_render_wrapped(before, MdEvent::Start(MdTag::Strong), content, MdEvent::End(MdTagEnd::Strong));
    lemma_render_wrapped(before, MdEvent::Start(MdTag::Strikethrough), content, MdEvent::End(MdTagEnd::Strikethrough));
    lemma_render_wrapped(before, MdEvent::Start(MdTag::Heading), content, MdEvent::End(MdTagEnd::Heading));
    lemma_render_wrapped(before, MdEvent::Start(MdTag::BlockQuote), content, MdEvent::End(MdTagEnd::BlockQuote));
    lemma_render_wrapped(before, MdEvent::Start(MdTag::IndentedCode), content, MdEvent::End(MdTagEnd::CodeBlock));
    lemma_render_wrapped(before, MdEvent::Start(MdTag::Other), content, MdEvent::End(MdTagEnd::Paragraph));
    reveal_strlit("</b>\n");
    reveal_strlit("</b>");
    reveal_strlit("\n");
    assert("</b>"@ + "\n"@ =~= "</b>\n"@);
    assert(render_events(before) + Seq::<char>::empty() =~= render_events(before));
    assert(render_events(before) + "<b>"@ + render_events(content) + ("</b>"@ + "\n"@)
        =~= render_events(before) + "<b>"@ + render_events(content) + "</b>\n"@);
}

fn push_start(out: &mut String, t: &MdTag)
    ensures
        final(out)@ == old(out)@ + render_start(*t),
{
    match t {
        MdTag::Heading => push_str(out, "<b>"),
        MdTag::BlockQuote => push_str(out, "<blockquote>"),
        MdTag::FencedCode(lang) => {
            if lang.as_str().is_empty() {
                push_str(out, "<pre><code>");
            } else {
                push_str(out, "<pre><code class=\"language-");
                let a = escape_attr(lang.as_str());
                push_str(out, a.as_str());
                push_str(out, "\">");
            }
        },
        MdTag::IndentedCode => push_str(out, "<pre><code>"),
        MdTag::Item => push_str(out, "• "),
        MdTag::Emphasis => push_str(out, "<i>"),
        MdTag::Strong => push_str(out, "<b>"),
        MdTag::Strikethrough => push_str(out, "<s>"),
        MdTag::Link(url) => {
            push_str(out, "<a href=\"");
            let a = escape_attr(url.as_str());
            push_str(out, a.as_str());
            push_str(out, "\">");
        },
        MdTag::Image => push_str(out, "[image]"),
        MdTag::Other => {
            assert(old(out)@ + Seq::<char>::empty() =~= old(out)@);
        },
    }
    assert(final(out)@ =~= old(out)@ + render_start(*t));
}

fn push_end(out: &mut String, t: &MdTagEnd)
    ensures
        final(out)@ == old(out)@ + render_end(*t),
{
    match t {
        MdTagEnd::Paragraph => push_str(out, "\n"),
        MdTagEnd::List => push_str(out, "\n"),
        MdTagEnd::Heading => {
            push_str(out, "</b>");
            push_str(out, "\n");
        },
        MdTagEnd::BlockQuote => push_str(out, "</blockquote>"),
        MdTagEnd::CodeBlock => push_str(out, "</code></pre>"),
        MdTagEnd::Item => push_str(out, "\n"),
        MdTagEnd::Emphasis => push_str(out, "</i>"),
        MdTagEnd::Strong => push_str(out, "</b>"),
        MdTagEnd::Strikethrough => push_str(out, "</s>"),
        MdTagEnd::Link => push_str(out, "</a>"),
        MdTagEnd::Other => {},
    }
    assert(final(out)@ =~= old(out)@ + render_end(*t));
}

fn push_event(out: &mut String, e: &MdEvent)
    ensures
        final(out)@ == old(out)@ + render_event(*e),
{
    match e {
        MdEvent::Start(t) => push_start(out, t),
        MdEvent::End(t) => push_end(out, t),
        MdEvent::Text(t) => {
            let x = escape_html(t.as_str());
            push_str(out, x.as_str());
        },
        MdEvent::Code(t) => {
            push_str(out, "<code>");
            let x = escape_html(t.as_str());
            push_str(out, x.as_str());
            push_str(out, "</code>");
        },
        MdEvent::Html(t) => {
            let x = escape_html(t.as_str());
            push_str(out, x.as_str());
        },
        MdEvent::InlineHtml(t) => {
            let x = escape_html(t.as_str());
            push_str(out, x.as_str());
        },
        MdEvent::SoftBreak => push_str(out, "\n"),
        MdEvent::HardBreak => push_str(out, "\n"),
        MdEvent::Rule => push_str(out, "---\n"),
        MdEvent::TaskListMarker(checked) => {
            if *checked {
                push_str(out, "☑ ");
            } else {
                push_str(out, "☐ ");
            }
        },
        MdEvent::Dropped => {},
    }
    assert(final(out)@ =~= old(out)@ + render_event(*e));
}

/// Telegram HTML for a sequence of Markdown events, trimmed.
pub fn html_from_events(events: &[MdEvent]) -> (r: String)
    ensures
        r@ == trim(render_events(events@)),
{
    let mut out = String::new();
    let mut i: usize = 0;
    while i < events.len()
        invariant
            i <= events@.len(),
            out@ == render_events(events@.subrange(0, i as int)),
        decreases events@.len() - i,
    {
        push_event(&mut out, &events[i]);
        assert(events@.subrange(0, i + 1).drop_last() =~= events@.subrange(0, i as int));
        i = i + 1;
    }
    assert(events@.subrange(0, events@.len() as int) =~= events@);
    let cs = chars_of(out.as_str());
    let t = trim_vec(&cs);
    string_of(&t)
}

} // verus!
verus! {

#[verifier::external_type_specification]
#[verifier::external_body]
pub struct ExMdParserEvent<'a>(pulldown_cmark::Event<'a>);

#[verifier::external_type_specification]
#[verifier::external_body]
pub struct ExMdParserTag<'a>(pulldown_cmark::Tag<'a>);

#[verifier::external_type_specification]
#[verifier::external_body]
pub struct ExMdParserTagEnd(pulldown_cmark::TagEnd);

/// The events `pulldown_cmark::Parser` yields for a text, with strikethrough
/// and tables enabled.
pub uninterp spec fn markdown_events_of(input: Seq<char>) -> Seq<MdEvent>;

/// Runs `pulldown_cmark::Parser::new_ext` (strikethrough and tables enabled)
/// over `input` and converts each event; the contract only names the result.
#[verifier::external_body]
fn parse_markdown(input: &str) -> (r: Vec<MdEvent>)
    ensures
        r@ == markdown_events_of(input@),
{
    let options = pulldown_cmark::Options::ENABLE_STRIKETHROUGH | pulldown_cmark::Options::ENABLE_TABLES;
    pulldown_cmark::Parser::new_ext(input, options).map(convert_event).collect()
}

/// Converts one `pulldown_cmark::Event`, variant by variant.
#[verifier::external_body]
fn convert_event(e: pulldown_cmark::Event<'_>) -> MdEvent {
    match e {
        E::Start(t) => MdEvent::Start(convert_tag(t)),
        E::End(t) => MdEvent::End(convert_tag_end(t)),
        E::Text(t) => MdEvent::Text(t.into_string()),
        E::Code(t) => MdEvent::Code(t.into_string()),
        E::Html(t) => MdEvent::Html(t.into_string()),
        E::InlineHtml(t) => MdEvent::InlineHtml(t.into_string()),
        E::SoftBreak => MdEvent::SoftBreak,
        E::HardBreak => MdEvent::HardBreak,
        E::Rule => MdEvent::Rule,
        E::TaskListMarker(b) => MdEvent::TaskListMarker(b),
        _ => MdEvent::Dropped,
    }
}

/// Converts one `pulldown_cmark::Tag`, variant by variant.
#[verifier::external_body]
fn convert_tag(t: pulldown_cmark::Tag<'_>) -> MdTag {
    match t {
        T::Heading { .. } => MdTag::Heading,
        T::BlockQuote(_) => MdTag::BlockQuote,
        T::CodeBlock(K::Fenced(lang)) => MdTag::FencedCode(lang.into_string()),
        T::CodeBlock(K::Indented) => MdTag::IndentedCode,
        T::Item => MdTag::Item,
        T::Emphasis => MdTag::Emphasis,
        T::Strong => MdTag::Strong,
        T::Strikethrough => MdTag::Strikethrough,
        T::Link { dest_url, .. } => MdTag::Link(dest_url.into_string()),
        T::Image { .. } => MdTag::Image,
        _ => MdTag::Other,
    }
}

/// Converts one `pulldown_cmark::TagEnd`, variant by variant.
#[verifier::external_body]
fn convert_tag_end(t: pulldown_cmark::TagEnd) -> MdTagEnd {
    match t {
        TE::Paragraph => MdTagEnd::Paragraph,
        TE::List(_) => MdTagEnd::List,
        TE::Heading(_) => MdTagEnd::Heading,
        TE::BlockQuote(_) => MdTagEnd::BlockQuote,
        TE::CodeBlock => MdTagEnd::CodeBlock,
        TE::Item => MdTagEnd::Item,
        TE::Emphasis => MdTagEnd::Emphasis,
        TE::Strong => MdTagEnd::Strong,
        TE::Strikethrough => MdTagEnd::Strikethrough,
        TE::Link => MdTagEnd::Link,
        _ => MdTagEnd::Other,
    }
}

/// Convert Markdown into Telegram-compatible HTML: bold, italic,
/// strikethrough, code, code blocks, blockquotes, links and list bullets map
/// to Telegram tags; all text, including raw HTML, is escaped; tables and
/// rules become plain text.
pub fn markdown_to_telegram_html(input: &str) -> (r: String)
    ensures
        r@ == trim(render_events(markdown_events_of(input@))),
{
    let events = parse_markdown(input);
    html_from_events(&events)
}

} // verus!
