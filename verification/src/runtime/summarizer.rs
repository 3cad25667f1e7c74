//! Summaries for context compression: the prompt an LLM summarizer gets
//! for a run of messages, and the summary kept from its answer (falling
//! back to the list of roles). Calling the model is the frontend's work.
use vstd::prelude::*;
use vstd::string::StringExecFns;
use crate::runtime::agent::{compressed_context, compressed_context_text, SUMMARY_ROLE_LIMIT};
use crate::runtime::message::{ContentBlock, Message, Role};
use crate::text::{
    byte_len, chars_of, contains, find, find_exec, join,
    join_strings, lemma_find_result, lemma_views_push, push_str, replace_all, replace_all_exec,
    slice_vec, starts_with, starts_with_exec, str_byte_len, string_of, trim, trim_vec, views,
};

verus! {

/// The prompt of a first summary; the messages follow it.
pub const SUMMARIZE_PROMPT: &'static str = "Summarize the following conversation history in 3-5 bullet points.\nPreserve: main topics discussed, key findings, decisions made, and unresolved questions.\nBe concise. Output only the bullet points, no preamble.\n\n";

/// The prompt that updates an earlier summary (which replaces
/// `{existing_summary}`); the messages follow it.
pub const UPDATE_SUMMARIZE_PROMPT: &'static str = "Previous summary:\n{existing_summary}\n\nNew messages to incorporate:\n\nUpdate the summary to include the new messages. Keep 3-5 bullet points.\nPreserve: main topics, findings, decisions, unresolved questions.\nBe concise. Output only the bullet points, no preamble.\n\n";

/// The system message of a summarization call.
pub const SUMMARIZER_SYSTEM: &'static str = "You are a conversation summarizer. Output only bullet points.";

/// The texts of the text blocks, in order.
pub open spec fn text_blocks(content: Seq<ContentBlock>) -> Seq<Seq<char>>
    decreases content.len(),
{
    if content.len() == 0 {
        Seq::empty()
    } else {
        let rest = text_blocks(content.drop_last());
        match content.last() {
            ContentBlock::Text(t) => rest.push(t@),
            _ => rest,
        }
    }
}

/// All the text of a message, its text blocks joined by line breaks.
pub open spec fn message_text(m: Message) -> Seq<char> {
    join(text_blocks(m.content@), "\n"@)
}

/// Extract all text content from a message.
pub fn extract_message_text(msg: &Message) -> (r: String)
    ensures
        r@ == message_text(*msg),
{
    let mut texts: Vec<String> = Vec::new();
    let mut i: usize = 0;
    while i < msg.content.len()
        invariant
            i <= msg.content@.len(),
            views(texts@) == text_blocks(msg.content@.subrange(0, i as int)),
        decreases msg.content@.len() - i,
    {
        assert(msg.content@.subrange(0, i + 1).drop_last() =~= msg.content@.subrange(0, i as int));
        assert(msg.content@.subrange(0, i + 1).last() == msg.content@[i as int]);
        match &msg.content[i] {
            ContentBlock::Text(t) => {
                let c = t.clone();
                proof { lemma_views_push(texts@, c); }
                texts.push(c);
            },
            _ => {},
        }
        i = i + 1;
    }
    assert(msg.content@.subrange(0, msg.content@.len() as int) =~= msg.content@);
    join_strings(&texts, "\n")
}

/// The name of a role.
pub open spec fn role_name(r: Role) -> Seq<char> {
    match r {
        Role::System => "system"@,
        Role::User => "user"@,
        Role::Assistant => "assistant"@,
        Role::Tool => "tool"@,
    }
}

fn role_name_exec(r: Role) -> (s: &'static str)
    ensures
        s@ == role_name(r),
{
    match r {
        Role::System => "system",
        Role::User => "user",
        Role::Assistant => "assistant",
        Role::Tool => "tool",
    }
}

/// How a message's author is shown: the role, and for a tool result with
/// a name, `tool: name`.
pub open spec fn role_label(m: Message) -> Seq<char> {
    match (m.role, m.name) {
        (Role::Tool, Some(n)) => "tool: "@ + n@,
        _ => role_name(m.role),
    }
}

/// Format the role prefix for a message in summarization input.
pub fn format_role(msg: &Message) -> (r: String)
    ensures
        r@ == role_label(*msg),
{
    match (msg.role, &msg.name) {
        (Role::Tool, Some(n)) => {
            let mut r = String::from_str("tool: ");
            push_str(&mut r, n.as_str());
            r
        },
        _ => String::from_str(role_name_exec(msg.role)),
    }
}

/// A text cut to its first 500 characters, marked, when it is longer.
pub open spec fn truncated_text(t: Seq<char>) -> Seq<char> {
    if t.len() > 500 {
        t.subrange(0, 500) + "...(truncated)"@
    } else {
        t
    }
}

/// The messages as summarization input: `[role]: text` per message with
/// text, long texts cut.
pub open spec fn summarization_input(ms: Seq<Message>) -> Seq<char>
    decreases ms.len(),
{
    if ms.len() == 0 {
        Seq::empty()
    } else {
        let rest = summarization_input(ms.drop_last());
        let t = message_text(ms.last());
        if t.len() == 0 {
            rest
        } else {
            rest + "["@ + role_label(ms.last()) + "]: "@ + truncated_text(t) + "\n"@
        }
    }
}

/// Build the summarization input (see `summarization_input`).
pub fn format_messages_for_summarization(messages: &[Message]) -> (r: String)
    ensures
        r@ == summarization_input(messages@),
{
    let mut out = String::new();
    proof { reveal_strlit(""); }
    let mut i: usize = 0;
    while i < messages.len()
        invariant
            i <= messages@.len(),
            out@ == summarization_input(messages@.subrange(0, i as int)),
        decreases messages@.len() - i,
    {
        let ghost pre = messages@.subrange(0, i + 1);
        assert(pre.drop_last() =~= messages@.subrange(0, i as int));
        assert(pre.last() == messages@[i as int]);
        let text = extract_message_text(&messages[i]);
        if !text.as_str().is_empty() {
            let role = format_role(&messages[i]);
            push_str(&mut out, "[");
            push_str(&mut out, role.as_str());
            push_str(&mut out, "]: ");
            let cs = chars_of(text.as_str());
            if cs.len() > 500 {
                push_str(&mut out, string_of(&slice_vec(&cs, 0, 500)).as_str());
                push_str(&mut out, "...(truncated)");
            } else {
                push_str(&mut out, text.as_str());
            }
            push_str(&mut out, "\n");
        }
        i = i + 1;
    }
    assert(messages@.subrange(0, messages@.len() as int) =~= messages@);
    out
}

/// Whether a message text looks like an earlier summary.
pub open spec fn looks_like_summary(t: Seq<char>) -> bool {
    contains(t, "Summary:"@) || starts_with(t, "Key facts:"@)
}

/// The earlier summary among the messages: the text of the first message
/// that looks like one, from its `Summary:` on when it has one.
pub open spec fn existing_summary(ms: Seq<Message>) -> Option<Seq<char>>
    decreases ms.len(),
{
    if ms.len() == 0 {
        None
    } else {
        let t = message_text(ms[0]);
        if looks_like_summary(t) {
            match find(t, "Summary:"@) {
                Some(p) => Some(t.subrange(p, t.len() as int)),
                None => Some(t),
            }
        } else {
            existing_summary(ms.drop_first())
        }
    }
}

/// Find an earlier summary among the messages (see `existing_summary`).
pub fn find_existing_summary(messages: &[Message]) -> (r: Option<String>)
    ensures
        match existing_summary(messages@) {
            Some(s) => r matches Some(x) && x@ == s,
            None => r is None,
        },
{
    let summary = chars_of("Summary:");
    let key = chars_of("Key facts:");
    let mut i: usize = 0;
    assert(messages@.subrange(0, messages@.len() as int) =~= messages@);
    while i < messages.len()
        invariant
            i <= messages@.len(),
            summary@ == "Summary:"@,
            key@ == "Key facts:"@,
            existing_summary(messages@) == existing_summary(messages@.subrange(i as int, messages@.len() as int)),
        decreases messages@.len() - i,
    {
        let ghost rest = messages@.subrange(i as int, messages@.len() as int);
        assert(rest.drop_first() =~= messages@.subrange(i + 1, messages@.len() as int));
        assert(rest[0] == messages@[i as int]);
        let text = extract_message_text(&messages[i]);
        let t = chars_of(text.as_str());
        let found = find_exec(&t, &summary, 0);
        if found.is_some() || starts_with_exec(&t, &key) {
            proof { lemma_find_result(t@, summary@); }
            return match found {
                Some(p) => Some(string_of(&slice_vec(&t, p, t.len()))),
                None => Some(text),
            };
        }
        i = i + 1;
    }
    None
}

/// The summary used when the model gives none: the roles of the first
/// sixteen messages.
pub open spec fn fallback_summary_text(ms: Seq<Message>) -> Seq<char> {
    compressed_context_text(ms.map_values(|m: Message| role_name(m.role)))
}

/// Build the fallback summary (see `fallback_summary_text`).
pub fn fallback_summary(messages: &[Message]) -> (r: String)
    ensures
        r@ == fallback_summary_text(messages@),
{
    let mut roles: Vec<String> = Vec::new();
    let mut i: usize = 0;
    while i < messages.len()
        invariant
            i <= messages@.len(),
            roles@.map_values(|s: String| s@) == messages@.subrange(0, i as int).map_values(|m: Message| role_name(m.role)),
        decreases messages@.len() - i,
    {
        let r = messages[i].role;
        assert(r == messages@[i as int].role);
        let name = String::from_str(role_name_exec(r));
        let ghost before = roles@;
        roles.push(name);
        assert(roles@ == before.push(name));
        assert(roles@.map_values(|s: String| s@) =~= before.map_values(|s: String| s@).push(role_name(r)));
        assert(roles@.map_values(|s: String| s@) =~= messages@.subrange(0, i + 1).map_values(|m: Message| role_name(m.role)));
        i = i + 1;
    }
    assert(messages@.subrange(0, messages@.len() as int) =~= messages@);
    compressed_context(&roles)
}

/// The prompt the summarizer model gets: the update prompt around the
/// earlier summary, or the first-summary prompt, then the messages.
pub open spec fn summary_prompt(ms: Seq<Message>) -> Seq<char> {
    let head = match existing_summary(ms) {
        Some(e) => replace_all(UPDATE_SUMMARIZE_PROMPT@, "{existing_summary}"@, e),
        None => SUMMARIZE_PROMPT@,
    };
    head + summarization_input(ms)
}

/// The user message asked of the summarizer model; `None` for no messages
/// (the summary is then empty and no model is asked).
pub fn summary_request(messages: &[Message]) -> (r: Option<String>)
    ensures
        messages@.len() == 0 ==> r is None,
        messages@.len() > 0 ==> (r matches Some(x) && x@ == summary_prompt(messages@)),
{
    if messages.len() == 0 {
        return None;
    }
    let mut prompt = match find_existing_summary(messages) {
        Some(e) => {
            let from = chars_of("{existing_summary}");
            proof { reveal_strlit("{existing_summary}"); }
            string_of(&replace_all_exec(&chars_of(UPDATE_SUMMARIZE_PROMPT), &from, &chars_of(e.as_str())))
        },
        None => String::from_str(SUMMARIZE_PROMPT),
    };
    push_str(&mut prompt, format_messages_for_summarization(messages).as_str());
    Some(prompt)
}

/// The summary kept: nothing for no messages; the model's answer, trimmed,
/// when it came and is neither empty nor longer than 2000 bytes; else the
/// fallback summary (also on an error or a timeout, `None`).
pub open spec fn summary_result(ms: Seq<Message>, reply: Option<Seq<char>>) -> Seq<char> {
    if ms.len() == 0 {
        Seq::empty()
    } else {
        match reply {
            Some(t) => if trim(t).len() == 0 || byte_len(trim(t)) > 2000 { fallback_summary_text(ms) } else { trim(t) },
            None => fallback_summary_text(ms),
        }
    }
}

/// The summary kept (see `summary_result`).
pub fn summary_outcome(messages: &[Message], reply: Option<String>) -> (r: String)
    ensures
        r@ == summary_result(messages@, match reply { Some(t) => Some(t@), None => None }),
{
    if messages.len() == 0 {
        proof { reveal_strlit(""); }
        return String::new();
    }
    match reply {
        Some(t) => {
            let x = string_of(&trim_vec(&chars_of(t.as_str())));
            if x.as_str().is_empty() || str_byte_len(x.as_str()) > 2000 {
                fallback_summary(messages)
            } else {
                x
            }
        },
        None => fallback_summary(messages),
    }
}

} // verus!
