//! What a chat run is made of: the tools that ask for confirmation, the
//! system prompt of a Telegram chat, the conversation history restored
//! from an earlier session, and the reply text of a finished run.
use vstd::prelude::*;
use vstd::string::StringExecFns;
use crate::runtime::message::{ContentBlock, Message, Role};
use crate::text::{int_decimal, push_int_decimal, push_str};

verus! {

/// Whether a tool is the shell.
pub open spec fn is_shell_tool(name: Seq<char>) -> bool {
    name == "shell"@ || name == "bash"@
}

/// The tools of `ts` that are not the shell, in order.
pub open spec fn without_shell(ts: Seq<Seq<char>>) -> Seq<Seq<char>>
    decreases ts.len(),
{
    if ts.len() == 0 {
        Seq::empty()
    } else if is_shell_tool(ts.last()) {
        without_shell(ts.drop_last())
    } else {
        without_shell(ts.drop_last()).push(ts.last())
    }
}

/// The tools that ask for confirmation in a run: those configured, without
/// the shell when every binary is allowed (the operator has accepted the
/// risk of any command).
pub open spec fn confirmation_tools_of(configured: Seq<Seq<char>>, allow_all_binaries: bool) -> Seq<Seq<char>> {
    if allow_all_binaries {
        without_shell(configured)
    } else {
        configured
    }
}

/// The tools that ask for confirmation in a run (see `confirmation_tools_of`).
pub fn confirmation_tools(configured: &[String], allow_all_binaries: bool) -> (r: Vec<String>)
    ensures
        r@.map_values(|t: String| t@) == confirmation_tools_of(configured@.map_values(|t: String| t@), allow_all_binaries),
{
    let ghost cv = configured@.map_values(|t: String| t@);
    let mut out: Vec<String> = Vec::new();
    let shell = String::from_str("shell");
    let bash = String::from_str("bash");
    let mut i: usize = 0;
    while i < configured.len()
        invariant
            i <= configured@.len(),
            cv == configured@.map_values(|t: String| t@),
            shell@ == "shell"@,
            bash@ == "bash"@,
            out@.map_values(|t: String| t@) == if allow_all_binaries {
                without_shell(cv.subrange(0, i as int))
            } else {
                cv.subrange(0, i as int)
            },
        decreases configured@.len() - i,
    {
        let t = configured[i].clone();
        assert(cv.subrange(0, i + 1).drop_last() =~= cv.subrange(0, i as int));
        assert(cv.subrange(0, i + 1).last() == t@);
        if !allow_all_binaries || !(t == shell || t == bash) {
            out.push(t);
        }
        assert(out@.map_values(|t: String| t@) =~= if allow_all_binaries {
            without_shell(cv.subrange(0, i + 1))
        } else {
            cv.subrange(0, i + 1)
        });
        i = i + 1;
    }
    assert(cv.subrange(0, configured@.len() as int) =~= cv);
    out
}

/// The extra sections of the system prompt: the skills and the memory,
/// those that are not empty, each followed by a blank line.
pub open spec fn prompt_extras_text(skills: Seq<char>, memory: Seq<char>) -> Seq<char> {
    if skills.len() > 0 && memory.len() > 0 {
        skills + "\n\n"@ + memory + "\n\n"@
    } else if skills.len() > 0 {
        skills + "\n\n"@
    } else if memory.len() > 0 {
        memory + "\n\n"@
    } else {
        Seq::empty()
    }
}

/// Build the extra sections of the system prompt (see `prompt_extras_text`).
pub fn prompt_extras(skills: &str, memory: &str) -> (r: String)
    ensures
        r@ == prompt_extras_text(skills@, memory@),
{
    let mut r = String::new();
    proof { reveal_strlit(""); }
    if !skills.is_empty() {
        push_str(&mut r, skills);
        if !memory.is_empty() {
            push_str(&mut r, "\n\n");
            push_str(&mut r, memory);
        }
        push_str(&mut r, "\n\n");
    } else if !memory.is_empty() {
        push_str(&mut r, memory);
        push_str(&mut r, "\n\n");
    }
    assert(r@ =~= prompt_extras_text(skills@, memory@));
    r
}

/// The opening of a chat's system prompt, before the chat id.
pub open spec fn chat_prompt_head() -> Seq<char> {
    "You are duga, a safe coding agent operating through Telegram.\nChat ID: "@
}

/// The skills section of a chat's system prompt.
pub open spec fn chat_prompt_skills() -> Seq<char> {
    "\n\n## Skills\nSkills provide specialized instructions for recurring tasks.\n- View installed skills: use `list-skills` tool or /skills command\n- Install new skills: use `install-skill` tool\n- Remove skills: use `remove-skill` tool\n- Use a skill: `read skills/<name>/SKILL.md` to load its full instructions\nGlobal skills are in `skills/`. Chat-specific skills in `<chat_id>/skills/`.\n\n"@
}

/// The closing advice of a chat's system prompt.
pub open spec fn chat_prompt_tail() -> Seq<char> {
    "When facing a complex or multi-step problem, use the `think` tool first to plan your approach before acting. This saves steps and produces better results.\nPrefer `think` over running many small `shell` commands to explore the environment.\nBe concise \u{2014} Telegram messages have length limits.\nYou have a `send_file` tool available to send files (documents, images, audio, video) to the user as proper Telegram attachments. When the user asks for a file you created, use `send_file` with the file path instead of dumping file content into a text message."@
}

/// The system prompt of a chat run.
pub open spec fn chat_prompt_text(chat_id: int, extras: Seq<char>, env: Seq<char>, guide: Seq<char>, strategies: Seq<char>) -> Seq<char> {
    chat_prompt_head() + int_decimal(chat_id) + chat_prompt_skills() + extras + env + "\n\n"@ + guide + "\n\n"@
        + strategies + "\n\n"@ + chat_prompt_tail()
}

/// Build the system prompt of a chat run.
pub fn chat_system_prompt(chat_id: i64, extras: &str, env: &str, guide: &str, strategies: &str) -> (r: String)
    ensures
        r@ == chat_prompt_text(chat_id as int, extras@, env@, guide@, strategies@),
{
    let mut r = String::from_str("You are duga, a safe coding agent operating through Telegram.\nChat ID: ");
    push_int_decimal(&mut r, chat_id);
    push_str(&mut r, "\n\n## Skills\nSkills provide specialized instructions for recurring tasks.\n- View installed skills: use `list-skills` tool or /skills command\n- Install new skills: use `install-skill` tool\n- Remove skills: use `remove-skill` tool\n- Use a skill: `read skills/<name>/SKILL.md` to load its full instructions\nGlobal skills are in `skills/`. Chat-specific skills in `<chat_id>/skills/`.\n\n");
    push_str(&mut r, extras);
    push_str(&mut r, env);
    push_str(&mut r, "\n\n");
    push_str(&mut r, guide);
    push_str(&mut r, "\n\n");
    push_str(&mut r, strategies);
    push_str(&mut r, "\n\n");
    push_str(&mut r, "When facing a complex or multi-step problem, use the `think` tool first to plan your approach before acting. This saves steps and produces better results.\nPrefer `think` over running many small `shell` commands to explore the environment.\nBe concise \u{2014} Telegram messages have length limits.\nYou have a `send_file` tool available to send files (documents, images, audio, video) to the user as proper Telegram attachments. When the user asks for a file you created, use `send_file` with the file path instead of dumping file content into a text message.");
    r
}

/// The text a finished run answers with: the model's text (or nothing),
/// with the loop named when it was not the plain one.
pub open spec fn run_reply_text(text: Option<Seq<char>>, loop_id: Seq<char>) -> Seq<char> {
    let t = match text { Some(t) => t, None => Seq::empty() };
    if loop_id != "simple_react"@ { t + "\n\n\u{27F3} via *"@ + loop_id + "* loop"@ } else { t }
}

/// Build the text a finished run answers with (see `run_reply_text`).
pub fn run_reply(text: Option<String>, loop_id: &str) -> (r: String)
    ensures
        r@ == run_reply_text(match text { Some(t) => Some(t@), None => None }, loop_id@),
{
    let mut t = match text {
        Some(t) => t,
        None => {
            proof { reveal_strlit(""); }
            String::new()
        },
    };
    let plain = String::from_str("simple_react");
    let id = String::from_str(loop_id);
    if !(id == plain) {
        push_str(&mut t, "\n\n\u{27F3} via *");
        push_str(&mut t, loop_id);
        push_str(&mut t, "* loop");
    }
    t
}

/// The error a failed run is reported with.
pub open spec fn run_failed_text(error: Seq<char>) -> Seq<char> {
    "Agent run failed: "@ + error
}

/// Build the error a failed run is reported with.
pub fn run_failed(error: &str) -> (r: String)
    ensures
        r@ == run_failed_text(error@),
{
    let mut r = String::from_str("Agent run failed: ");
    push_str(&mut r, error);
    r
}

/// Whether an assistant message calls tools.
pub open spec fn calls_tools(m: Message) -> bool {
    m.role == Role::Assistant && exists|i: int| 0 <= i < m.content@.len() && #[trigger] m.content@[i] is ToolCall
}

fn calls_tools_exec(m: &Message) -> (r: bool)
    ensures
        r == calls_tools(*m),
{
    if m.role != Role::Assistant {
        return false;
    }
    let mut i: usize = 0;
    while i < m.content.len()
        invariant
            i <= m.content@.len(),
            m.role == Role::Assistant,
            forall|j: int| 0 <= j < i ==> !(#[trigger] m.content@[j] is ToolCall),
        decreases m.content@.len() - i,
    {
        if let ContentBlock::ToolCall(_) = &m.content[i] {
            assert(m.content@[i as int] is ToolCall);
            return true;
        }
        i = i + 1;
    }
    false
}

/// The messages kept of `ms` when a tool message is kept only after an
/// assistant message that calls tools (other tool messages may stand in
/// between); `after_calls` says whether the last message before `ms` that
/// is not a tool message called tools.
pub open spec fn normalized_from(ms: Seq<Message>, after_calls: bool) -> Seq<Message>
    decreases ms.len(),
{
    if ms.len() == 0 {
        Seq::empty()
    } else if ms[0].role == Role::Tool {
        if after_calls {
            seq![ms[0]] + normalized_from(ms.drop_first(), after_calls)
        } else {
            normalized_from(ms.drop_first(), after_calls)
        }
    } else {
        seq![ms[0]] + normalized_from(ms.drop_first(), calls_tools(ms[0]))
    }
}

/// Remove orphaned tool messages: a tool message must follow an assistant
/// message with tool calls, or other tool messages that do.
pub fn normalize_tool_message_sequence(messages: Vec<Message>) -> (r: Vec<Message>)
    ensures
        r@ == normalized_from(messages@, false),
{
    let mut rest = messages;
    let mut out: Vec<Message> = Vec::new();
    let mut after_calls = false;
    while rest.len() > 0
        invariant
            out@ + normalized_from(rest@, after_calls) == normalized_from(messages@, false),
        decreases rest@.len(),
    {
        let ghost before = rest@;
        let m = rest.remove(0);
        assert(rest@ =~= before.drop_first());
        if m.role == Role::Tool {
            if after_calls {
                out.push(m);
                assert(out@ + normalized_from(rest@, after_calls) =~= out@.drop_last() + (seq![m] + normalized_from(rest@, after_calls)));
            }
        } else {
            let calls = calls_tools_exec(&m);
            out.push(m);
            assert(out@ + normalized_from(rest@, calls) =~= out@.drop_last() + (seq![m] + normalized_from(rest@, calls)));
            after_calls = calls;
        }
    }
    assert(out@ + Seq::<Message>::empty() =~= out@);
    out
}

/// The messages of `ms` that are not system messages, in order: a
/// restored history has none (the run gets a fresh system prompt).
pub open spec fn without_system(ms: Seq<Message>) -> Seq<Message>
    decreases ms.len(),
{
    if ms.len() == 0 {
        Seq::empty()
    } else if ms.last().role == Role::System {
        without_system(ms.drop_last())
    } else {
        without_system(ms.drop_last()).push(ms.last())
    }
}

/// The history a chat resumes with: the last session's messages without
/// the system ones, the most recent `window` of them when `window` is not
/// zero, with orphaned tool messages dropped; none when nothing is left.
pub open spec fn restored_history(messages: Seq<Message>, window: nat) -> Option<Seq<Message>> {
    let kept = without_system(messages);
    let recent = if window > 0 && kept.len() > window { kept.subrange(kept.len() - window, kept.len() as int) } else { kept };
    let h = normalized_from(recent, false);
    if messages.len() == 0 || h.len() == 0 { None } else { Some(h) }
}

/// The history a chat resumes with (see `restored_history`).
pub fn restore_history(messages: Vec<Message>, window: usize) -> (r: Option<Vec<Message>>)
    ensures
        match restored_history(messages@, window as nat) {
            Some(h) => r matches Some(v) && v@ == h,
            None => r is None,
        },
{
    if messages.len() == 0 {
        return None;
    }
    let ghost ms = messages@;
    let mut rest = messages;
    let mut kept: Vec<Message> = Vec::new();
    let ghost mut taken: int = 0;
    while rest.len() > 0
        invariant
            0 <= taken <= ms.len(),
            rest@ == ms.subrange(taken, ms.len() as int),
            kept@ == without_system(ms.subrange(0, taken)),
        decreases rest@.len(),
    {
        let m = rest.remove(0);
        proof {
            assert(ms.subrange(0, taken + 1).drop_last() =~= ms.subrange(0, taken));
            assert(ms.subrange(0, taken + 1).last() == m);
        }
        if m.role != Role::System {
            kept.push(m);
        }
        proof {
            taken = taken + 1;
            assert(rest@ =~= ms.subrange(taken, ms.len() as int));
        }
        assert(kept@ =~= without_system(ms.subrange(0, taken)));
    }
    assert(ms.subrange(0, ms.len() as int) =~= ms);
    if window > 0 && kept.len() > window {
        let start = kept.len() - window;
        kept = kept.split_off(start);
    }
    let h = normalize_tool_message_sequence(kept);
    if h.len() == 0 { None } else { Some(h) }
}

} // verus!
