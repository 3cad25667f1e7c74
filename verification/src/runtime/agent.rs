//! Parts of the agent's system prompt: the tool guidance, the description
//! of the sandbox, the current date and the prompt that joins them.
use vstd::prelude::*;
use vstd::string::StringExecFns;
use crate::runtime::calendar::{days_from_civil, days_to_ymd, is_valid_date};
use crate::sandbox::executor::SandboxMode;
use crate::text::{decimal, decimal_exec, push_char, push_str, string_of};

verus! {

/// Guidance on the available tools, included in the system prompt.
pub const TOOL_GUIDANCE: &'static str = "## Available Tools\n\
    - `think` — Reason through complex problems before acting. Use this FIRST for multi-step \
    tasks, analysis, or planning. Saves steps and produces better results.\n\
    - `shell` — Run shell commands. Use for file operations, package installation, git, \
    and system exploration.\n\
    - `read` — Read file contents. Supports offset/limit for large files.\n\
    - `edit` — Perform targeted text replacements in existing files. Prefer this over \
    `write` for small changes.\n\
    - `write` — Create or overwrite files atomically.\n\
    - `search` — Search workspace files with regex patterns.\n\
    \n\
    ## Tool Call Labels\n\
    Every tool call (`shell`, `edit`, `read`, `write`, `search`, `think`) MUST include \
    a non-empty `label` parameter. The label is a short, human-readable description of \
    what this step does. Never leave it empty or omit it.\n\
    \n\
    ## Lightweight Tool-Use Gate\n\
    Before acting, analyze the request, decide which tools are actually needed, skip \
    unnecessary tool calls, and execute only the minimum set of tools required.\n\
    Use `think` for multi-step tasks; before HTTP requests to decide whether an API call \
    is worthwhile; before file searches to decide exactly what to look for; before package \
    installs to check whether the dependency is already installed; and when intent is \
    ambiguous, clarify first.\n\
    Avoid high-tax exploration such as running several commands just to figure out what \
    to do.\n";

/// What the model is told when it runs inside a container.
pub const CONTAINER_CONTEXT: &'static str = "You are running in a sandboxed container environment.\n\
    System tools may be minimal — install what you need using the available package \
    manager (try `apk`, `apt`, or `yum`).\n\
    Check available commands with `which` or `command -v` before assuming they exist. \
    File system changes persist across sessions.";

/// What the model is told when it runs with direct system access.
pub const HOST_CONTEXT: &'static str = "You are running with direct system access. Standard Unix \
    tools should be available. Use `shell` for exploration and execution.";

/// Build tool guidance for the system prompt: it describes each tool and
/// when to use it, and asks for a non-empty label on every call.
pub fn tool_guidance() -> (r: &'static str)
    ensures
        r@ == TOOL_GUIDANCE@,
{
    TOOL_GUIDANCE
}

/// Describe the execution environment for the system prompt: a container
/// in docker mode, direct system access otherwise.
pub fn sandbox_environment_context(mode: SandboxMode) -> (r: String)
    ensures
        r@ == (match mode {
            SandboxMode::Docker => CONTAINER_CONTEXT@,
            _ => HOST_CONTEXT@,
        }),
{
    match mode {
        SandboxMode::Docker => String::from_str(CONTAINER_CONTEXT),
        _ => String::from_str(HOST_CONTEXT),
    }
}

/// `digits` left-padded with zeros to at least `width` characters.
pub open spec fn zero_padded(digits: Seq<char>, width: nat) -> Seq<char> {
    if digits.len() < width {
        Seq::new((width - digits.len()) as nat, |_i: int| '0') + digits
    } else {
        digits
    }
}

/// An integer formatted with `{:0w$}`: the sign first, then zeros up to
/// the width.
pub open spec fn padded_int(i: int, width: nat) -> Seq<char> {
    if i < 0 {
        seq!['-'] + zero_padded(decimal((-i) as nat), if width >= 1 { (width - 1) as nat } else { 0 })
    } else {
        zero_padded(decimal(i as nat), width)
    }
}

fn push_zero_padded(s: &mut String, n: u64, width: usize)
    ensures
        final(s)@ == old(s)@ + zero_padded(decimal(n as nat), width as nat),
{
    let digits = decimal_exec(n);
    let mut k: usize = digits.len();
    let ghost start = s@;
    while k < width
        invariant
            digits.len() <= k,
            k < width ==> k <= width,
            k > digits.len() ==> k <= width,
            s@ == start + Seq::new((k - digits.len()) as nat, |_i: int| '0'),
        decreases width - k,
    {
        push_char(s, '0');
        k = k + 1;
        assert(s@ =~= start + Seq::new((k - digits.len()) as nat, |_i: int| '0'));
    }
    let t = string_of(&digits);
    push_str(s, t.as_str());
    if digits.len() >= width {
        assert(s@ =~= start + digits@);
    } else {
        assert(s@ =~= start + (Seq::new((width - digits.len()) as nat, |_i: int| '0') + digits@));
    }
}

/// The text of a calendar date, `{y:04}-{m:02}-{d:02}`.
pub open spec fn date_text_of(y: int, m: int, d: int) -> Seq<char> {
    padded_int(y, 4) + seq!['-'] + padded_int(m, 2) + seq!['-'] + padded_int(d, 2)
}

/// Formats a date as `YYYY-MM-DD` (years are zero-padded to four digits).
pub fn format_ymd(y: i64, m: u32, d: u32) -> (r: String)
    ensures
        r@ == date_text_of(y as int, m as int, d as int),
{
    let mut r = String::new();
    if y < 0 {
        push_char(&mut r, '-');
        let a: u64 = if y == i64::MIN { 9223372036854775808u64 } else { (-y) as u64 };
        push_zero_padded(&mut r, a, 3);
    } else {
        push_zero_padded(&mut r, y as u64, 4);
    }
    push_char(&mut r, '-');
    push_zero_padded(&mut r, m as u64, 2);
    push_char(&mut r, '-');
    push_zero_padded(&mut r, d as u64, 2);
    assert(r@ =~= date_text_of(y as int, m as int, d as int));
    r
}

/// The date text of the day that contains the instant `secs` seconds after
/// 1970-01-01T00:00:00 UTC.
pub fn date_text(secs: u64) -> (r: String)
    ensures
        exists|y: int, m: int, d: int|
            is_valid_date(y, m, d) && days_from_civil(y, m, d) == secs / 86400
                && r@ == date_text_of(y, m, d),
{
    let days = (secs / 86400) as i64;
    let (y, m, d) = days_to_ymd(days);
    let r = format_ymd(y, m, d);
    assert(is_valid_date(y as int, m as int, d as int) && days_from_civil(y as int, m as int, d as int) == secs / 86400
        && r@ == date_text_of(y as int, m as int, d as int));
    r
}

/// The closing paragraph of the default system prompt.
pub const PROMPT_CLOSING: &'static str = "\n\nWhen facing a complex or multi-step problem, use the \
    `think` tool first to plan your approach before acting. This saves steps and produces better \
    results.\nPrefer `think` over running many small `shell` commands to explore the \
    environment.\nYou have a limited think budget per conversation — use it \
    strategically for the hardest parts of the task.";

/// The default system prompt, built from today's date, the workspace
/// directory, the environment description, the tool guidance and the
/// description of the enabled loop strategies.
pub open spec fn system_prompt_text(
    today: Seq<char>,
    workspace_dir: Seq<char>,
    env: Seq<char>,
    tools: Seq<char>,
    strategies: Seq<char>,
) -> Seq<char> {
    "You are duga, a safe coding agent.\n\nCurrent date: "@ + today + "\nWorking directory: "@
        + workspace_dir + "\n\n"@ + env + "\n\n"@ + tools + "\n\n"@ + strategies + PROMPT_CLOSING@
}

/// Builds the default system prompt.
pub fn system_prompt(today: &str, workspace_dir: &str, env: &str, tools: &str, strategies: &str) -> (r: String)
    ensures
        r@ == system_prompt_text(today@, workspace_dir@, env@, tools@, strategies@),
{
    let mut r = String::new();
    push_str(&mut r, "You are duga, a safe coding agent.\n\nCurrent date: ");
    push_str(&mut r, today);
    push_str(&mut r, "\nWorking directory: ");
    push_str(&mut r, workspace_dir);
    push_str(&mut r, "\n\n");
    push_str(&mut r, env);
    push_str(&mut r, "\n\n");
    push_str(&mut r, tools);
    push_str(&mut r, "\n\n");
    push_str(&mut r, strategies);
    push_str(&mut r, PROMPT_CLOSING);
    assert(r@ =~= system_prompt_text(today@, workspace_dir@, env@, tools@, strategies@));
    r
}

/// How many messages the simple summarizer lists.
pub const SUMMARY_ROLE_LIMIT: usize = 16;

/// The simple summary of a conversation: a heading, then the role of each
/// of the first sixteen messages on a line of its own.
pub open spec fn compressed_context_text(roles: Seq<Seq<char>>) -> Seq<char>
    decreases roles.len(),
{
    if roles.len() == 0 {
        "Compressed context:"@
    } else if roles.len() > SUMMARY_ROLE_LIMIT {
        compressed_context_text(roles.subrange(0, SUMMARY_ROLE_LIMIT as int))
    } else {
        compressed_context_text(roles.drop_last()) + "\n- "@ + roles.last()
    }
}

/// Summarizes a conversation by the roles of its messages (at most sixteen).
pub fn compressed_context(roles: &[String]) -> (r: String)
    ensures
        r@ == compressed_context_text(roles@.map_values(|s: String| s@)),
{
    let ghost all = roles@.map_values(|s: String| s@);
    let mut r = String::from_str("Compressed context:");
    let mut i: usize = 0;
    while i < roles.len() && i < SUMMARY_ROLE_LIMIT
        invariant
            i <= roles@.len(),
            i <= SUMMARY_ROLE_LIMIT,
            all == roles@.map_values(|s: String| s@),
            r@ == compressed_context_text(all.subrange(0, i as int)),
        decreases roles@.len() - i,
    {
        push_str(&mut r, "\n- ");
        push_str(&mut r, roles[i].as_str());
        assert(all.subrange(0, i + 1).drop_last() =~= all.subrange(0, i as int));
        i = i + 1;
    }
    if roles.len() > SUMMARY_ROLE_LIMIT {
        assert(all.subrange(0, SUMMARY_ROLE_LIMIT as int).subrange(0, SUMMARY_ROLE_LIMIT as int)
            =~= all.subrange(0, SUMMARY_ROLE_LIMIT as int));
    } else {
        assert(all.subrange(0, i as int) =~= all);
    }
    r
}

} // verus!
