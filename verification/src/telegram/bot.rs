//! Routing of a chat's updates: what a message asks for (a command, a
//! task, an attachment), the replies to commands, and the message log.
//! Polling Telegram and sending the replies is the frontend's work.
use vstd::prelude::*;
use vstd::string::StringExecFns;
use crate::sandbox::workspace::{join_path, path_join};
use crate::telegram::auth::{strip_mention, strip_mention_spec};
use crate::telegram::session::{CancelEffects, SessionManager, SessionView};
use crate::text::{chars_of, int_decimal, is_whitespace, is_whitespace_exec, join, join_strings, push_int_decimal, push_str, skip_ws_forward, slice_vec, string_of, trim_start, views};

verus! {

/// What an incoming message asks for.
#[derive(Debug, PartialEq, Eq)]
pub enum MessageRoute {
    /// The chat is not allowed: nothing is done.
    Ignore,
    /// A command (text starting with `/`).
    Command(String),
    /// A message without text: its attachments are downloaded.
    Attachment,
    /// A task for the agent: the text without the bot's mention.
    Task(String),
}

/// Decide what a message asks for.
pub fn route_message(allowed: bool, text: Option<&str>, bot_username: &str) -> (r: MessageRoute)
    ensures
        !allowed ==> r == MessageRoute::Ignore,
        allowed ==> match text {
            Some(t) => if t@.len() > 0 && t@[0] == '/' {
                r matches MessageRoute::Command(c) && c@ == t@
            } else {
                r matches MessageRoute::Task(k) && k@ == strip_mention_spec(t@, bot_username@)
            },
            None => r == MessageRoute::Attachment,
        },
{
    if !allowed {
        return MessageRoute::Ignore;
    }
    match text {
        Some(t) => {
            let cs = chars_of(t);
            if cs.len() > 0 && cs[0] == '/' {
                MessageRoute::Command(String::from_str(t))
            } else {
                MessageRoute::Task(String::from_str(strip_mention(t, bot_username)))
            }
        },
        None => MessageRoute::Attachment,
    }
}

/// The characters of `s` up to its first whitespace.
pub open spec fn word_prefix(s: Seq<char>) -> Seq<char>
    decreases s.len(),
{
    if s.len() == 0 || is_whitespace(s[0]) {
        Seq::empty()
    } else {
        seq![s[0]] + word_prefix(s.drop_first())
    }
}

/// `s` without its leading slashes.
pub open spec fn without_slashes(s: Seq<char>) -> Seq<char>
    decreases s.len(),
{
    if s.len() > 0 && s[0] == '/' { without_slashes(s.drop_first()) } else { s }
}

/// The command a text names: its first word, without leading slashes.
pub open spec fn command_of(text: Seq<char>) -> Seq<char> {
    without_slashes(word_prefix(trim_start(text)))
}

/// The command a text names (see `command_of`).
pub fn command_name(text: &str) -> (r: String)
    ensures
        r@ == command_of(text@),
{
    let s = chars_of(text);
    let n = s.len();
    assert(s@.subrange(0, n as int) =~= s@);
    let i = skip_ws_forward(&s, 0, n);
    let mut j = i;
    while j < n && !is_whitespace_exec(s[j])
        invariant
            i <= j <= n,
            n == s@.len(),
            word_prefix(s@.subrange(i as int, n as int)) == s@.subrange(i as int, j as int) + word_prefix(s@.subrange(j as int, n as int)),
        decreases n - j,
    {
        assert(s@.subrange(j as int, n as int).drop_first() =~= s@.subrange(j + 1, n as int));
        assert(s@.subrange(i as int, j + 1) =~= s@.subrange(i as int, j as int) + seq![s@[j as int]]);
        j = j + 1;
    }
    assert(word_prefix(s@.subrange(j as int, n as int)) =~= Seq::<char>::empty());
    assert(s@.subrange(i as int, j as int) + Seq::<char>::empty() =~= s@.subrange(i as int, j as int));
    let mut k = i;
    while k < j && s[k] == '/'
        invariant
            i <= k <= j <= n,
            n == s@.len(),
            without_slashes(s@.subrange(i as int, j as int)) == without_slashes(s@.subrange(k as int, j as int)),
        decreases j - k,
    {
        assert(s@.subrange(k as int, j as int).drop_first() =~= s@.subrange(k + 1, j as int));
        k = k + 1;
    }
    string_of(&slice_vec(&s, k, j))
}

/// The fixed reply of a command that needs no session.
pub open spec fn static_reply(command: Seq<char>) -> Option<Seq<char>> {
    if command == "start"@ {
        Some("\u{1F44B} duga Telegram bot is ready.\n\nSend a message to start a task. Use /help for commands."@)
    } else if command == "help"@ {
        Some("Commands:\n/start \u{2014} Start the bot\n/help \u{2014} Show this help\n/stop \u{2014} Cancel the current task\n/status \u{2014} Show current task status\n/memory \u{2014} Show current memory\n/skills \u{2014} List available skills\n/events \u{2014} Show recent events"@)
    } else if command == "skills"@ {
        Some("\u{1F4DA} Skills loaded from workspace and channel directories."@)
    } else if command == "events"@ {
        Some("\u{1F4CB} Events are written to the replay JSONL file."@)
    } else {
        None
    }
}

/// The reply to a command, given the chat's session before it.
pub open spec fn command_reply(command: Seq<char>, sessions: Map<i64, SessionView>, chat_id: i64) -> Seq<char> {
    match static_reply(command) {
        Some(r) => r,
        None => if command == "stop"@ {
            "\u{1F6D1} Cancelling current task\u{2026}"@
        } else if command == "status"@ {
            "\u{1F4CA} "@ + if sessions.contains_key(chat_id) && sessions[chat_id].active { "Active run in progress."@ } else { "No active run."@ }
        } else if command == "memory"@ {
            "\u{1F9E0} "@ + if sessions.contains_key(chat_id) { "Memory is active for this chat."@ } else { "No memory for this chat yet."@ }
        } else {
            "Unknown command: /"@ + command + "\nUse /help for available commands."@
        },
    }
}

/// The reply to a command, and what cancelling asks of the frontend when
/// the command is `/stop`.
#[derive(Debug, PartialEq, Eq)]
pub struct CommandOutcome {
    pub reply: String,
    pub cancel: Option<CancelEffects>,
}

fn static_reply_exec(command: &String) -> (r: Option<&'static str>)
    ensures
        match static_reply(command@) {
            Some(t) => r matches Some(x) && x@ == t,
            None => r is None,
        },
{
    if *command == String::from_str("start") {
        Some("\u{1F44B} duga Telegram bot is ready.\n\nSend a message to start a task. Use /help for commands.")
    } else if *command == String::from_str("help") {
        Some("Commands:\n/start \u{2014} Start the bot\n/help \u{2014} Show this help\n/stop \u{2014} Cancel the current task\n/status \u{2014} Show current task status\n/memory \u{2014} Show current memory\n/skills \u{2014} List available skills\n/events \u{2014} Show recent events")
    } else if *command == String::from_str("skills") {
        Some("\u{1F4DA} Skills loaded from workspace and channel directories.")
    } else if *command == String::from_str("events") {
        Some("\u{1F4CB} Events are written to the replay JSONL file.")
    } else {
        None
    }
}

/// Handle a command in a chat: `/stop` cancels the run; the reply is
/// `command_reply` on the sessions before the command.
pub fn handle_command(sessions: &mut SessionManager, chat_id: i64, text: &str) -> (r: CommandOutcome)
    ensures
        r.reply@ == command_reply(command_of(text@), old(sessions)@, chat_id),
        command_of(text@) == "stop"@ <==> r.cancel is Some,
        command_of(text@) != "stop"@ ==> final(sessions)@ == old(sessions)@,
        command_of(text@) == "stop"@ && old(sessions)@.contains_key(chat_id) ==>
            final(sessions)@ == old(sessions)@.insert(chat_id, SessionView { cancelled: true, pending: None, ..old(sessions)@[chat_id] }),
        command_of(text@) == "stop"@ && !old(sessions)@.contains_key(chat_id) ==> final(sessions)@ == old(sessions)@,
{
    let command = command_name(text);
    proof {
        reveal_strlit("stop");
        reveal_strlit("start");
        reveal_strlit("help");
        reveal_strlit("skills");
        reveal_strlit("events");
        assert("stop"@.len() != "start"@.len());
        assert("stop"@[0] != "help"@[0]);
        assert("stop"@.len() != "skills"@.len());
        assert("stop"@.len() != "events"@.len());
    }
    if let Some(t) = static_reply_exec(&command) {
        return CommandOutcome { reply: String::from_str(t), cancel: None };
    }
    if command == String::from_str("stop") {
        let effects = sessions.cancel(chat_id);
        CommandOutcome { reply: String::from_str("\u{1F6D1} Cancelling current task\u{2026}"), cancel: Some(effects) }
    } else if command == String::from_str("status") {
        let mut r = String::from_str("\u{1F4CA} ");
        push_str(&mut r, sessions.status(chat_id).as_str());
        CommandOutcome { reply: r, cancel: None }
    } else if command == String::from_str("memory") {
        let mut r = String::from_str("\u{1F9E0} ");
        push_str(&mut r, sessions.memory_summary(chat_id).as_str());
        CommandOutcome { reply: r, cancel: None }
    } else {
        let mut r = String::from_str("Unknown command: /");
        push_str(&mut r, command.as_str());
        push_str(&mut r, "\nUse /help for available commands.");
        CommandOutcome { reply: r, cancel: None }
    }
}

/// The reply to a message with attachments: whether attachments are on,
/// and the paths downloaded (`None` when the download failed).
pub open spec fn attachment_reply_text(enabled: bool, downloaded: Option<Seq<Seq<char>>>) -> Seq<char> {
    if !enabled {
        "Attachments are disabled in this bot config."@
    } else {
        match downloaded {
            Some(paths) => if paths.len() > 0 {
                "\u{1F4CE} Downloaded:\n"@ + join(paths, "\n"@)
            } else {
                "No supported attachments found in this message."@
            },
            None => "No supported attachments found in this message."@,
        }
    }
}

/// Build the reply to a message with attachments (see `attachment_reply_text`).
pub fn attachment_reply(enabled: bool, downloaded: Option<&[String]>) -> (r: String)
    ensures
        r@ == attachment_reply_text(enabled, match downloaded { Some(p) => Some(views(p@)), None => None }),
{
    if !enabled {
        return String::from_str("Attachments are disabled in this bot config.");
    }
    match downloaded {
        Some(paths) => if paths.len() > 0 {
            let mut r = String::from_str("\u{1F4CE} Downloaded:\n");
            push_str(&mut r, join_strings(paths, "\n").as_str());
            r
        } else {
            String::from_str("No supported attachments found in this message.")
        },
        None => String::from_str("No supported attachments found in this message."),
    }
}

/// A single log entry for a chat message.
#[derive(Clone, Debug, PartialEq, Eq)]
pub struct LogEntry {
    pub message_id: i64,
    pub chat_id: i64,
    pub user_id: Option<i64>,
    pub timestamp: String,
    pub direction: String,
    pub text: String,
    pub is_edit: bool,
}

/// The log entry of a message: its direction, and its text or a marker
/// for messages without text.
pub fn log_entry(message_id: i64, chat_id: i64, user_id: Option<i64>, timestamp: String, is_incoming: bool, text: Option<&str>) -> (r: LogEntry)
    ensures
        r.message_id == message_id,
        r.chat_id == chat_id,
        r.user_id == user_id,
        r.timestamp == timestamp,
        r.direction@ == (if is_incoming { "in"@ } else { "out"@ }),
        r.text@ == match text { Some(t) => t@, None => "[non-text message]"@ },
        !r.is_edit,
{
    let direction = if is_incoming { String::from_str("in") } else { String::from_str("out") };
    let text = match text {
        Some(t) => String::from_str(t),
        None => String::from_str("[non-text message]"),
    };
    LogEntry { message_id, chat_id, user_id, timestamp, direction, text, is_edit: false }
}

/// Logger for per-chat message persistence: each chat has a directory
/// under the data directory.
#[derive(Clone, Debug)]
pub struct BotLogger {
    data_dir: String,
}

impl BotLogger {
    pub fn new(data_dir: String) -> (r: Self)
        ensures
            r.data_dir() == data_dir@,
    {
        BotLogger { data_dir }
    }

    pub closed spec fn data_dir(self) -> Seq<char> {
        self.data_dir@
    }

    /// The directory of a chat: the chat id under the data directory.
    pub fn chat_dir(&self, chat_id: i64) -> (r: String)
        ensures
            r@ == path_join(self.data_dir(), int_decimal(chat_id as int)),
    {
        let mut id = String::new();
        proof { reveal_strlit(""); }
        push_int_decimal(&mut id, chat_id);
        join_path(self.data_dir.as_str(), id.as_str())
    }

    /// The log file of a chat.
    pub fn log_path(&self, chat_id: i64) -> (r: String)
        ensures
            r@ == path_join(path_join(self.data_dir(), int_decimal(chat_id as int)), "log.jsonl"@),
    {
        let d = self.chat_dir(chat_id);
        join_path(d.as_str(), "log.jsonl")
    }
}

} // verus!
