//! Telegram authorization and update parsing: chat authorization, mention
//! stripping and inline callback parsing.
use vstd::prelude::*;
use vstd::string::StrSliceExecFns;
use crate::text::{
    chars_of, eq_chars, find, find_exec, lemma_find_result, lowercase_of, skip_ws_backward,
    skip_ws_forward, slice_vec, starts_with, starts_with_exec, to_lowercase, trim, trim_bounds,
};

verus! {

/// Callback actions from inline buttons.
#[derive(Clone, Debug)]
pub enum CallbackAction {
    Approve(String),
    Deny(String),
    Unknown(String),
}

/// Abstract form of a callback action.
pub enum CallbackActionView {
    Approve(Seq<char>),
    Deny(Seq<char>),
    Unknown(Seq<char>),
}

impl View for CallbackAction {
    type V = CallbackActionView;

    open spec fn view(&self) -> CallbackActionView {
        match self {
            CallbackAction::Approve(p) => CallbackActionView::Approve(p@),
            CallbackAction::Deny(p) => CallbackActionView::Deny(p@),
            CallbackAction::Unknown(d) => CallbackActionView::Unknown(d@),
        }
    }
}

/// How callback data `action:payload` is read: `approve` and `deny` with
/// their payload, anything else unknown with the whole data.
pub open spec fn parse_callback_spec(data: Seq<char>) -> CallbackActionView {
    match find(data, seq![':']) {
        Some(i) => if data.subrange(0, i) == "approve"@ {
            CallbackActionView::Approve(data.subrange(i + 1, data.len() as int))
        } else if data.subrange(0, i) == "deny"@ {
            CallbackActionView::Deny(data.subrange(i + 1, data.len() as int))
        } else {
            CallbackActionView::Unknown(data)
        },
        None => CallbackActionView::Unknown(data),
    }
}

/// Parse callback data from inline button callbacks.
/// Format: `action:payload` (e.g., `approve:abc123`).
pub fn parse_callback_data(data: &str) -> (r: CallbackAction)
    ensures
        r@ == parse_callback_spec(data@),
{
    let d = chars_of(data);
    let mut colon: Vec<char> = Vec::new();
    colon.push(':');
    assert(colon@ =~= seq![':']);
    match find_exec(&d, &colon, 0) {
        Some(i) => {
            proof { lemma_find_result(d@, colon@); }
            let action = slice_vec(&d, 0, i);
            let n = d.len();
            assert(i + 1 <= n);
            let payload = data.substring_char(i + 1, n);
            let approve = chars_of("approve");
            let deny = chars_of("deny");
            if eq_chars(&action, &approve) {
                CallbackAction::Approve(payload.to_string())
            } else if eq_chars(&action, &deny) {
                CallbackAction::Deny(payload.to_string())
            } else {
                CallbackAction::Unknown(data.to_string())
            }
        },
        None => CallbackAction::Unknown(data.to_string()),
    }
}

/// Text after stripping the bot's `@username` mention.
pub open spec fn strip_mention_spec(text: Seq<char>, bot_username: Seq<char>) -> Seq<char> {
    let t = trim(text);
    let mention = seq!['@'] + bot_username;
    if starts_with(t, mention) {
        trim(t.subrange(mention.len() as int, t.len() as int))
    } else {
        t
    }
}

/// Strip the bot's `@username` mention from message text.
pub fn strip_mention<'a>(text: &'a str, bot_username: &str) -> (r: &'a str)
    ensures
        r@ == strip_mention_spec(text@, bot_username@),
{
    let t = chars_of(text);
    let mut mention: Vec<char> = Vec::new();
    mention.push('@');
    let u = chars_of(bot_username);
    crate::text::extend_vec(&mut mention, &u);
    assert(mention@ =~= seq!['@'] + bot_username@);
    let (lo, hi) = trim_bounds(&t);
    let inner = slice_vec(&t, lo, hi);
    if starts_with_exec(&inner, &mention) {
        let a = skip_ws_forward(&t, lo + mention.len(), hi);
        let ghost mid = t@.subrange(lo + mention@.len(), hi as int);
        assert(inner@.subrange(mention@.len() as int, inner@.len() as int) =~= mid);
        let b = skip_ws_backward(&t, a, hi);
        text.substring_char(a, b)
    } else {
        text.substring_char(lo, hi)
    }
}

/// The authorization part of the Telegram frontend configuration.
#[derive(Clone, Debug)]
pub struct TelegramConfig {
    /// Group chats that may use the bot.
    pub allowed_chat_ids: Vec<i64>,
    /// Usernames (without `@`) allowed to talk to the bot directly.
    pub allowed_chat_usernames: Vec<String>,
    /// Development switch that lets every chat in.
    pub allow_all_chats_for_dev: bool,
}

impl Default for TelegramConfig {
    fn default() -> (r: Self)
        ensures
            r.allowed_chat_ids@.len() == 0,
            r.allowed_chat_usernames@.len() == 0,
            !r.allow_all_chats_for_dev,
    {
        TelegramConfig {
            allowed_chat_ids: Vec::new(),
            allowed_chat_usernames: Vec::new(),
            allow_all_chats_for_dev: false,
        }
    }
}

/// The sender of a message, as far as authorization reads it.
#[derive(Clone, Debug)]
pub struct TelegramUser {
    pub id: u64,
    pub username: Option<String>,
}

/// A chat is allowed in development mode, when its id is listed, or when the
/// sender's username matches a listed one case-insensitively (compared by
/// Unicode lowercase).
pub open spec fn chat_allowed(
    config: TelegramConfig,
    chat_id: i64,
    sender_username: Option<Seq<char>>,
) -> bool {
    ||| config.allow_all_chats_for_dev
    ||| config.allowed_chat_ids@.contains(chat_id)
    ||| (sender_username matches Some(name) && exists|i: int|
        0 <= i < config.allowed_chat_usernames@.len()
            && lowercase_of(#[trigger] config.allowed_chat_usernames@[i]@) == lowercase_of(name))
}

/// The username of an optional sender, if it has one.
pub open spec fn sender_username(sender: Option<&TelegramUser>) -> Option<Seq<char>> {
    match sender {
        Some(u) => match u.username {
            Some(n) => Some(n@),
            None => None,
        },
        None => None,
    }
}

/// Check whether a chat is authorized: development mode, a listed chat id,
/// or a listed sender username.
pub fn is_allowed_chat(config: &TelegramConfig, chat_id: i64, sender: Option<&TelegramUser>) -> (r: bool)
    ensures
        r == chat_allowed(*config, chat_id, sender_username(sender)),
{
    if config.allow_all_chats_for_dev {
        return true;
    }
    let mut i: usize = 0;
    while i < config.allowed_chat_ids.len()
        invariant
            i <= config.allowed_chat_ids@.len(),
            forall|j: int| 0 <= j < i ==> config.allowed_chat_ids@[j] != chat_id,
        decreases config.allowed_chat_ids@.len() - i,
    {
        if config.allowed_chat_ids[i] == chat_id {
            assert(config.allowed_chat_ids@.contains(chat_id));
            return true;
        }
        i = i + 1;
    }
    assert(!config.allowed_chat_ids@.contains(chat_id));
    if let Some(user) = sender {
        if let Some(username) = &user.username {
            let lowered = to_lowercase(username.as_str());
            let lc = chars_of(lowered.as_str());
            let mut k: usize = 0;
            while k < config.allowed_chat_usernames.len()
                invariant
                    k <= config.allowed_chat_usernames@.len(),
                    lc@ == lowercase_of(username@),
                    sender_username(sender) == Some(username@),
                    !config.allow_all_chats_for_dev,
                    !config.allowed_chat_ids@.contains(chat_id),
                    forall|j: int| 0 <= j < k ==> lowercase_of(#[trigger] config.allowed_chat_usernames@[j]@) != lc@,
                decreases config.allowed_chat_usernames@.len() - k,
            {
                let other = to_lowercase(config.allowed_chat_usernames[k].as_str());
                let oc = chars_of(other.as_str());
                if eq_chars(&oc, &lc) {
                    assert(lowercase_of(config.allowed_chat_usernames@[k as int]@) == lowercase_of(username@));

                    return true;
                }
                k = k + 1;
            }
        }
    }
    false
}

/// Usernames compare without regard to case: a sender whose username has
/// the same lowercase form as a listed one is let in, whatever the chat; in
/// particular a sender named exactly as listed is let in.
pub proof fn lemma_listed_username_allowed(config: TelegramConfig, chat_id: i64, name: Seq<char>, i: int)
    requires
        0 <= i < config.allowed_chat_usernames@.len(),
    ensures
        lowercase_of(config.allowed_chat_usernames@[i]@) == lowercase_of(name) ==> chat_allowed(config, chat_id, Some(name)),
        config.allowed_chat_usernames@[i]@ == name ==> chat_allowed(config, chat_id, Some(name)),
{
}

/// Without development mode, a listed chat id or a sender, a chat is not
/// let in; with development mode, every chat is.
pub proof fn lemma_chat_allowed_cases(config: TelegramConfig, chat_id: i64, sender: Option<Seq<char>>)
    ensures
        config.allow_all_chats_for_dev ==> chat_allowed(config, chat_id, sender),
        config.allowed_chat_ids@.contains(chat_id) ==> chat_allowed(config, chat_id, sender),
        !config.allow_all_chats_for_dev && !config.allowed_chat_ids@.contains(chat_id) && sender is None
            ==> !chat_allowed(config, chat_id, sender),
{
}

} // verus!
