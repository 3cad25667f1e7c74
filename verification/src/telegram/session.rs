//! Per-chat sessions: one active run per chat, its pending confirmation and
//! whether it was cancelled. The sessions live in a `DashMap`; starting the
//! run, sending messages and answering the waiting confirmation are the
//! frontend's work, on what these methods report.
use vstd::prelude::*;
use vstd::string::StringExecFns;
use crate::telegram::auth::CallbackAction;
use dashmap::DashMap;

verus! {

/// The state of one chat's session.
#[derive(Debug, Clone, Default)]
pub struct ChatSessionState {
    /// Whether a run is going on.
    pub active: bool,
    /// The id of the confirmation the run waits for, if any.
    pub pending_confirmation: Option<String>,
    /// Whether the run can be cancelled.
    pub cancellable: bool,
    /// Whether the run was cancelled.
    pub cancelled: bool,
}

/// A session as plain values.
pub struct SessionView {
    pub active: bool,
    pub pending: Option<Seq<char>>,
    pub cancellable: bool,
    pub cancelled: bool,
}

pub open spec fn session_view(s: ChatSessionState) -> SessionView {
    SessionView {
        active: s.active,
        pending: match s.pending_confirmation { Some(p) => Some(p@), None => None },
        cancellable: s.cancellable,
        cancelled: s.cancelled,
    }
}

/// A session before any run.
pub open spec fn fresh_session() -> SessionView {
    SessionView { active: false, pending: None, cancellable: false, cancelled: false }
}

#[verifier::external_type_specification]
#[verifier::external_body]
#[verifier::reject_recursive_types(K)]
#[verifier::reject_recursive_types(V)]
#[verifier::reject_recursive_types(S)]
pub struct ExDashMap<K, V, S>(dashmap::DashMap<K, V, S>);

/// The sessions a `DashMap` holds, by chat id.
pub uninterp spec fn dashmap_sessions(m: DashMap<i64, ChatSessionState>) -> Map<i64, SessionView>;

/// `DashMap::new`: an empty map.
#[verifier::external_body]
fn sessions_new() -> (r: DashMap<i64, ChatSessionState>)
    ensures
        dashmap_sessions(r).dom().len() == 0 && dashmap_sessions(r).dom().finite(),
{
    DashMap::new()
}

/// `DashMap::get`, the session cloned out of the shard guard.
#[verifier::external_body]
fn sessions_get(m: &DashMap<i64, ChatSessionState>, chat_id: i64) -> (r: Option<ChatSessionState>)
    ensures
        match r {
            Some(s) => dashmap_sessions(*m).contains_key(chat_id) && dashmap_sessions(*m)[chat_id] == session_view(s),
            None => !dashmap_sessions(*m).contains_key(chat_id),
        },
{
    m.get(&chat_id).map(|s| s.value().clone())
}

/// `DashMap::insert`, with the map held exclusively: the key now maps to
/// the value.
#[verifier::external_body]
fn sessions_insert(m: &mut DashMap<i64, ChatSessionState>, chat_id: i64, state: ChatSessionState)
    ensures
        dashmap_sessions(*final(m)) == dashmap_sessions(*old(m)).insert(chat_id, session_view(state)),
{
    m.insert(chat_id, state);
}

/// What cancelling a chat's run asks of the frontend.
#[derive(Debug, PartialEq, Eq)]
pub struct CancelEffects {
    /// Fire the run's cancellation token.
    pub cancel_run: bool,
    /// Answer this waiting confirmation with a denial.
    pub deny_confirmation: Option<String>,
}

/// What an inline button press asks of the frontend.
#[derive(Debug, PartialEq, Eq)]
pub enum CallbackEffect {
    /// Answer the waiting confirmation with this decision.
    Resolve { approved: bool },
    /// Nothing to do: no such confirmation is waiting.
    Ignore,
    /// Tell the user the action is unknown.
    ReplyUnknown,
}

/// Manages per-chat sessions with one active run per chat.
pub struct SessionManager {
    sessions: DashMap<i64, ChatSessionState>,
}

impl View for SessionManager {
    type V = Map<i64, SessionView>;

    closed spec fn view(&self) -> Map<i64, SessionView> {
        dashmap_sessions(self.sessions)
    }
}

/// The session a run starts with: active, nothing pending, cancellable.
pub open spec fn started_session() -> SessionView {
    SessionView { active: true, pending: None, cancellable: true, cancelled: false }
}

impl SessionManager {
    /// No sessions.
    pub fn new() -> (r: Self)
        ensures
            r@ == Map::<i64, SessionView>::empty(),
    {
        SessionManager { sessions: sessions_new() }
    }

    /// The session of a chat, if it has one.
    pub fn session(&self, chat_id: i64) -> (r: Option<ChatSessionState>)
        ensures
            match r {
                Some(s) => self@.contains_key(chat_id) && self@[chat_id] == session_view(s),
                None => !self@.contains_key(chat_id),
            },
    {
        sessions_get(&self.sessions, chat_id)
    }

    /// Begin a run in a chat. When one is already going on, nothing changes
    /// and `true` comes back (the user is told to stop it first); else the
    /// session becomes active, with nothing pending, and `false` comes back.
    pub fn start_run(&mut self, chat_id: i64) -> (already_active: bool)
        ensures
            already_active == (old(self)@.contains_key(chat_id) && old(self)@[chat_id].active),
            already_active ==> final(self)@ == old(self)@,
            !already_active ==> final(self)@ == old(self)@.insert(chat_id, started_session()),
    {
        match sessions_get(&self.sessions, chat_id) {
            Some(s) => if s.active {
                return true;
            },
            None => {},
        }
        let state = ChatSessionState { active: true, pending_confirmation: None, cancellable: true, cancelled: false };
        sessions_insert(&mut self.sessions, chat_id, state);
        false
    }

    /// The run of a chat ended: it is no longer active, waits for nothing
    /// and can no longer be cancelled (whether it was cancelled stays).
    pub fn finish_run(&mut self, chat_id: i64)
        ensures
            old(self)@.contains_key(chat_id) ==> final(self)@ == old(self)@.insert(chat_id, SessionView {
                active: false,
                pending: None,
                cancellable: false,
                ..old(self)@[chat_id]
            }),
            !old(self)@.contains_key(chat_id) ==> final(self)@ == old(self)@,
    {
        if let Some(s) = sessions_get(&self.sessions, chat_id) {
            let state = ChatSessionState { active: false, pending_confirmation: None, cancellable: false, cancelled: s.cancelled };
            sessions_insert(&mut self.sessions, chat_id, state);
        }
    }

    /// Cancel the active run for the given chat: it is marked cancelled,
    /// its token is fired and a waiting confirmation is denied.
    pub fn cancel(&mut self, chat_id: i64) -> (r: CancelEffects)
        ensures
            old(self)@.contains_key(chat_id) ==> {
                let s = old(self)@[chat_id];
                &&& final(self)@ == old(self)@.insert(chat_id, SessionView { cancelled: true, pending: None, ..s })
                &&& r.cancel_run == s.cancellable
                &&& match s.pending {
                    Some(p) => r.deny_confirmation matches Some(x) && x@ == p,
                    None => r.deny_confirmation is None,
                }
            },
            !old(self)@.contains_key(chat_id) ==> final(self)@ == old(self)@ && !r.cancel_run && r.deny_confirmation is None,
    {
        match sessions_get(&self.sessions, chat_id) {
            Some(s) => {
                let state = ChatSessionState {
                    active: s.active,
                    pending_confirmation: None,
                    cancellable: s.cancellable,
                    cancelled: true,
                };
                sessions_insert(&mut self.sessions, chat_id, state);
                CancelEffects { cancel_run: s.cancellable, deny_confirmation: s.pending_confirmation }
            },
            None => CancelEffects { cancel_run: false, deny_confirmation: None },
        }
    }

    /// Register the confirmation a run waits for. Refused (`false`, nothing
    /// changes) unless the chat has an active run with nothing pending.
    pub fn set_pending_confirmation(&mut self, chat_id: i64, confirmation_id: String) -> (r: bool)
        ensures
            r == (old(self)@.contains_key(chat_id) && old(self)@[chat_id].active && old(self)@[chat_id].pending is None),
            r ==> final(self)@ == old(self)@.insert(chat_id, SessionView { pending: Some(confirmation_id@), ..old(self)@[chat_id] }),
            !r ==> final(self)@ == old(self)@,
    {
        match sessions_get(&self.sessions, chat_id) {
            Some(s) => {
                if !s.active || s.pending_confirmation.is_some() {
                    return false;
                }
                let state = ChatSessionState {
                    active: s.active,
                    pending_confirmation: Some(confirmation_id),
                    cancellable: s.cancellable,
                    cancelled: s.cancelled,
                };
                sessions_insert(&mut self.sessions, chat_id, state);
                true
            },
            None => false,
        }
    }

    /// Whether the chat waits for exactly this confirmation.
    pub open spec fn waits_for(m: Map<i64, SessionView>, chat_id: i64, confirmation_id: Seq<char>) -> bool {
        m.contains_key(chat_id) && m[chat_id].pending == Some(confirmation_id)
    }

    fn take_pending(&mut self, chat_id: i64, confirmation_id: &str) -> (r: bool)
        ensures
            r == Self::waits_for(old(self)@, chat_id, confirmation_id@),
            r ==> final(self)@ == old(self)@.insert(chat_id, SessionView { pending: None, ..old(self)@[chat_id] }),
            !r ==> final(self)@ == old(self)@,
    {
        match sessions_get(&self.sessions, chat_id) {
            Some(s) => {
                let wanted = String::from_str(confirmation_id);
                let matches = match &s.pending_confirmation {
                    Some(p) => *p == wanted,
                    None => false,
                };
                if matches {
                    let state = ChatSessionState {
                        active: s.active,
                        pending_confirmation: None,
                        cancellable: s.cancellable,
                        cancelled: s.cancelled,
                    };
                    sessions_insert(&mut self.sessions, chat_id, state);
                }
                matches
            },
            None => false,
        }
    }

    /// Forget the waiting confirmation if it is this one; says whether it was.
    pub fn clear_pending_confirmation(&mut self, chat_id: i64, confirmation_id: &str) -> (r: bool)
        ensures
            r == Self::waits_for(old(self)@, chat_id, confirmation_id@),
            r ==> final(self)@ == old(self)@.insert(chat_id, SessionView { pending: None, ..old(self)@[chat_id] }),
            !r ==> final(self)@ == old(self)@,
    {
        self.take_pending(chat_id, confirmation_id)
    }

    /// Answer the waiting confirmation if it is this one: it is taken, and
    /// `true` says the frontend must pass `approved` on to the run.
    pub fn resolve_pending_confirmation(&mut self, chat_id: i64, confirmation_id: &str, approved: bool) -> (r: bool)
        ensures
            r == Self::waits_for(old(self)@, chat_id, confirmation_id@),
            r ==> final(self)@ == old(self)@.insert(chat_id, SessionView { pending: None, ..old(self)@[chat_id] }),
            !r ==> final(self)@ == old(self)@,
    {
        self.take_pending(chat_id, confirmation_id)
    }

    /// The current status of a chat's session.
    pub fn status(&self, chat_id: i64) -> (r: String)
        ensures
            r@ == (if self@.contains_key(chat_id) && self@[chat_id].active { "Active run in progress."@ } else { "No active run."@ }),
    {
        let active = match sessions_get(&self.sessions, chat_id) {
            Some(s) => s.active,
            None => false,
        };
        if active {
            proof { reveal_strlit("Active run in progress."); }
            String::from_str("Active run in progress.")
        } else {
            proof { reveal_strlit("No active run."); }
            String::from_str("No active run.")
        }
    }

    /// A memory summary for the chat.
    pub fn memory_summary(&self, chat_id: i64) -> (r: String)
        ensures
            r@ == (if self@.contains_key(chat_id) { "Memory is active for this chat."@ } else { "No memory for this chat yet."@ }),
    {
        match sessions_get(&self.sessions, chat_id) {
            Some(_) => {
                proof { reveal_strlit("Memory is active for this chat."); }
                String::from_str("Memory is active for this chat.")
            },
            None => {
                proof { reveal_strlit("No memory for this chat yet."); }
                String::from_str("No memory for this chat yet.")
            },
        }
    }

    /// Handle an inline callback action (approve/deny): the confirmation is
    /// answered if it is the one waiting; an unknown action is reported.
    pub fn handle_callback(&mut self, chat_id: i64, action: CallbackAction) -> (r: CallbackEffect)
        ensures
            match action {
                CallbackAction::Approve(id) => {
                    &&& (r == if Self::waits_for(old(self)@, chat_id, id@) { CallbackEffect::Resolve { approved: true } } else { CallbackEffect::Ignore })
                    &&& Self::waits_for(old(self)@, chat_id, id@) ==> final(self)@ == old(self)@.insert(chat_id, SessionView { pending: None, ..old(self)@[chat_id] })
                    &&& !Self::waits_for(old(self)@, chat_id, id@) ==> final(self)@ == old(self)@
                },
                CallbackAction::Deny(id) => {
                    &&& (r == if Self::waits_for(old(self)@, chat_id, id@) { CallbackEffect::Resolve { approved: false } } else { CallbackEffect::Ignore })
                    &&& Self::waits_for(old(self)@, chat_id, id@) ==> final(self)@ == old(self)@.insert(chat_id, SessionView { pending: None, ..old(self)@[chat_id] })
                    &&& !Self::waits_for(old(self)@, chat_id, id@) ==> final(self)@ == old(self)@
                },
                CallbackAction::Unknown(_) => r == CallbackEffect::ReplyUnknown && final(self)@ == old(self)@,
            },
    {
        match action {
            CallbackAction::Approve(id) => if self.resolve_pending_confirmation(chat_id, id.as_str(), true) {
                CallbackEffect::Resolve { approved: true }
            } else {
                CallbackEffect::Ignore
            },
            CallbackAction::Deny(id) => if self.resolve_pending_confirmation(chat_id, id.as_str(), false) {
                CallbackEffect::Resolve { approved: false }
            } else {
                CallbackEffect::Ignore
            },
            CallbackAction::Unknown(_) => CallbackEffect::ReplyUnknown,
        }
    }
}

/// The text a chat gets when a run is refused because one is going on.
pub fn already_running_text() -> (r: &'static str)
    ensures
        r@ == "\u{26A0}\u{FE0F} A task is already running. Use /stop to cancel it."@,
{
    "\u{26A0}\u{FE0F} A task is already running. Use /stop to cancel it."
}

} // verus!

verus! {

/// One run per chat: once a run has started, starting another in the same
/// chat is refused until the first one finishes; runs in other chats are
/// not affected.
pub proof fn lemma_one_run_per_chat(m: Map<i64, SessionView>, chat_id: i64, other: i64)
    requires
        other != chat_id,
    ensures
        ({
            let started = m.insert(chat_id, started_session());
            &&& started.contains_key(chat_id) && started[chat_id].active
            &&& (m.contains_key(other) == started.contains_key(other))
            &&& m.contains_key(other) ==> started[other] == m[other]
        }),
        ({
            let started = m.insert(chat_id, started_session());
            let done = started.insert(chat_id, SessionView { active: false, pending: None, cancellable: false, ..started[chat_id] });
            !(done.contains_key(chat_id) && done[chat_id].active)
        }),
{
}

/// A confirmation is answered once: after it is resolved or cleared, the
/// chat no longer waits for it.
pub proof fn lemma_confirmation_answered_once(m: Map<i64, SessionView>, chat_id: i64, confirmation_id: Seq<char>)
    requires
        SessionManager::waits_for(m, chat_id, confirmation_id),
    ensures
        !SessionManager::waits_for(
            m.insert(chat_id, SessionView { pending: None, ..m[chat_id] }),
            chat_id,
            confirmation_id,
        ),
{
}

} // verus!
