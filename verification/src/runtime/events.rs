//! Frontend events: the light events a frontend renders, and how tool call
//! events are given a human-readable description.
use vstd::prelude::*;
use vstd::string::StringExecFns;
use crate::strmap::StrMap;
use crate::tools::schema::{json_view, view_key_value, Json, JsonView};

verus! {

/// Lightweight frontend event with only the fields needed for UI rendering.
#[derive(Clone, Debug)]
pub enum FrontendEvent {
    /// A new agent run has started.
    RunStarted { task: String },
    /// The agent has produced a final answer.
    RunFinished { text: Option<String> },
    /// A tool call is about to be executed.
    ToolCallStarted { tool_name: String, tool_call_id: String, attempt: u32, description: String },
    /// A tool call has completed.
    ToolCallFinished { tool_name: String, tool_call_id: String, success: bool, attempt: u32, description: String },
    /// A partial token delta from the model.
    LlmTokenDelta { model: String, delta: String },
    /// A partial reasoning delta from the model.
    LlmThinkingDelta { model: String, delta: String },
    /// The agent encountered an error.
    Error { message: String },
    /// Execution was handed to a specialized loop.
    LoopDelegated { from: String, to: String, reason: String, depth: u32 },
    /// The agent's memory was compressed.
    MemoryCompressed { before_tokens: usize, after_tokens: usize },
}

/// Gives tool call events their description: the call's `label` argument
/// when it has a text one, else the tool's name; a finished call carries
/// the description its start was given.
pub struct ToolDescriptions {
    cache: StrMap,
}

impl ToolDescriptions {
    /// The descriptions of started calls not finished yet, by call id.
    pub closed spec fn pending(self) -> Map<Seq<char>, Seq<char>> {
        self.cache@
    }

    /// An empty cache.
    pub fn new() -> (r: Self)
        ensures
            r.pending() == Map::<Seq<char>, Seq<char>>::empty(),
    {
        ToolDescriptions { cache: StrMap::new() }
    }

    /// The event for a call of `tool_name` starting, with its `label`
    /// argument if it has a text one; the description is remembered.
    pub fn started(&mut self, tool_name: String, tool_call_id: String, attempt: u32, label: Option<String>) -> (r: FrontendEvent)
        ensures
            ({
                let d = match label { Some(l) => l@, None => tool_name@ };
                &&& r matches FrontendEvent::ToolCallStarted { tool_name: n, tool_call_id: i, attempt: a, description: x }
                    && n@ == tool_name@ && i@ == tool_call_id@ && a == attempt && x@ == d
                &&& final(self).pending() == old(self).pending().insert(tool_call_id@, d)
            }),
    {
        let description = match label {
            Some(l) => l,
            None => tool_name.clone(),
        };
        self.cache.insert(tool_call_id.clone(), description.clone());
        FrontendEvent::ToolCallStarted { tool_name, tool_call_id, attempt, description }
    }

    /// The event for a call finishing: it carries the description its start
    /// was given (forgotten now), or the tool's name.
    pub fn finished(&mut self, tool_name: String, tool_call_id: String, success: bool, attempt: u32) -> (r: FrontendEvent)
        ensures
            ({
                let d = if old(self).pending().contains_key(tool_call_id@) {
                    old(self).pending()[tool_call_id@]
                } else {
                    tool_name@
                };
                &&& r matches FrontendEvent::ToolCallFinished { tool_name: n, tool_call_id: i, success: s, attempt: a, description: x }
                    && n@ == tool_name@ && i@ == tool_call_id@ && s == success && a == attempt && x@ == d
                &&& final(self).pending() == old(self).pending().remove(tool_call_id@)
            }),
    {
        let description = match self.cache.remove(tool_call_id.as_str()) {
            Some(d) => d,
            None => tool_name.clone(),
        };
        FrontendEvent::ToolCallFinished { tool_name, tool_call_id, success, attempt, description }
    }
}

/// A finished call carries the description its start was given, whatever
/// other calls started in between.
pub proof fn lemma_finished_call_keeps_its_description(
    pending: Map<Seq<char>, Seq<char>>,
    id: Seq<char>,
    description: Seq<char>,
    other: Seq<char>,
    other_description: Seq<char>,
)
    requires
        other != id,
    ensures
        pending.insert(id, description).insert(other, other_description)[id] == description,
        pending.insert(id, description).insert(other, other_description).contains_key(id),
{
}

} // verus!

verus! {

/// A tool call as the frontend sees it: the tool, the call id, and the
/// arguments as the model wrote them.
#[derive(Debug)]
pub struct ToolCallInfo {
    pub tool: String,
    pub id: String,
    pub raw_args: Json,
}

/// The `label` argument of a call, when the arguments are an object whose
/// `label` is a string.
pub open spec fn label_arg(raw_args: JsonView) -> Option<Seq<char>> {
    match raw_args {
        JsonView::Object(es) => match view_key_value(es, "label"@) {
            Some(JsonView::Str(l)) => Some(l),
            _ => None,
        },
        _ => None,
    }
}

/// The `label` argument of a call (see `label_arg`).
pub fn call_label(raw_args: &Json) -> (r: Option<String>)
    ensures
        match r {
            Some(l) => label_arg(json_view(*raw_args)) == Some(l@),
            None => label_arg(json_view(*raw_args)) is None,
        },
{
    match raw_args.get("label") {
        Some(Json::Str(l)) => Some(l.clone()),
        _ => None,
    }
}

/// The agent events a frontend sink receives.
#[derive(Debug)]
pub enum AgentEvent {
    AgentStarted { task: String },
    AgentFinished { text: Option<String> },
    ToolCallStarted { tool_call: ToolCallInfo, attempt: u32 },
    ToolCallFinished { tool_call_id: String, success: bool, attempt: u32, tool_name: String },
    LlmTokenDelta { model: String, delta: String },
    Error { message: String },
    MemoryCompressed { before_tokens: usize, after_tokens: usize },
    LoopDelegated { from: String, to: String, reason: String, depth: u32 },
    StepStarted { step: u32 },
    StepFinished { step: u32 },
    LlmRequest,
    LlmResponse,
    SteeringApplied,
}

/// Whether an event is internal and high-volume, never shown.
pub open spec fn is_suppressed(e: AgentEvent) -> bool {
    e is StepStarted || e is StepFinished || e is LlmRequest || e is LlmResponse || e is SteeringApplied
}

/// How a send on the frontend channel went.
#[derive(Clone, Copy, Debug, PartialEq, Eq)]
pub enum SendOutcome {
    Sent,
    /// The channel was full: the event is dropped.
    Full,
    /// The receiver is gone.
    Closed,
}

/// The error a sink reports when its frontend is gone.
#[derive(Clone, Debug, PartialEq, Eq)]
pub struct SinkError {
    pub sink: String,
    pub message: String,
}

/// An event sink that turns agent events into frontend events; it gives
/// finished calls the description their start was given.
pub struct FrontendEventSink {
    name: String,
    descriptions: ToolDescriptions,
}

impl FrontendEventSink {
    /// The descriptions of started calls not finished yet, by call id.
    pub closed spec fn pending(self) -> Map<Seq<char>, Seq<char>> {
        self.descriptions.pending()
    }

    /// The sink's name.
    pub closed spec fn name_view(self) -> Seq<char> {
        self.name@
    }

    /// A sink named "frontend".
    pub fn new() -> (r: Self)
        ensures
            r.name_view() == "frontend"@,
            r.pending() == Map::<Seq<char>, Seq<char>>::empty(),
    {
        FrontendEventSink { name: String::from_str("frontend"), descriptions: ToolDescriptions::new() }
    }

    /// A sink with the given name.
    pub fn with_name(name: &str) -> (r: Self)
        ensures
            r.name_view() == name@,
            r.pending() == Map::<Seq<char>, Seq<char>>::empty(),
    {
        FrontendEventSink { name: String::from_str(name), descriptions: ToolDescriptions::new() }
    }

    /// The sink's name.
    pub fn name(&self) -> (r: &str)
        ensures
            r@ == self.name_view(),
    {
        self.name.as_str()
    }

    /// Map an agent event to the frontend event shown for it, if any.
    pub fn map_event(&mut self, event: AgentEvent) -> (r: Option<FrontendEvent>)
        ensures
            final(self).name_view() == old(self).name_view(),
            is_suppressed(event) ==> r is None && final(self).pending() == old(self).pending(),
            match event {
                AgentEvent::AgentStarted { task } => r matches Some(FrontendEvent::RunStarted { task: t }) && t@ == task@,
                AgentEvent::AgentFinished { text } => r matches Some(FrontendEvent::RunFinished { text: t }) && t == text,
                AgentEvent::ToolCallStarted { tool_call, attempt } => {
                    let d = match label_arg(json_view(tool_call.raw_args)) { Some(l) => l, None => tool_call.tool@ };
                    &&& r matches Some(FrontendEvent::ToolCallStarted { tool_name: n, tool_call_id: i, attempt: a, description: x })
                        && n@ == tool_call.tool@ && i@ == tool_call.id@ && a == attempt && x@ == d
                    &&& final(self).pending() == old(self).pending().insert(tool_call.id@, d)
                },
                AgentEvent::ToolCallFinished { tool_call_id, success, attempt, tool_name } => {
                    let d = if old(self).pending().contains_key(tool_call_id@) {
                        old(self).pending()[tool_call_id@]
                    } else {
                        tool_name@
                    };
                    &&& r matches Some(FrontendEvent::ToolCallFinished { tool_name: n, tool_call_id: i, success: s, attempt: a, description: x })
                        && n@ == tool_name@ && i@ == tool_call_id@ && s == success && a == attempt && x@ == d
                    &&& final(self).pending() == old(self).pending().remove(tool_call_id@)
                },
                AgentEvent::LlmTokenDelta { model, delta } =>
                    r matches Some(FrontendEvent::LlmTokenDelta { model: m, delta: d }) && m@ == model@ && d@ == delta@,
                AgentEvent::Error { message } => r matches Some(FrontendEvent::Error { message: m }) && m@ == message@,
                AgentEvent::MemoryCompressed { before_tokens, after_tokens } =>
                    r == Some(FrontendEvent::MemoryCompressed { before_tokens, after_tokens }),
                AgentEvent::LoopDelegated { from, to, reason, depth } =>
                    r matches Some(FrontendEvent::LoopDelegated { from: f, to: t, reason: w, depth: d })
                        && f@ == from@ && t@ == to@ && w@ == reason@ && d == depth,
                _ => true,
            },
            !(event is ToolCallStarted || event is ToolCallFinished) ==> final(self).pending() == old(self).pending(),
    {
        match event {
            AgentEvent::AgentStarted { task } => Some(FrontendEvent::RunStarted { task }),
            AgentEvent::AgentFinished { text } => Some(FrontendEvent::RunFinished { text }),
            AgentEvent::ToolCallStarted { tool_call, attempt } => {
                let label = call_label(&tool_call.raw_args);
                Some(self.descriptions.started(tool_call.tool, tool_call.id, attempt, label))
            },
            AgentEvent::ToolCallFinished { tool_call_id, success, attempt, tool_name } =>
                Some(self.descriptions.finished(tool_name, tool_call_id, success, attempt)),
            AgentEvent::LlmTokenDelta { model, delta } => Some(FrontendEvent::LlmTokenDelta { model, delta }),
            AgentEvent::Error { message } => Some(FrontendEvent::Error { message }),
            AgentEvent::MemoryCompressed { before_tokens, after_tokens } =>
                Some(FrontendEvent::MemoryCompressed { before_tokens, after_tokens }),
            AgentEvent::LoopDelegated { from, to, reason, depth } =>
                Some(FrontendEvent::LoopDelegated { from, to, reason, depth }),
            _ => None,
        }
    }

    /// What an emit reports after trying to send: a full channel drops the
    /// event silently; a closed one is an error of this sink.
    pub fn emit_result(&self, outcome: SendOutcome) -> (r: Result<(), SinkError>)
        ensures
            outcome == SendOutcome::Closed <==> r is Err,
            r matches Err(e) ==> e.sink@ == self.name_view() && e.message@ == "frontend event channel closed"@,
    {
        match outcome {
            SendOutcome::Closed => Err(SinkError {
                sink: self.name.clone(),
                message: String::from_str("frontend event channel closed"),
            }),
            _ => Ok(()),
        }
    }
}

} // verus!
