//! Progress rendering for a run: the step labels shown while the agent
//! works, the summary they become, and the final answer with the model's
//! reasoning. The renderer is a state machine; sending and editing the
//! messages is the frontend's work.
use vstd::prelude::*;
use vstd::string::StringExecFns;
use crate::runtime::events::FrontendEvent;
use crate::strmap::StrMap;
use crate::telegram::formatting::{chunk_message, chunk_split, chunks, escape_html, format_final_message, html_escape, max_chunk_bytes, sanitized};
use crate::telegram::markdown::{markdown_events_of, render_events};
use crate::text::{byte_len, chars_of, decimal, str_byte_len, trim, join, join_strings, lemma_views_push, push_decimal, push_str, slice_vec, string_of, views};

verus! {

/// A label with the description only when it adds something: non-empty
/// and not the tool's name.
pub open spec fn label_text(icon: Seq<char>, tool_name: Seq<char>, description: Seq<char>) -> Seq<char> {
    if description.len() == 0 || description == tool_name {
        icon + " "@ + tool_name
    } else {
        icon + " "@ + tool_name + ": "@ + description
    }
}

/// The label of a step that starts (with its attempt when retried).
pub open spec fn step_label_text(tool_name: Seq<char>, description: Seq<char>, attempt: u32) -> Seq<char> {
    let base = label_text("\u{1F527}"@, tool_name, description);
    if attempt > 1 { base + " (attempt "@ + decimal(attempt as nat) + ")"@ } else { base }
}

/// The label of a step that finished.
pub open spec fn finish_label_text(tool_name: Seq<char>, description: Seq<char>, success: bool) -> Seq<char> {
    label_text(if success { "\u{2705}"@ } else { "\u{274C}"@ }, tool_name, description)
}

fn label_exec(icon: &str, tool_name: &str, description: &str) -> (r: String)
    ensures
        r@ == label_text(icon@, tool_name@, description@),
{
    let mut r = String::from_str(icon);
    push_str(&mut r, " ");
    push_str(&mut r, tool_name);
    let d = String::from_str(description);
    let t = String::from_str(tool_name);
    if !(description.is_empty() || d == t) {
        push_str(&mut r, ": ");
        push_str(&mut r, description);
    }
    r
}

/// Build a step label, showing `description` only when it adds value.
pub fn format_step_label(tool_name: &str, description: &str, attempt: u32) -> (r: String)
    ensures
        r@ == step_label_text(tool_name@, description@, attempt),
{
    let mut r = label_exec("\u{1F527}", tool_name, description);
    if attempt > 1 {
        push_str(&mut r, " (attempt ");
        push_decimal(&mut r, attempt as u64);
        push_str(&mut r, ")");
    }
    r
}

/// Build a finish label (success or failure).
pub fn format_finish_label(tool_name: &str, description: &str, success: bool) -> (r: String)
    ensures
        r@ == finish_label_text(tool_name@, description@, success),
{
    label_exec(if success { "\u{2705}" } else { "\u{274C}" }, tool_name, description)
}

/// The final answer: the reasoning first, when there is any, then the text.
pub open spec fn final_text_of(text: Option<Seq<char>>, thinking: Seq<char>) -> Option<Seq<char>> {
    match text {
        Some(t) => if thinking.len() > 0 {
            Some("\u{1F4AD} *Thinking*\n"@ + thinking + "\n\n"@ + t)
        } else {
            Some(t)
        },
        None => if thinking.len() > 0 { Some("\u{1F4AD} *Thinking*\n"@ + thinking) } else { None },
    }
}

/// Build the final answer text, prepending (and consuming) the reasoning.
pub fn build_final_text(final_text: Option<String>, thinking_buffer: &mut String) -> (r: Option<String>)
    ensures
        match final_text_of(match final_text { Some(t) => Some(t@), None => None }, old(thinking_buffer)@) {
            Some(x) => r matches Some(y) && y@ == x,
            None => r is None,
        },
        final(thinking_buffer)@.len() == 0,
{
    let mut thinking = String::new();
    std::mem::swap(&mut thinking, thinking_buffer);
    if thinking.as_str().is_empty() {
        return final_text;
    }
    let mut r = String::from_str("\u{1F4AD} *Thinking*\n");
    push_str(&mut r, thinking.as_str());
    if let Some(t) = final_text {
        push_str(&mut r, "\n\n");
        push_str(&mut r, t.as_str());
    }
    Some(r)
}

/// The text of the progress message when a run starts: the task, cut to
/// 77 characters and an ellipsis when longer than 80.
pub open spec fn start_text_of(task: Seq<char>) -> Seq<char> {
    let preview = if task.len() > 80 { task.subrange(0, 77) + "\u{2026}"@ } else { task };
    "\u{1F504} Processing: "@ + preview
}

/// The text of the progress message for a new run.
pub fn start_text(task: &str) -> (r: String)
    ensures
        r@ == start_text_of(task@),
{
    let cs = chars_of(task);
    let mut r = String::from_str("\u{1F504} Processing: ");
    if cs.len() > 80 {
        push_str(&mut r, string_of(&slice_vec(&cs, 0, 77)).as_str());
        push_str(&mut r, "\u{2026}");
    } else {
        push_str(&mut r, task);
    }
    r
}

/// A chunk of label text as an expandable quote.
pub open spec fn quoted_chunk(c: Seq<char>) -> Seq<char> {
    "<blockquote expandable>"@ + html_escape(c) + "</blockquote>"@
}

/// The labels as shown under a header: escaped as they are, or, when there
/// are more than five, cut into chunks that each become an expandable quote.
pub open spec fn labels_body(labels: Seq<Seq<char>>) -> Seq<char> {
    let text = join(labels, "\n"@);
    if labels.len() > 5 {
        join(chunks(text).map_values(|c: Seq<char>| quoted_chunk(c)), "\n"@)
    } else {
        html_escape(text)
    }
}

/// Each chunk as an expandable quote.
pub fn quote_chunks(cs: &Vec<String>) -> (r: Vec<String>)
    ensures
        views(r@) == views(cs@).map_values(|c: Seq<char>| quoted_chunk(c)),
{
    let ghost wrapped = views(cs@).map_values(|c: Seq<char>| quoted_chunk(c));
    let mut parts: Vec<String> = Vec::new();
    let mut i: usize = 0;
    while i < cs.len()
        invariant
            i <= cs@.len(),
            wrapped == views(cs@).map_values(|c: Seq<char>| quoted_chunk(c)),
            views(parts@) == wrapped.subrange(0, i as int),
        decreases cs@.len() - i,
    {
        let mut w = String::from_str("<blockquote expandable>");
        push_str(&mut w, escape_html(cs[i].as_str()).as_str());
        push_str(&mut w, "</blockquote>");
        assert(views(cs@)[i as int] == cs@[i as int]@);
        proof { lemma_views_push(parts@, w); }
        parts.push(w);
        assert(views(parts@) =~= wrapped.subrange(0, i + 1));
        i = i + 1;
    }
    assert(wrapped.subrange(0, cs@.len() as int) =~= wrapped);
    parts
}

/// Render the labels under a header (see `labels_body`).
pub fn render_labels(labels: &[String]) -> (r: String)
    ensures
        r@ == labels_body(views(labels@)),
{
    let text = join_strings(labels, "\n");
    if labels.len() > 5 {
        let cs = chunk_message(text.as_str());
        assert(views(cs@) =~= cs@.map_values(|c: String| c@));
        let parts = quote_chunks(&cs);
        join_strings(&parts, "\n")
    } else {
        escape_html(text.as_str())
    }
}

/// The step history a finished run's progress message becomes: a header
/// with the step count (and the error, if any), then the labels.
pub open spec fn summary_text(labels: Seq<Seq<char>>, error: Option<Seq<char>>) -> Seq<char> {
    "\u{2705} Completed in "@ + decimal(labels.len()) + " step(s)\n"@ + error_line(error) + labels_body(labels)
}

/// The error line under a header, if there is an error.
pub open spec fn error_line(error: Option<Seq<char>>) -> Seq<char> {
    match error {
        Some(e) => "\u{26A0}\u{FE0F} Error: "@ + e + "\n"@,
        None => Seq::empty(),
    }
}

fn push_error_line(r: &mut String, error: Option<&str>)
    ensures
        final(r)@ == old(r)@ + error_line(match error { Some(e) => Some(e@), None => None }),
{
    if let Some(e) = error {
        push_str(r, "\u{26A0}\u{FE0F} Error: ");
        push_str(r, e);
        push_str(r, "\n");
    } else {
        assert(old(r)@ + Seq::<char>::empty() =~= old(r)@);
    }
}

/// Build the step history of a finished run.
pub fn finalize_summary(labels: &[String], error: Option<&str>) -> (r: String)
    ensures
        r@ == summary_text(views(labels@), match error { Some(e) => Some(e@), None => None }),
{
    let mut r = String::from_str("\u{2705} Completed in ");
    push_decimal(&mut r, labels.len() as u64);
    push_str(&mut r, " step(s)\n");
    push_error_line(&mut r, error);
    push_str(&mut r, render_labels(labels).as_str());
    r
}

/// The progress message while a run goes on: a header with the step
/// count, the error if any, then the labels.
pub open spec fn draft_text(labels: Seq<Seq<char>>, error: Option<Seq<char>>) -> Seq<char> {
    "\u{1F504} Processing\u{2026} ("@ + decimal(labels.len()) + " steps)\n"@ + error_line(error) + labels_body(labels)
}

/// Build the progress message of a run that goes on. It holds the labels
/// and the error only: neither reasoning nor streamed text.
pub fn build_process_draft_html(labels: &[String], error: Option<&str>) -> (r: String)
    ensures
        r@ == draft_text(views(labels@), match error { Some(e) => Some(e@), None => None }),
{
    let mut r = String::from_str("\u{1F504} Processing\u{2026} (");
    push_decimal(&mut r, labels.len() as u64);
    push_str(&mut r, " steps)\n");
    push_error_line(&mut r, error);
    push_str(&mut r, render_labels(labels).as_str());
    r
}

} // verus!

verus! {

/// The slot each call id was given, the last one given winning.
pub open spec fn slots_map(es: Seq<(String, usize)>) -> Map<Seq<char>, int>
    decreases es.len(),
{
    if es.len() == 0 {
        Map::empty()
    } else {
        slots_map(es.drop_last()).insert(es.last().0@, es.last().1 as int)
    }
}

fn slot_of(es: &Vec<(String, usize)>, key: &str) -> (r: Option<usize>)
    ensures
        match r {
            Some(i) => slots_map(es@).contains_key(key@) && slots_map(es@)[key@] == i as int,
            None => !slots_map(es@).contains_key(key@),
        },
{
    let k = String::from_str(key);
    let mut i: usize = es.len();
    assert(es@.subrange(0, i as int) =~= es@);
    while i > 0
        invariant
            i <= es@.len(),
            k@ == key@,
            slots_map(es@).contains_key(key@) == slots_map(es@.subrange(0, i as int)).contains_key(key@),
            slots_map(es@).contains_key(key@) ==> slots_map(es@)[key@] == slots_map(es@.subrange(0, i as int))[key@],
        decreases i,
    {
        let ghost pre = es@.subrange(0, i as int);
        assert(pre.drop_last() =~= es@.subrange(0, i - 1));
        assert(pre.last() == es@[i - 1]);
        if es[i - 1].0 == k {
            return Some(es[i - 1].1);
        }
        i = i - 1;
    }
    assert(es@.subrange(0, 0) =~= Seq::<(String, usize)>::empty());
    None
}

/// What the renderer knows of a run.
#[verifier::ext_equal]
pub struct RendererView {
    /// One label per step shown, in order.
    pub labels: Seq<Seq<char>>,
    /// The tool name and description of each started call, by call id.
    pub tools: Map<Seq<char>, (Seq<char>, Seq<char>)>,
    /// The label slot of each started call, by call id.
    pub slots: Map<Seq<char>, int>,
    /// The fatal error, if any (shown apart, not a step).
    pub error: Option<Seq<char>>,
    /// Text streamed by the model so far.
    pub streamed: Seq<char>,
    /// Reasoning streamed by the model so far, not yet used.
    pub thinking: Seq<char>,
    /// Whether the run has finished.
    pub finished: bool,
}

/// What the frontend does after an event.
#[derive(Debug)]
pub enum RenderAction {
    /// Nothing to show.
    Nothing,
    /// The run is over: stop reading events.
    Stop,
    /// Send a new progress message with this text.
    Start { text: String },
    /// Edit the progress message to the renderer's current draft.
    Redraw,
    /// The run finished: turn the progress message into the step history,
    /// then send the answer, if there is one.
    Finish { answer: Option<String> },
}

/// A frontend action as plain values.
pub enum ActionView {
    Nothing,
    Stop,
    Start(Seq<char>),
    Redraw,
    Finish(Option<Seq<char>>),
}

pub open spec fn action_view(a: RenderAction) -> ActionView {
    match a {
        RenderAction::Nothing => ActionView::Nothing,
        RenderAction::Stop => ActionView::Stop,
        RenderAction::Start { text } => ActionView::Start(text@),
        RenderAction::Redraw => ActionView::Redraw,
        RenderAction::Finish { answer } => ActionView::Finish(match answer { Some(t) => Some(t@), None => None }),
    }
}

/// The label of a hand-over to another loop.
pub open spec fn delegated_label(to: Seq<char>, reason: Seq<char>) -> Seq<char> {
    "\u{1F500} delegated to *"@ + to + "*: "@ + reason
}

/// The label of a memory compression.
pub open spec fn memory_label(before: nat, after: nat) -> Seq<char> {
    "\u{1F4BE} Memory: "@ + decimal(before) + " \u{2192} "@ + decimal(after) + " tokens"@
}

/// The tool name and description a finish event is shown with: those its
/// start gave, else "tool" and the event's own; an empty stored
/// description gives way to the event's.
pub open spec fn finish_shown(s: RendererView, id: Seq<char>, description: Seq<char>) -> (Seq<char>, Seq<char>) {
    if s.tools.contains_key(id) {
        let (n, d) = s.tools[id];
        (n, if d.len() == 0 { description } else { d })
    } else {
        ("tool"@, description)
    }
}

/// The labels after a finish label: it replaces its call's start label,
/// or is appended when the call never started.
pub open spec fn place_finish(labels: Seq<Seq<char>>, slot: Option<int>, label: Seq<char>) -> Seq<Seq<char>> {
    match slot {
        Some(i) => if 0 <= i < labels.len() { labels.update(i, label) } else { labels },
        None => labels.push(label),
    }
}

/// The renderer's state after an event.
pub open spec fn render_next(s: RendererView, e: FrontendEvent) -> RendererView {
    if s.finished {
        s
    } else {
        match e {
            FrontendEvent::RunStarted { .. } => s,
            FrontendEvent::RunFinished { .. } => RendererView { thinking: Seq::empty(), finished: true, ..s },
            FrontendEvent::LoopDelegated { to, reason, .. } =>
                RendererView { labels: s.labels.push(delegated_label(to@, reason@)), ..s },
            FrontendEvent::ToolCallStarted { tool_name, tool_call_id, attempt, description } =>
                if tool_name@ == "think"@ {
                    s
                } else {
                    RendererView {
                        labels: s.labels.push(step_label_text(tool_name@, description@, attempt)),
                        tools: s.tools.insert(tool_call_id@, (tool_name@, description@)),
                        slots: s.slots.insert(tool_call_id@, s.labels.len() as int),
                        ..s
                    }
                },
            FrontendEvent::ToolCallFinished { tool_name, tool_call_id, success, description, .. } => {
                let (n, d) = finish_shown(s, tool_call_id@, description@);
                if tool_name@ == "think"@ || n == "think"@ {
                    s
                } else {
                    let slot = if s.slots.contains_key(tool_call_id@) { Some(s.slots[tool_call_id@]) } else { None };
                    RendererView { labels: place_finish(s.labels, slot, finish_label_text(n, d, success)), ..s }
                }
            },
            FrontendEvent::LlmTokenDelta { delta, .. } => RendererView { streamed: s.streamed + delta@, ..s },
            FrontendEvent::LlmThinkingDelta { delta, .. } => RendererView { thinking: s.thinking + delta@, ..s },
            FrontendEvent::Error { message } => RendererView { error: Some(message@), ..s },
            FrontendEvent::MemoryCompressed { before_tokens, after_tokens } =>
                RendererView { labels: s.labels.push(memory_label(before_tokens as nat, after_tokens as nat)), ..s },
        }
    }
}

/// What the frontend does after an event.
pub open spec fn render_action(s: RendererView, e: FrontendEvent) -> ActionView {
    if s.finished {
        ActionView::Stop
    } else {
        match e {
            FrontendEvent::RunStarted { task } => ActionView::Start(start_text_of(task@)),
            FrontendEvent::RunFinished { text } =>
                ActionView::Finish(final_text_of(match text { Some(t) => Some(t@), None => None }, s.thinking)),
            FrontendEvent::ToolCallStarted { tool_name, .. } =>
                if tool_name@ == "think"@ { ActionView::Nothing } else { ActionView::Redraw },
            FrontendEvent::ToolCallFinished { tool_name, tool_call_id, description, .. } =>
                if tool_name@ == "think"@ || finish_shown(s, tool_call_id@, description@).0 == "think"@ {
                    ActionView::Nothing
                } else {
                    ActionView::Redraw
                },
            FrontendEvent::LlmTokenDelta { .. } => ActionView::Nothing,
            FrontendEvent::LlmThinkingDelta { .. } => ActionView::Nothing,
            _ => ActionView::Redraw,
        }
    }
}

/// Turns a run's events into progress messages: step labels that a call's
/// finish replaces in place, the error apart, the model's reasoning kept
/// for the answer and never shown while the run goes on.
pub struct EventRenderer {
    streamed: String,
    thinking: String,
    labels: Vec<String>,
    tool_names: StrMap,
    tool_descriptions: StrMap,
    slots: Vec<(String, usize)>,
    error: Option<String>,
    finished: bool,
}

impl View for EventRenderer {
    type V = RendererView;

    closed spec fn view(&self) -> RendererView {
        RendererView {
            labels: views(self.labels@),
            tools: Map::new(
                |k: Seq<char>| self.tool_names@.contains_key(k),
                |k: Seq<char>| (self.tool_names@[k], self.tool_descriptions@[k]),
            ),
            slots: slots_map(self.slots@),
            error: match self.error { Some(e) => Some(e@), None => None },
            streamed: self.streamed@,
            thinking: self.thinking@,
            finished: self.finished,
        }
    }
}

impl EventRenderer {
    /// Every started call has both a name and a description.
    pub closed spec fn wf(&self) -> bool {
        self.tool_names@.dom() == self.tool_descriptions@.dom()
    }

    /// A renderer before any event.
    pub fn new() -> (r: Self)
        ensures
            r.wf(),
            r@ == (RendererView {
                labels: Seq::empty(),
                tools: Map::empty(),
                slots: Map::empty(),
                error: None,
                streamed: Seq::empty(),
                thinking: Seq::empty(),
                finished: false,
            }),
    {
        let r = EventRenderer {
            streamed: String::new(),
            thinking: String::new(),
            labels: Vec::new(),
            tool_names: StrMap::new(),
            tool_descriptions: StrMap::new(),
            slots: Vec::new(),
            error: None,
            finished: false,
        };
        assert(views(r.labels@) =~= Seq::<Seq<char>>::empty());
        assert(r@.tools =~= Map::<Seq<char>, (Seq<char>, Seq<char>)>::empty());
        r
    }

    /// The step labels shown so far.
    pub fn labels(&self) -> (r: &[String])
        ensures
            views(r@) == self@.labels,
    {
        self.labels.as_slice()
    }

    /// The fatal error, if any.
    pub fn error_message(&self) -> (r: Option<&str>)
        ensures
            match r { Some(e) => self@.error == Some(e@), None => self@.error is None },
    {
        match &self.error {
            Some(e) => Some(e.as_str()),
            None => None,
        }
    }

    fn push_label(&mut self, label: String)
        ensures
            final(self)@ == (RendererView { labels: old(self)@.labels.push(label@), ..old(self)@ }),
            final(self).wf() == old(self).wf(),
    {
        proof { lemma_views_push(self.labels@, label); }
        self.labels.push(label);
        assert(self@.tools =~= old(self)@.tools);
    }

    /// Take one event: update the state and say what the frontend does.
    pub fn on_event(&mut self, event: FrontendEvent) -> (r: RenderAction)
        requires
            old(self).wf(),
        ensures
            final(self).wf(),
            final(self)@ == render_next(old(self)@, event),
            action_view(r) == render_action(old(self)@, event),
    {
        if self.finished {
            return RenderAction::Stop;
        }
        match event {
            FrontendEvent::RunStarted { task } => RenderAction::Start { text: start_text(task.as_str()) },
            FrontendEvent::RunFinished { text } => {
                let answer = build_final_text(text, &mut self.thinking);
                self.finished = true;
                assert(self@.tools =~= old(self)@.tools);
                RenderAction::Finish { answer }
            },
            FrontendEvent::LoopDelegated { to, reason, .. } => {
                let mut label = String::from_str("\u{1F500} delegated to *");
                push_str(&mut label, to.as_str());
                push_str(&mut label, "*: ");
                push_str(&mut label, reason.as_str());
                self.push_label(label);
                RenderAction::Redraw
            },
            FrontendEvent::ToolCallStarted { tool_name, tool_call_id, attempt, description } => {
                let think = String::from_str("think");
                if tool_name == think {
                    return RenderAction::Nothing;
                }
                let label = format_step_label(tool_name.as_str(), description.as_str(), attempt);
                let ghost before = self@;
                self.tool_names.insert(tool_call_id.clone(), tool_name);
                self.tool_descriptions.insert(tool_call_id.clone(), description);
                let idx = self.labels.len();
                self.slots.push((tool_call_id, idx));
                proof {
                    assert(self.slots@.drop_last() == old(self).slots@);
                }
                self.push_label(label);
                assert(self@.tools =~= before.tools.insert(tool_call_id@, (tool_name@, description@)));
                RenderAction::Redraw
            },
            FrontendEvent::ToolCallFinished { tool_name, tool_call_id, success, description, .. } => {
                let think = String::from_str("think");
                if tool_name == think {
                    return RenderAction::Nothing;
                }
                let (name, stored) = match self.tool_names.get(tool_call_id.as_str()) {
                    Some(n) => {
                        let d = match self.tool_descriptions.get(tool_call_id.as_str()) {
                            Some(d) => d.clone(),
                            None => String::new(),
                        };
                        (n.clone(), d)
                    },
                    None => (String::from_str("tool"), description.clone()),
                };
                proof { reveal_strlit("tool"); }
                if name == think {
                    return RenderAction::Nothing;
                }
                let shown = if stored.as_str().is_empty() { description } else { stored };
                let label = format_finish_label(name.as_str(), shown.as_str(), success);
                match slot_of(&self.slots, tool_call_id.as_str()) {
                    Some(idx) => {
                        if idx < self.labels.len() {
                            proof { lemma_views_push(self.labels@, label); }
                            self.labels.set(idx, label);
                            assert(views(self.labels@) =~= views(old(self).labels@).update(idx as int, finish_label_text(name@, shown@, success)));
                        }
                    },
                    None => {
                        self.push_label(label);
                    },
                }
                assert(self@.tools =~= old(self)@.tools);
                RenderAction::Redraw
            },
            FrontendEvent::LlmTokenDelta { delta, .. } => {
                push_str(&mut self.streamed, delta.as_str());
                assert(self@.tools =~= old(self)@.tools);
                RenderAction::Nothing
            },
            FrontendEvent::LlmThinkingDelta { delta, .. } => {
                push_str(&mut self.thinking, delta.as_str());
                assert(self@.tools =~= old(self)@.tools);
                RenderAction::Nothing
            },
            FrontendEvent::Error { message } => {
                self.error = Some(message);
                assert(self@.tools =~= old(self)@.tools);
                RenderAction::Redraw
            },
            FrontendEvent::MemoryCompressed { before_tokens, after_tokens } => {
                let mut label = String::from_str("\u{1F4BE} Memory: ");
                push_decimal(&mut label, before_tokens as u64);
                push_str(&mut label, " \u{2192} ");
                push_decimal(&mut label, after_tokens as u64);
                push_str(&mut label, " tokens");
                self.push_label(label);
                RenderAction::Redraw
            },
        }
    }
}

} // verus!

verus! {

proof fn lemma_chunks_nonempty(s: Seq<char>)
    ensures
        chunks(s).len() >= 1,
{
    if byte_len(s) <= max_chunk_bytes() {
    } else if 0 < chunk_split(s) <= s.len() {
        assert((seq![s.subrange(0, chunk_split(s))] + chunks(s.subrange(chunk_split(s), s.len() as int))).len() >= 1);
    }
}

fn first_chunk(text: &str) -> (r: String)
    ensures
        r@ == chunks(text@)[0],
{
    let mut cs = chunk_message(text);
    proof { lemma_chunks_nonempty(text@); }
    assert(cs@.map_values(|c: String| c@)[0] == cs@[0]@);
    cs.swap_remove(0)
}

impl EventRenderer {
    /// What an edit puts in the progress message: the first chunk of the
    /// draft, and whether it is HTML (when the labels are collapsed).
    pub fn redraw(&self) -> (r: (String, bool))
        ensures
            r.0@ == chunks(draft_text(self@.labels, self@.error))[0],
            r.1 == (self@.labels.len() > 5),
    {
        let err = self.error_message();
        let draft = build_process_draft_html(self.labels.as_slice(), err);
        (first_chunk(draft.as_str()), self.labels.len() > 5)
    }

    /// What the progress message becomes when the run finishes: the first
    /// chunk of the step history, as HTML.
    pub fn summary(&self) -> (r: String)
        ensures
            r@ == chunks(summary_text(self@.labels, self@.error))[0],
    {
        let err = self.error_message();
        let text = finalize_summary(self.labels.as_slice(), err);
        first_chunk(text.as_str())
    }
}

/// How the answer is sent.
#[derive(Debug)]
pub enum FinalDelivery {
    /// A long answer: one HTML message per chunk, each an expandable quote.
    Quoted { parts: Vec<String> },
    /// A short answer: one Markdown message.
    Rich { markdown: String },
}

/// Answers longer than this many bytes are sent as quoted chunks.
pub open spec fn quote_threshold() -> nat {
    300
}

/// How to send the answer: quoted chunks when it is longer than 300
/// bytes, else as it is.
pub fn final_delivery(answer: &str) -> (r: FinalDelivery)
    ensures
        byte_len(answer@) > quote_threshold() ==> (r matches FinalDelivery::Quoted { parts }
            && views(parts@) == chunks(answer@).map_values(|c: Seq<char>| quoted_chunk(c))),
        byte_len(answer@) <= quote_threshold() ==> (r matches FinalDelivery::Rich { markdown } && markdown@ == answer@),
{
    if str_byte_len(answer) > 300 {
        let cs = chunk_message(answer);
        assert(views(cs@) =~= cs@.map_values(|c: String| c@));
        FinalDelivery::Quoted { parts: quote_chunks(&cs) }
    } else {
        FinalDelivery::Rich { markdown: String::from_str(answer) }
    }
}

/// The messages sent when the rich answer cannot be: the answer as
/// Telegram HTML, in chunks.
pub fn fallback_chunks(answer: &str) -> (r: Vec<String>)
    ensures
        views(r@) == chunks(trim(render_events(markdown_events_of(sanitized(answer@))))),
{
    let html = format_final_message(answer);
    let cs = chunk_message(html.as_str());
    assert(views(cs@) =~= cs@.map_values(|c: String| c@));
    cs
}

} // verus!

verus! {

/// A call's finish replaces the label its start added: the run shows one
/// line per call, and that line is the finish label.
pub proof fn lemma_finish_replaces_start_label(s: RendererView, start: FrontendEvent, finish: FrontendEvent)
    requires
        !s.finished,
        start matches FrontendEvent::ToolCallStarted { tool_name, .. } && tool_name@ != "think"@,
        finish matches FrontendEvent::ToolCallFinished { tool_call_id, tool_name: finished_name, .. }
            && finished_name@ != "think"@
            && (start matches FrontendEvent::ToolCallStarted { tool_call_id: id, .. } && id@ == tool_call_id@),
    ensures
        ({
            let s2 = render_next(render_next(s, start), finish);
            let (name, started_description, id) = match start {
                FrontendEvent::ToolCallStarted { tool_name, description, tool_call_id, .. } => (tool_name@, description@, tool_call_id@),
                _ => (Seq::empty(), Seq::empty(), Seq::empty()),
            };
            let (success, finished_description) = match finish {
                FrontendEvent::ToolCallFinished { success, description, .. } => (success, description@),
                _ => (false, Seq::empty()),
            };
            let shown = if started_description.len() == 0 { finished_description } else { started_description };
            &&& s2.labels.len() == s.labels.len() + 1
            &&& s2.labels.subrange(0, s.labels.len() as int) == s.labels
            &&& s2.labels[s.labels.len() as int] == finish_label_text(name, shown, success)
            &&& render_action(render_next(s, start), finish) == ActionView::Redraw
        }),
{
    let s1 = render_next(s, start);
    let s2 = render_next(s1, finish);
    assert(s2.labels.subrange(0, s.labels.len() as int) =~= s.labels);
}

/// Streamed text and reasoning never reach the progress message: they
/// leave the labels and the error, and so the draft, as they were.
pub proof fn lemma_streaming_is_not_drawn(s: RendererView, e: FrontendEvent)
    requires
        e is LlmTokenDelta || e is LlmThinkingDelta,
    ensures
        render_next(s, e).labels == s.labels,
        render_next(s, e).error == s.error,
        draft_text(render_next(s, e).labels, render_next(s, e).error) == draft_text(s.labels, s.error),
        !s.finished ==> render_action(s, e) == ActionView::Nothing,
{
}

/// Once the run has finished, events change nothing and stop the reader.
pub proof fn lemma_finished_renderer_stops(s: RendererView, e: FrontendEvent)
    requires
        s.finished,
    ensures
        render_next(s, e) == s,
        render_action(s, e) == ActionView::Stop,
{
}

/// The answer carries the reasoning streamed before it, and the reasoning
/// is used up.
pub proof fn lemma_answer_carries_reasoning(s: RendererView, e: FrontendEvent)
    requires
        !s.finished,
        s.thinking.len() > 0,
        e matches FrontendEvent::RunFinished { text } && text is Some,
    ensures
        render_next(s, e).thinking.len() == 0,
        render_next(s, e).finished,
        ({
            let t = match e { FrontendEvent::RunFinished { text: Some(t) } => t@, _ => Seq::empty() };
            render_action(s, e) == ActionView::Finish(Some("\u{1F4AD} *Thinking*\n"@ + s.thinking + "\n\n"@ + t))
        }),
{
}

} // verus!
