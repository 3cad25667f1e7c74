//! Tool confirmation: which tools need the user's approval, the request a
//! frontend is shown, and how its answer ends the call.
use vstd::prelude::*;
use vstd::string::StringExecFns;
use std::time::Duration;
use crate::text::{chars_of, clone_strings, eq_chars, push_str, views};
use crate::tools::error::ToolError;

verus! {

/// Frontend-neutral request for tool execution confirmation.
#[derive(Clone, Debug)]
pub struct ConfirmationRequest {
    /// Unique ID matching a specific tool call instance.
    pub confirmation_id: String,
    /// Tool name being invoked (e.g. "shell", "write").
    pub tool_name: String,
    /// Human-readable label describing the pending action.
    pub label: String,
    /// Optional raw arguments for display in the confirmation prompt.
    pub arguments: Option<String>,
}

/// Outcome of a confirmation request.
#[derive(Clone, Copy, Debug, PartialEq, Eq, Structural)]
pub enum ConfirmationDecision {
    /// Execution is allowed.
    Approved,
    /// Execution is denied.
    Denied,
    /// The confirmation timed out.
    Timeout,
}

/// Policy for which tools require confirmation. Names are kept normalized
/// (`bash` is recorded as `shell`) when the policy is built with `new`.
#[derive(Debug)]
pub struct ConfirmationPolicy {
    pub require_for: Vec<String>,
    pub timeout: Duration,
}

/// The legacy tool name `bash` stands for `shell`; other names stand for
/// themselves.
pub open spec fn normalized_name(name: Seq<char>) -> Seq<char> {
    if name == "bash"@ {
        "shell"@
    } else {
        name
    }
}

/// The span of `secs` whole seconds (`Duration::from_secs`).
pub uninterp spec fn duration_of_secs(secs: u64) -> Duration;

/// `Duration::from_secs`, which cannot panic; its result is named by the
/// number of seconds.
#[verifier::external_body]
fn duration_from_secs(secs: u64) -> (r: Duration)
    ensures
        r == duration_of_secs(secs),
{
    Duration::from_secs(secs)
}

fn normalize_tool_name(tool_name: &str) -> (r: String)
    ensures
        r@ == normalized_name(tool_name@),
{
    if eq_chars(&chars_of(tool_name), &chars_of("bash")) {
        String::from_str("shell")
    } else {
        String::from_str(tool_name)
    }
}

impl Clone for ConfirmationPolicy {
    fn clone(&self) -> (r: Self)
        ensures
            r.require_for@ == self.require_for@,
            r.timeout == self.timeout,
    {
        ConfirmationPolicy { require_for: clone_strings(&self.require_for), timeout: self.timeout }
    }
}

impl Default for ConfirmationPolicy {
    /// Confirmation for `shell`, `edit` and `write`, with a one-minute timeout.
    fn default() -> (r: Self)
        ensures
            views(r.require_for@) == seq!["shell"@, "edit"@, "write"@],
            r.timeout == duration_of_secs(60),
    {
        let mut require_for: Vec<String> = Vec::new();
        require_for.push(String::from_str("shell"));
        require_for.push(String::from_str("edit"));
        require_for.push(String::from_str("write"));
        assert(views(require_for@) =~= seq!["shell"@, "edit"@, "write"@]);
        ConfirmationPolicy { require_for, timeout: duration_from_secs(60) }
    }
}

impl ConfirmationPolicy {
    /// Whether a call of `tool` needs confirmation under this policy.
    pub open spec fn requires_spec(self, tool: Seq<char>) -> bool {
        views(self.require_for@).contains(normalized_name(tool))
    }

    /// Create a policy requiring confirmation for the given tool names,
    /// each normalized.
    pub fn new(require_for: Vec<String>, timeout: Duration) -> (r: Self)
        ensures
            views(r.require_for@) == views(require_for@).map_values(|n: Seq<char>| normalized_name(n)),
            r.timeout == timeout,
    {
        let mut names: Vec<String> = Vec::new();
        let mut i: usize = 0;
        while i < require_for.len()
            invariant
                i <= require_for@.len(),
                names@.len() == i,
                views(names@) == views(require_for@.subrange(0, i as int)).map_values(|n: Seq<char>| normalized_name(n)),
            decreases require_for@.len() - i,
        {
            let ghost before = names@;
            let n = normalize_tool_name(require_for[i].as_str());
            names.push(n);
            proof {
                let goal = views(require_for@.subrange(0, i + 1)).map_values(|n: Seq<char>| normalized_name(n));
                let prev = views(require_for@.subrange(0, i as int)).map_values(|n: Seq<char>| normalized_name(n));
                assert(names@ == before.push(n));
                assert forall|k: int| 0 <= k < i + 1 implies views(names@)[k] == goal[k] by {
                    if k < i {
                        assert(names@[k] == before[k]);
                        assert(views(before)[k] == prev[k]);
                    } else {
                        assert(names@[k] == n);
                    }
                }
                assert(views(names@) =~= goal);
            }
            i = i + 1;
        }
        assert(require_for@.subrange(0, require_for@.len() as int) =~= require_for@);
        ConfirmationPolicy { require_for: names, timeout }
    }

    /// Check whether a tool call requires confirmation.
    pub fn requires_confirmation(&self, tool_name: &str) -> (b: bool)
        ensures
            b == self.requires_spec(tool_name@),
    {
        let wanted = chars_of(normalize_tool_name(tool_name).as_str());
        let mut i: usize = 0;
        while i < self.require_for.len()
            invariant
                i <= self.require_for@.len(),
                wanted@ == normalized_name(tool_name@),
                forall|j: int| 0 <= j < i ==> self.require_for@[j]@ != wanted@,
            decreases self.require_for@.len() - i,
        {
            if eq_chars(&chars_of(self.require_for[i].as_str()), &wanted) {
                assert(views(self.require_for@)[i as int] == wanted@);
                return true;
            }
            i = i + 1;
        }
        assert(!views(self.require_for@).contains(wanted@)) by {
            if views(self.require_for@).contains(wanted@) {
                let j = choose|j: int| 0 <= j < views(self.require_for@).len() && views(self.require_for@)[j] == wanted@;
                assert(self.require_for@[j]@ == wanted@);
            }
        }
        false
    }
}

/// Decision from the confirmation middleware after policy evaluation.
#[derive(Clone, Debug)]
pub enum MiddlewareDecision {
    /// Tool call is allowed to proceed immediately.
    Allow,
    /// Tool call requires confirmation via the frontend provider.
    Confirm(ConfirmationRequest),
}

/// Evaluate whether a tool call needs confirmation and produce a middleware
/// decision: a request carrying the given id, label and arguments when the
/// policy names the tool, `Allow` otherwise.
pub fn evaluate_confirmation(
    tool_name: &str,
    policy: &ConfirmationPolicy,
    confirmation_id: String,
    label: String,
    arguments: Option<String>,
) -> (d: MiddlewareDecision)
    ensures
        policy.requires_spec(tool_name@) ==> (d matches MiddlewareDecision::Confirm(req)
            && req.confirmation_id == confirmation_id && req.tool_name@ == tool_name@
            && req.label == label && req.arguments == arguments),
        !policy.requires_spec(tool_name@) ==> d is Allow,
{
    if policy.requires_confirmation(tool_name) {
        MiddlewareDecision::Confirm(ConfirmationRequest {
            confirmation_id,
            tool_name: String::from_str(tool_name),
            label,
            arguments,
        })
    } else {
        MiddlewareDecision::Allow
    }
}

/// A frontend that asks the user to approve a pending tool call (CLI
/// prompt, chat buttons, ...). Implementations should respect the timeout.
pub trait ConfirmationProvider {
    /// Whether `decision` is an answer this provider may give to `request`
    /// within `timeout`. A provider that says nothing of its answers (the
    /// user decides) allows every one.
    open spec fn may_answer(&self, request: ConfirmationRequest, timeout: Duration, decision: ConfirmationDecision) -> bool {
        true
    }

    /// Prompt the user to approve or deny a pending tool call.
    fn confirm(&self, request: &ConfirmationRequest, timeout: Duration) -> (d: ConfirmationDecision)
        ensures
            self.may_answer(*request, timeout, d);
}

/// The label shown for a pending call of `tool` with the tool's description.
pub open spec fn confirmation_label(tool: Seq<char>, description: Seq<char>) -> Seq<char> {
    "Tool `"@ + tool + "` requested: "@ + description
}

/// The message when a call of `tool` was denied.
pub open spec fn denied_text(tool: Seq<char>) -> Seq<char> {
    "tool '"@ + tool + "' denied by confirmation"@
}

/// The message when the confirmation of a call of `tool` timed out.
pub open spec fn timed_out_text(tool: Seq<char>) -> Seq<char> {
    "tool '"@ + tool + "' confirmation timed out"@
}

/// How the user's answer ends a call of `tool`: approval lets it run, a
/// denial or a timeout refuses it with its message.
pub fn confirmation_outcome(tool: &str, decision: ConfirmationDecision) -> (r: Result<(), ToolError>)
    ensures
        decision == ConfirmationDecision::Approved ==> r is Ok,
        decision == ConfirmationDecision::Denied ==> (r matches Err(ToolError::Denied(m)) && m@ == denied_text(tool@)),
        decision == ConfirmationDecision::Timeout ==> (r matches Err(ToolError::Denied(m)) && m@ == timed_out_text(tool@)),
{
    match decision {
        ConfirmationDecision::Approved => Ok(()),
        ConfirmationDecision::Denied => {
            let mut m = String::new();
            push_str(&mut m, "tool '");
            push_str(&mut m, tool);
            push_str(&mut m, "' denied by confirmation");
            Err(ToolError::Denied(m))
        },
        ConfirmationDecision::Timeout => {
            let mut m = String::new();
            push_str(&mut m, "tool '");
            push_str(&mut m, tool);
            push_str(&mut m, "' confirmation timed out");
            Err(ToolError::Denied(m))
        },
    }
}

/// Whether `r` is how `decision` ends a call of `tool` (see
/// `confirmation_outcome`).
pub open spec fn outcome_of(tool: Seq<char>, decision: ConfirmationDecision, r: Result<(), ToolError>) -> bool {
    match decision {
        ConfirmationDecision::Approved => r is Ok,
        ConfirmationDecision::Denied => r matches Err(ToolError::Denied(m)) && m@ == denied_text(tool),
        ConfirmationDecision::Timeout => r matches Err(ToolError::Denied(m)) && m@ == timed_out_text(tool),
    }
}

/// Whether `req` is the request put to the frontend for a call of `tool`
/// with the given call id, tool description and arguments.
pub open spec fn request_for(
    req: ConfirmationRequest,
    tool: Seq<char>,
    call_id: Seq<char>,
    description: Seq<char>,
    arguments: Option<String>,
) -> bool {
    &&& req.confirmation_id@ == call_id
    &&& req.tool_name@ == tool
    &&& req.label@ == confirmation_label(tool, description)
    &&& req.arguments == arguments
}

/// Gates tool calls behind a policy and a frontend's confirmation.
pub struct ConfirmationMiddleware<P: ConfirmationProvider> {
    policy: ConfirmationPolicy,
    provider: P,
}

impl<P: ConfirmationProvider> ConfirmationMiddleware<P> {
    /// The policy in force.
    pub closed spec fn policy_spec(self) -> ConfirmationPolicy {
        self.policy
    }

    /// The frontend asked for approvals.
    pub closed spec fn provider_spec(self) -> P {
        self.provider
    }

    pub fn new(policy: ConfirmationPolicy, provider: P) -> (r: Self)
        ensures
            r.policy_spec() == policy,
            r.provider_spec() == provider,
    {
        ConfirmationMiddleware { policy, provider }
    }

    /// Ask for confirmation of a call of `tool` (with the given call id,
    /// tool description and displayable arguments) when the policy names the
    /// tool. A call the policy does not name is allowed without asking; one
    /// it names ends as the frontend's answer says (`confirmation_outcome`).
    pub fn confirm_tool_call(
        &self,
        tool: &str,
        call_id: &str,
        description: &str,
        arguments: Option<String>,
    ) -> (r: Result<(), ToolError>)
        ensures
            !self.policy_spec().requires_spec(tool@) ==> r is Ok,
            self.policy_spec().requires_spec(tool@) ==> exists|req: ConfirmationRequest, d: ConfirmationDecision|
                #![trigger self.provider_spec().may_answer(req, self.policy_spec().timeout, d)]
                request_for(req, tool@, call_id@, description@, arguments)
                    && self.provider_spec().may_answer(req, self.policy_spec().timeout, d)
                    && outcome_of(tool@, d, r),
    {
        let mut label = String::new();
        push_str(&mut label, "Tool `");
        push_str(&mut label, tool);
        push_str(&mut label, "` requested: ");
        push_str(&mut label, description);
        match evaluate_confirmation(tool, &self.policy, String::from_str(call_id), label, arguments) {
            MiddlewareDecision::Allow => Ok(()),
            MiddlewareDecision::Confirm(request) => {
                let answer = self.provider.confirm(&request, self.policy.timeout);
                let r = confirmation_outcome(tool, answer);
                assert(request_for(request, tool@, call_id@, description@, arguments));
                assert(outcome_of(tool@, answer, r));
                assert(self.provider_spec().may_answer(request, self.policy_spec().timeout, answer));
                r
            },
        }
    }
}

} // verus!
