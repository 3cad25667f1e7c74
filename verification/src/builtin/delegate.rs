//! The `delegate` tool: a placeholder that shows the model which
//! specialized loops it may hand control to. The agent loop intercepts the
//! call; the tool itself refuses to run.
use vstd::prelude::*;
use vstd::string::StringExecFns;
use crate::text::{join, join_strings, push_str, views};
use crate::tools::error::ToolError;
use crate::tools::tool::Tool;

verus! {

/// Arguments for the `delegate` tool call.
#[derive(Clone, Debug)]
pub struct DelegateArgs {
    /// Which loop to hand control to (the `loop` argument).
    pub loop_name: String,
    /// Why this loop was chosen (for logs and observability).
    pub reason: String,
}

/// The loops the model may delegate to: the enabled ones without
/// `simple_react`, the entry point.
pub open spec fn delegate_targets(ids: Seq<Seq<char>>) -> Seq<Seq<char>>
    decreases ids.len(),
{
    if ids.len() == 0 {
        Seq::empty()
    } else {
        let prev = delegate_targets(ids.drop_last());
        if ids.last() == "simple_react"@ { prev } else { prev.push(ids.last()) }
    }
}

/// The description shown when no loop can be delegated to.
pub const NO_LOOPS_DESCRIPTION: &'static str = "No specialized loops available. Use your standard tools \
    (think, shell, read, edit, write, search).";

/// The tool's description for the given delegation targets.
pub open spec fn delegate_description(targets: Seq<Seq<char>>) -> Seq<char> {
    if targets.len() == 0 {
        NO_LOOPS_DESCRIPTION@
    } else {
        let list = join(targets, ", "@);
        "Hand control to a specialized loop for complex tasks. Available: "@ + list
            + ". Use when your current approach isn't optimal. The `loop` argument must be one of: "@
            + list + "."@
    }
}

/// The message of a direct call of the tool.
pub const DELEGATE_DIRECT_CALL: &'static str = "delegate is handled by the agent loop \u{2014} this tool cannot be called directly";

/// A tool placeholder that makes the `delegate` command visible to the model.
pub struct DelegateTool {
    enabled_ids: Vec<String>,
    cached_description: String,
}

impl DelegateTool {
    /// The loops listed.
    pub closed spec fn targets(self) -> Seq<Seq<char>> {
        views(self.enabled_ids@)
    }

    /// The description built at construction.
    pub closed spec fn description_text(self) -> Seq<char> {
        self.cached_description@
    }

    /// Create the tool with a description that lists the enabled loops
    /// (`simple_react` left out), or says that there are none.
    pub fn new(enabled_ids: Vec<String>) -> (r: Self)
        ensures
            r.targets() == delegate_targets(views(enabled_ids@)),
            r.description_text() == delegate_description(delegate_targets(views(enabled_ids@))),
    {
        let mut filtered: Vec<String> = Vec::new();
        let mut i: usize = 0;
        let entry = String::from_str("simple_react");
        while i < enabled_ids.len()
            invariant
                i <= enabled_ids@.len(),
                entry@ == "simple_react"@,
                views(filtered@) == delegate_targets(views(enabled_ids@).subrange(0, i as int)),
            decreases enabled_ids@.len() - i,
        {
            assert(views(enabled_ids@).subrange(0, i + 1).drop_last() =~= views(enabled_ids@).subrange(0, i as int));
            if enabled_ids[i] != entry {
                let id = enabled_ids[i].clone();
                assert(views(filtered@.push(id)) =~= views(filtered@).push(id@));
                filtered.push(id);
            }
            i = i + 1;
        }
        assert(views(enabled_ids@).subrange(0, enabled_ids@.len() as int) =~= views(enabled_ids@));
        let description = if filtered.len() == 0 {
            String::from_str(NO_LOOPS_DESCRIPTION)
        } else {
            let list = join_strings(&filtered, ", ");
            let mut d = String::from_str("Hand control to a specialized loop for complex tasks. Available: ");
            push_str(&mut d, list.as_str());
            push_str(&mut d, ". Use when your current approach isn't optimal. The `loop` argument must be one of: ");
            push_str(&mut d, list.as_str());
            push_str(&mut d, ".");
            d
        };
        DelegateTool { enabled_ids: filtered, cached_description: description }
    }

    /// Return the list of enabled loop ids (for diagnostics).
    pub fn enabled_ids(&self) -> (r: &[String])
        ensures
            views(r@) == self.targets(),
    {
        self.enabled_ids.as_slice()
    }

    /// A direct call of the tool is refused: delegation is the loop's work.
    pub fn execute(&self, args: &DelegateArgs) -> (r: Result<String, ToolError>)
        ensures
            r matches Err(ToolError::InvalidArgs(m)) && m@ == DELEGATE_DIRECT_CALL@,
    {
        Err(ToolError::InvalidArgs(String::from_str(DELEGATE_DIRECT_CALL)))
    }
}

impl Tool for DelegateTool {
    fn name(&self) -> (r: &str)
        ensures
            r@ == "delegate"@,
    {
        "delegate"
    }

    fn description(&self) -> (r: &str)
        ensures
            r@ == self.description_text(),
    {
        self.cached_description.as_str()
    }

    fn retryable(&self) -> (r: bool)
        ensures
            !r,
    {
        false
    }
}

} // verus!
verus! {

/// The loops the tool lists are the enabled ones without `simple_react`,
/// in order. With none, the description says that no loop is available;
/// otherwise it holds "Available: " and the list, comma-separated.
pub proof fn lemma_delegate_lists_enabled_loops(ids: Seq<Seq<char>>)
    ensures
        delegate_targets(ids) == ids.filter(|x: Seq<char>| x != "simple_react"@),
        delegate_targets(ids).len() == 0 ==> delegate_description(delegate_targets(ids)) == NO_LOOPS_DESCRIPTION@,
        delegate_targets(ids).len() > 0 ==> exists|a: Seq<char>, b: Seq<char>|
            delegate_description(delegate_targets(ids)) == a + ("Available: "@ + join(delegate_targets(ids), ", "@)) + b,
    decreases ids.len(),
{
    reveal(Seq::filter);
    if ids.len() > 0 {
        lemma_delegate_lists_enabled_loops(ids.drop_last());
    }
    let t = delegate_targets(ids);
    if t.len() > 0 {
        let list = join(t, ", "@);
        reveal_strlit("Hand control to a specialized loop for complex tasks. Available: ");
        reveal_strlit("Hand control to a specialized loop for complex tasks. ");
        reveal_strlit("Available: ");
        let a = "Hand control to a specialized loop for complex tasks. "@;
        let b = ". Use when your current approach isn't optimal. The `loop` argument must be one of: "@ + list + "."@;
        assert("Hand control to a specialized loop for complex tasks. Available: "@ =~= a + "Available: "@);
        assert(delegate_description(t) =~= a + ("Available: "@ + list) + b);
    }
}

} // verus!
