//! Dispatcher errors and the reply to a call of an unknown tool.
use vstd::prelude::*;
use vstd::string::StringExecFns;
use crate::text::{concat2, join, join_strings, lemma_views_push, push_str, views};
use crate::tools::error::ToolError;

verus! {

/// Errors from registering or looking up tools.
#[derive(Clone, Debug, PartialEq)]
pub enum ToolDispatcherError {
    DuplicateName(String),
    NotFound(String),
}

/// The message of a dispatcher error.
pub open spec fn dispatcher_error_message(e: ToolDispatcherError) -> Seq<char> {
    match e {
        ToolDispatcherError::DuplicateName(n) => "duplicate tool name: "@ + n@,
        ToolDispatcherError::NotFound(n) => "tool not found: "@ + n@,
    }
}

impl ToolDispatcherError {
    /// The error's message.
    pub fn to_string(&self) -> (r: String)
        ensures
            r@ == dispatcher_error_message(*self),
    {
        match self {
            ToolDispatcherError::DuplicateName(n) => concat2("duplicate tool name: ", n.as_str()),
            ToolDispatcherError::NotFound(n) => concat2("tool not found: ", n.as_str()),
        }
    }
}

/// The reply to a call of a tool that is not registered: it names the tool
/// and lists the registered ones, or says that there are none.
pub open spec fn unknown_tool_text(tool: Seq<char>, available: Seq<Seq<char>>) -> Seq<char> {
    let listed = join(available, ", "@);
    if listed.len() == 0 {
        "Unknown tool '"@ + tool + "'. No tools registered."@
    } else {
        "Unknown tool '"@ + tool + "'. Available: "@ + listed
    }
}

/// The reply to a call of an unknown tool, given the registered names.
pub fn unknown_tool_message(tool: &str, available: &[String]) -> (r: String)
    ensures
        r@ == unknown_tool_text(tool@, views(available@)),
{
    let listed = join_strings(available, ", ");
    let mut r = String::new();
    push_str(&mut r, "Unknown tool '");
    push_str(&mut r, tool);
    if listed.as_str().is_empty() {
        push_str(&mut r, "'. No tools registered.");
    } else {
        push_str(&mut r, "'. Available: ");
        push_str(&mut r, listed.as_str());
    }
    r
}

} // verus!

verus! {

/// The schema of a tool as the model sees it: its name, description and
/// the JSON schema of its arguments.
#[derive(Clone, Debug, PartialEq, Eq)]
pub struct ToolSchema {
    pub name: String,
    pub description: String,
    pub parameters: String,
}

/// The registered tools, by name: each with its description and the JSON
/// schema of its arguments. Running a tool is the frontend's work; the
/// dispatcher decides which tool a call reaches.
#[derive(Debug)]
pub struct ToolDispatcher {
    descriptions: crate::strmap::StrMap,
    parameters: crate::strmap::StrMap,
    confirmation: bool,
}

impl ToolDispatcher {
    /// The registered tools: name to (description, schema).
    pub closed spec fn tools(self) -> Map<Seq<char>, (Seq<char>, Seq<char>)> {
        Map::new(|k: Seq<char>| self.descriptions@.contains_key(k), |k: Seq<char>| (self.descriptions@[k], self.parameters@[k]))
    }

    /// Whether calls go through the confirmation middleware.
    pub closed spec fn confirms(self) -> bool {
        self.confirmation
    }

    /// Every tool has both a description and a schema.
    pub closed spec fn wf(self) -> bool {
        self.descriptions@.dom() == self.parameters@.dom()
    }

    /// No tools, no confirmation.
    pub fn new() -> (r: Self)
        ensures
            r.wf(),
            r.tools() == Map::<Seq<char>, (Seq<char>, Seq<char>)>::empty(),
            !r.confirms(),
    {
        let r = ToolDispatcher { descriptions: crate::strmap::StrMap::new(), parameters: crate::strmap::StrMap::new(), confirmation: false };
        assert(r.tools() =~= Map::<Seq<char>, (Seq<char>, Seq<char>)>::empty());
        r
    }

    /// Register a tool; a second tool with the same name is refused.
    pub fn register(&mut self, schema: ToolSchema) -> (r: Result<(), ToolDispatcherError>)
        requires
            old(self).wf(),
        ensures
            final(self).wf(),
            final(self).confirms() == old(self).confirms(),
            old(self).tools().contains_key(schema.name@) ==> (r matches Err(ToolDispatcherError::DuplicateName(n))
                && n@ == schema.name@ && final(self).tools() == old(self).tools()),
            !old(self).tools().contains_key(schema.name@) ==> (r is Ok
                && final(self).tools() == old(self).tools().insert(schema.name@, (schema.description@, schema.parameters@))),
    {
        if self.descriptions.contains_key(schema.name.as_str()) {
            return Err(ToolDispatcherError::DuplicateName(schema.name));
        }
        let ghost before = self.tools();
        self.descriptions.insert(schema.name.clone(), schema.description);
        self.parameters.insert(schema.name, schema.parameters);
        assert(self.tools() =~= before.insert(schema.name@, (schema.description@, schema.parameters@)));
        Ok(())
    }

    /// Route calls through the confirmation middleware.
    pub fn set_confirmation(&mut self)
        ensures
            final(self).confirms(),
            final(self).tools() == old(self).tools(),
            final(self).wf() == old(self).wf(),
    {
        self.confirmation = true;
    }

    /// Stop asking for confirmation.
    pub fn clear_confirmation(&mut self)
        ensures
            !final(self).confirms(),
            final(self).tools() == old(self).tools(),
            final(self).wf() == old(self).wf(),
    {
        self.confirmation = false;
    }

    /// Whether calls go through the confirmation middleware.
    pub fn confirmation_enabled(&self) -> (r: bool)
        ensures
            r == self.confirms(),
    {
        self.confirmation
    }

    /// The schema of the named tool, if it is registered.
    pub fn get(&self, name: &str) -> (r: Option<ToolSchema>)
        requires
            self.wf(),
        ensures
            match r {
                Some(s) => self.tools().contains_key(name@) && s.name@ == name@
                    && (s.description@, s.parameters@) == self.tools()[name@],
                None => !self.tools().contains_key(name@),
            },
    {
        match self.descriptions.get(name) {
            Some(d) => {
                let p = match self.parameters.get(name) {
                    Some(p) => p.clone(),
                    None => String::new(),
                };
                Some(ToolSchema { name: String::from_str(name), description: d.clone(), parameters: p })
            },
            None => None,
        }
    }

    /// The schema of the named tool, or `NotFound` with the name.
    pub fn tool_schema(&self, name: &str) -> (r: Result<ToolSchema, ToolDispatcherError>)
        requires
            self.wf(),
        ensures
            match r {
                Ok(s) => self.tools().contains_key(name@) && s.name@ == name@
                    && (s.description@, s.parameters@) == self.tools()[name@],
                Err(e) => !self.tools().contains_key(name@) && (e matches ToolDispatcherError::NotFound(n) && n@ == name@),
            },
    {
        match self.get(name) {
            Some(s) => Ok(s),
            None => Err(ToolDispatcherError::NotFound(String::from_str(name))),
        }
    }

    /// The registered names, each once.
    pub fn names(&self) -> (r: Vec<String>)
        ensures
            forall|k: Seq<char>| self.tools().contains_key(k) <==> views(r@).contains(k),
            views(r@).no_duplicates(),
    {
        let ps = self.descriptions.pairs();
        let mut out: Vec<String> = Vec::new();
        let mut i: usize = 0;
        proof { crate::strmap::lemma_entries_map(ps@); }
        while i < ps.len()
            invariant
                i <= ps@.len(),
                crate::strmap::names_distinct(ps@),
                views(out@) == ps@.subrange(0, i as int).map_values(|e: (String, String)| e.0@),
            decreases ps@.len() - i,
        {
            let n = ps[i].0.clone();
            proof { lemma_views_push(out@, n); }
            out.push(n);
            assert(views(out@) =~= ps@.subrange(0, i + 1).map_values(|e: (String, String)| e.0@));
            i = i + 1;
        }
        assert(ps@.subrange(0, ps@.len() as int) =~= ps@);
        proof {
            let ks = ps@.map_values(|e: (String, String)| e.0@);
            assert forall|a: int, b: int| 0 <= a < b < ks.len() implies ks[a] != ks[b] by {
                assert(ps@[a].0@ != ps@[b].0@);
            }
            assert forall|k: Seq<char>| self.tools().contains_key(k) <==> ks.contains(k) by {
                if ks.contains(k) {
                    let j = choose|j: int| 0 <= j < ks.len() && ks[j] == k;
                    assert(ps@[j].0@ == k);
                }
                if self.tools().contains_key(k) {
                    let j = choose|j: int| 0 <= j < ps@.len() && ps@[j].0@ == k;
                    assert(ks[j] == k);
                }
            }
        }
        out
    }

    /// The schema a call reaches, or the reply to a call of an unknown tool
    /// (naming the registered tools).
    pub fn dispatch_target(&self, tool: &str) -> (r: Result<ToolSchema, ToolError>)
        requires
            self.wf(),
        ensures
            self.tools().contains_key(tool@) ==> (r matches Ok(s) && s.name@ == tool@
                && (s.description@, s.parameters@) == self.tools()[tool@]),
            !self.tools().contains_key(tool@) ==> (r matches Err(ToolError::InvalidArgs(m))
                && exists|names: Seq<Seq<char>>| m@ == #[trigger] unknown_tool_text(tool@, names)
                    && (forall|k: Seq<char>| self.tools().contains_key(k) <==> names.contains(k))),
    {
        match self.get(tool) {
            Some(s) => Ok(s),
            None => {
                let names = self.names();
                let m = unknown_tool_message(tool, names.as_slice());
                assert(m@ == unknown_tool_text(tool@, views(names@)));
                Err(ToolError::InvalidArgs(m))
            },
        }
    }
}

} // verus!
