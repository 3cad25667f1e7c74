//! A tool reduced to what the dispatcher needs: its name, description,
//! cleaned argument schema and whether it may be retried.
use vstd::prelude::*;
use vstd::string::StringExecFns;
use crate::tools::dispatcher::{ToolDispatcher, ToolDispatcherError, ToolSchema};
use crate::tools::error::ToolError;
use crate::tools::schema::{
    json_text, json_type_name_of, json_view, not_object_message, sanitize_schema, sanitized_json,
    schema_failure_message, schema_validation, validate_tool_args, Json,
};
use crate::tools::tool::Tool;

verus! {

/// A tool with its cleaned argument schema.
#[derive(Debug)]
pub struct ErasedTool {
    pub name: String,
    pub description: String,
    pub args_schema: Json,
    pub retryable: bool,
}

impl ErasedTool {
    /// Erase a tool: its name, description and retry flag, and its
    /// argument schema cleaned (see `sanitized_json`).
    pub fn erase<T: Tool>(tool: T, args_schema: Json) -> (r: Self)
        ensures
            json_view(r.args_schema) == sanitized_json(args_schema),
    {
        let name = String::from_str(tool.name());
        let description = String::from_str(tool.description());
        let retryable = tool.retryable();
        let mut schema = args_schema;
        sanitize_schema(&mut schema);
        ErasedTool { name, description, args_schema: schema, retryable }
    }

    /// The schema the model sees: name, description, and the argument
    /// schema as compact JSON text.
    pub fn schema(&self) -> (r: ToolSchema)
        ensures
            r.name@ == self.name@,
            r.description@ == self.description@,
            r.parameters@ == json_text(json_view(self.args_schema)),
    {
        ToolSchema { name: self.name.clone(), description: self.description.clone(), parameters: self.args_schema.to_text() }
    }

    /// Checks arguments against the tool's schema; a rejection is
    /// `InvalidArgs` with the message of `validate_tool_args`.
    pub fn validate_args(&self, raw_args: &Json) -> (r: Result<(), ToolError>)
        ensures
            !(json_view(*raw_args) is Object) ==> (r matches Err(ToolError::InvalidArgs(m))
                && m@ == not_object_message(json_type_name_of(*raw_args))),
            json_view(*raw_args) is Object ==> match (r, schema_validation(json_view(self.args_schema), json_view(*raw_args))) {
                (Ok(()), Ok(())) => true,
                (Err(ToolError::InvalidArgs(m)), Err(errors)) => m@ == schema_failure_message(errors),
                _ => false,
            },
    {
        match validate_tool_args(&self.args_schema, raw_args) {
            Ok(()) => Ok(()),
            Err(m) => Err(ToolError::InvalidArgs(m)),
        }
    }
}

impl ToolDispatcher {
    /// Register an erased tool under its schema.
    pub fn register_erased(&mut self, tool: &ErasedTool) -> (r: Result<(), ToolDispatcherError>)
        requires
            old(self).wf(),
        ensures
            final(self).wf(),
            final(self).confirms() == old(self).confirms(),
            old(self).tools().contains_key(tool.name@) ==> (r matches Err(ToolDispatcherError::DuplicateName(n))
                && n@ == tool.name@ && final(self).tools() == old(self).tools()),
            !old(self).tools().contains_key(tool.name@) ==> (r is Ok && final(self).tools()
                == old(self).tools().insert(tool.name@, (tool.description@, json_text(json_view(tool.args_schema))))),
    {
        self.register(tool.schema())
    }
}

} // verus!
