//! The `remove-skill` tool: it checks the name and scope and locates the
//! skill's directory inside the workspace; deleting it is the frontend's
//! work.
use vstd::prelude::*;
use vstd::string::StringExecFns;
use crate::builtin::skill_install::{
    channel_id_unsafe, is_unsafe_channel_id, skill_name_error, validate_skill_name,
};
use crate::sandbox::workspace::{resolve_spec, Workspace};
use crate::text::push_str;
use crate::tools::error::ToolError;
use crate::tools::tool::Tool;
use crate::tools::reply::ToolReply;
use crate::tools::schema::{entries_view, json_view, lemma_entries_view, Json, JsonView};

verus! {

/// Target scope for skill removal.
#[derive(Debug, Clone, Copy, PartialEq, Eq, Structural)]
pub enum SkillRemoveTarget {
    Global,
    Channel,
}

impl SkillRemoveTarget {
    /// The scope's name, as the tool's arguments spell it.
    pub open spec fn name_spec(self) -> Seq<char> {
        match self {
            SkillRemoveTarget::Global => "global"@,
            SkillRemoveTarget::Channel => "channel"@,
        }
    }

    /// The scope's name (`global` or `channel`).
    pub fn to_string(&self) -> (r: String)
        ensures
            r@ == self.name_spec(),
    {
        match self {
            SkillRemoveTarget::Global => String::from_str("global"),
            SkillRemoveTarget::Channel => String::from_str("channel"),
        }
    }
}

/// Arguments for the remove-skill tool.
#[derive(Debug, Clone)]
pub struct RemoveSkillArgs {
    /// Brief human-readable description of what this step does.
    pub label: String,
    /// Which scope to remove from.
    pub target: SkillRemoveTarget,
    /// Required when the target is a channel: the chat id.
    pub channel_id: Option<String>,
    /// Skill name to remove.
    pub name: String,
}

/// The remove-skill tool. Skills are removed through the workspace.
#[derive(Clone, Debug)]
pub struct RemoveSkillTool;

/// Where a removal looks: the skill's directory, resolved inside the
/// workspace, or why the arguments are refused.
pub open spec fn remove_target(args: RemoveSkillArgs) -> Result<Seq<char>, (bool, Seq<char>)> {
    let cid = match args.channel_id {
        Some(c) => c@,
        None => Seq::empty(),
    };
    let dir_rel = match args.target {
        SkillRemoveTarget::Global => "skills/"@ + args.name@,
        SkillRemoveTarget::Channel => cid + "/skills/"@ + args.name@,
    };
    if skill_name_error(args.name@) is Some {
        Err((false, skill_name_error(args.name@)->0))
    } else if args.target == SkillRemoveTarget::Channel && args.channel_id is None {
        Err((false, "channel_id is required when target is 'channel'"@))
    } else if args.target == SkillRemoveTarget::Channel && channel_id_unsafe(cid) {
        Err((false, "channel_id must not contain path separators or '..'"@))
    } else {
        match resolve_spec(dir_rel) {
            Ok(p) => Ok(p),
            Err(_) => Err((true, "path escapes workspace: "@ + dir_rel)),
        }
    }
}

/// The report of a removal: the skill was removed, or was not there.
pub open spec fn remove_report_text(args: RemoveSkillArgs, existed: bool) -> Seq<char> {
    if existed {
        "Removed skill '"@ + args.name@ + "' ("@ + args.target.name_spec() + ") \u{2014} directory skills/"@
            + args.name@ + " and all auxiliary files deleted."@
    } else {
        "Skill '"@ + args.name@ + "' ("@ + args.target.name_spec() + ") does not exist \u{2014} nothing to remove."@
    }
}

impl RemoveSkillTool {
    /// The directories are accepted for compatibility with the listing tool;
    /// skills are removed through the workspace, which owns the root.
    pub fn new(global_skills_dir: String, channel_skills_base: String) -> (r: Self) {
        RemoveSkillTool
    }

    /// Locate the directory of the skill to remove: the name must be valid,
    /// a channel scope needs a safe chat id, and the directory must resolve
    /// inside the workspace (else the call is denied).
    pub fn locate(&self, args: &RemoveSkillArgs, workspace: &Workspace) -> (r: Result<String, ToolError>)
        ensures
            match remove_target(*args) {
                Ok(p) => r matches Ok(x) && x@ == p,
                Err((false, m)) => r matches Err(ToolError::InvalidArgs(x)) && x@ == m,
                Err((true, m)) => r matches Err(ToolError::Denied(x)) && x@ == m,
            },
    {
        match validate_skill_name(args.name.as_str()) {
            Ok(_) => {},
            Err(e) => { return Err(e); },
        }
        if args.target == SkillRemoveTarget::Channel && args.channel_id.is_none() {
            return Err(ToolError::InvalidArgs(String::from_str("channel_id is required when target is 'channel'")));
        }
        let mut dir_rel = String::new();
        if args.target == SkillRemoveTarget::Channel {
            let cid = match &args.channel_id {
                Some(c) => c,
                None => { return Err(ToolError::Cancelled); },
            };
            if is_unsafe_channel_id(cid.as_str()) {
                return Err(ToolError::InvalidArgs(String::from_str("channel_id must not contain path separators or '..'")));
            }
            push_str(&mut dir_rel, cid.as_str());
            push_str(&mut dir_rel, "/skills/");
        } else {
            push_str(&mut dir_rel, "skills/");
        }
        push_str(&mut dir_rel, args.name.as_str());
        match workspace.resolve(dir_rel.as_str()) {
            Ok(p) => Ok(p),
            Err(_) => {
                let mut m = String::from_str("path escapes workspace: ");
                push_str(&mut m, dir_rel.as_str());
                Err(ToolError::Denied(m))
            },
        }
    }

    /// The report once the frontend has looked for the directory (and
    /// removed it when it existed).
    pub fn report(&self, args: &RemoveSkillArgs, existed: bool) -> (r: String)
        ensures
            r@ == remove_report_text(*args, existed),
    {
        let mut r = String::new();
        if existed {
            push_str(&mut r, "Removed skill '");
            push_str(&mut r, args.name.as_str());
            push_str(&mut r, "' (");
            push_str(&mut r, args.target.to_string().as_str());
            push_str(&mut r, ") \u{2014} directory skills/");
            push_str(&mut r, args.name.as_str());
            push_str(&mut r, " and all auxiliary files deleted.");
        } else {
            push_str(&mut r, "Skill '");
            push_str(&mut r, args.name.as_str());
            push_str(&mut r, "' (");
            push_str(&mut r, args.target.to_string().as_str());
            push_str(&mut r, ") does not exist \u{2014} nothing to remove.");
        }
        r
    }

    /// The reply once the frontend has looked for the directory: a
    /// success either way, whose metadata gives the name, the scope and
    /// whether a directory was removed.
    pub fn reply(&self, args: &RemoveSkillArgs, existed: bool) -> (r: ToolReply)
        ensures
            r.success,
            r.output@ == remove_report_text(*args, existed),
            json_view(r.metadata) == remove_metadata(*args, existed),
    {
        let output = self.report(args, existed);
        let mut es: Vec<(String, Json)> = Vec::new();
        es.push((String::from_str("name"), Json::Str(args.name.clone())));
        es.push((String::from_str("target"), Json::Str(args.target.to_string())));
        es.push((String::from_str("removed"), Json::Bool(existed)));
        proof {
            lemma_entries_view(es@);
            assert(entries_view(es@) =~= seq![
                ("name"@, JsonView::Str(args.name@)),
                ("target"@, JsonView::Str(args.target.name_spec())),
                ("removed"@, JsonView::Bool(existed)),
            ]);
        }
        ToolReply { success: true, output, metadata: Json::Object(es) }
    }
}

/// The metadata of a removal's reply.
pub open spec fn remove_metadata(args: RemoveSkillArgs, existed: bool) -> JsonView {
    JsonView::Object(seq![
        ("name"@, JsonView::Str(args.name@)),
        ("target"@, JsonView::Str(args.target.name_spec())),
        ("removed"@, JsonView::Bool(existed)),
    ])
}

impl Tool for RemoveSkillTool {
    fn name(&self) -> (r: &str)
        ensures
            r@ == "remove-skill"@,
    {
        "remove-skill"
    }

    fn description(&self) -> (r: &str)
        ensures
            r@ == "Remove an installed skill (deletes SKILL.md and all auxiliary files)"@,
    {
        "Remove an installed skill (deletes SKILL.md and all auxiliary files)"
    }

    fn retryable(&self) -> (r: bool)
        ensures
            r,
    {
        true
    }
}

} // verus!
