//! The `list-skills` tool: it lists the installed skills with their
//! descriptions and whether their prerequisites are met.
use vstd::prelude::*;
use vstd::string::StringExecFns;
use crate::builtin::skill_install::{channel_id_unsafe, is_unsafe_channel_id};
use crate::runtime::skills::{
    discover_skills, gate_possible, gate_skill, merged_skills, SkillGate, SkillIndex, SkillSource,
};
use crate::sandbox::workspace::{join_path, path_join};
use crate::strmap::StrMap;
use crate::text::{concat2, decimal, join, join_strings, lemma_views_push, push_decimal, push_str, views};
use crate::tools::error::ToolError;
use crate::tools::tool::Tool;

verus! {

/// Arguments for the list-skills tool.
#[derive(Debug, Clone)]
pub struct ListSkillsArgs {
    /// Brief human-readable description of what this step does.
    pub label: String,
    /// Optional chat id: its channel skills are listed too, shadowing
    /// global ones of the same name.
    pub channel_id: Option<String>,
}

/// The list-skills tool.
#[derive(Clone, Debug)]
pub struct ListSkillsTool {
    global_skills_dir: String,
    channel_skills_base: String,
}

/// The status mark of a skill: available, or what it misses.
pub open spec fn skill_status(g: SkillGate) -> Seq<char> {
    if g.available {
        "\u{2705}"@
    } else {
        let bins = if g.missing_bins@.len() > 0 {
            seq!["missing: "@ + join(views(g.missing_bins@), ", "@)]
        } else {
            Seq::empty()
        };
        let env = if g.missing_env@.len() > 0 {
            seq!["missing env: "@ + join(views(g.missing_env@), ", "@)]
        } else {
            Seq::empty()
        };
        "\u{26A0}\u{FE0F} ("@ + join(bins + env, "; "@) + ")"@
    }
}

/// The listing line of a skill.
pub open spec fn skill_list_line(idx: SkillIndex, g: SkillGate) -> Seq<char> {
    let label = if idx.source == SkillSource::Channel { " [channel]"@ } else { Seq::empty() };
    let desc = match idx.description {
        Some(d) => d@,
        None => "(no description)"@,
    };
    "- "@ + skill_status(g) + " **"@ + idx.name@ + "**"@ + label + " \u{2014} "@ + desc
}

/// Number of skills from the workspace scope.
pub open spec fn global_count(idxs: Seq<SkillIndex>) -> nat
    decreases idxs.len(),
{
    if idxs.len() == 0 {
        0
    } else {
        global_count(idxs.drop_last()) + if idxs.last().source == SkillSource::Workspace { 1nat } else { 0nat }
    }
}

proof fn lemma_global_count_bound(idxs: Seq<SkillIndex>)
    ensures
        global_count(idxs) <= idxs.len(),
    decreases idxs.len(),
{
    if idxs.len() > 0 {
        lemma_global_count_bound(idxs.drop_last());
    }
}

/// The heading of the listing, counting skills by scope.
pub open spec fn skill_list_header(global: nat, channel: nat) -> Seq<char> {
    if global > 0 && channel > 0 {
        "## Installed Skills ("@ + decimal(global) + " global, "@ + decimal(channel) + " channel-specific)\n"@
    } else if global > 0 {
        "## Installed Skills ("@ + decimal(global) + " global)\n"@
    } else {
        "## Installed Skills ("@ + decimal(channel) + " channel-specific)\n"@
    }
}

/// The hint closing the listing.
pub const SKILL_LIST_HINT: &'static str = "Use `read skills/<name>/SKILL.md` to load full instructions for any skill.";

/// The listing of installed skills, given each one's gate.
pub open spec fn skill_list_text(idxs: Seq<SkillIndex>, gates: Seq<SkillGate>) -> Seq<char> {
    if idxs.len() == 0 {
        "(no skills installed)"@
    } else {
        let g = global_count(idxs);
        let lines = Seq::new(idxs.len(), |i: int| skill_list_line(idxs[i], gates[i]));
        join(seq![skill_list_header(g, (idxs.len() - g) as nat)] + lines + seq![""@, SKILL_LIST_HINT@], "\n"@)
    }
}

fn status_exec(g: &SkillGate) -> (r: String)
    ensures
        r@ == skill_status(*g),
{
    if g.available {
        return String::from_str("\u{2705}");
    }
    let mut parts: Vec<String> = Vec::new();
    if g.missing_bins.len() > 0 {
        parts.push(concat2("missing: ", join_strings(&g.missing_bins, ", ").as_str()));
    }
    if g.missing_env.len() > 0 {
        parts.push(concat2("missing env: ", join_strings(&g.missing_env, ", ").as_str()));
    }
    let ghost bins: Seq<Seq<char>> = if g.missing_bins@.len() > 0 {
        seq!["missing: "@ + join(views(g.missing_bins@), ", "@)]
    } else {
        Seq::empty()
    };
    assert(views(parts@) =~= bins + (if g.missing_env@.len() > 0 {
        seq!["missing env: "@ + join(views(g.missing_env@), ", "@)]
    } else {
        Seq::empty()
    }));
    let mut r = String::from_str("\u{26A0}\u{FE0F} (");
    push_str(&mut r, join_strings(&parts, "; ").as_str());
    push_str(&mut r, ")");
    r
}

/// Format the listing of installed skills, given each one's gate.
pub fn format_skill_list(indexes: &[SkillIndex], gates: &[SkillGate]) -> (r: String)
    requires
        gates@.len() == indexes@.len(),
    ensures
        r@ == skill_list_text(indexes@, gates@),
{
    if indexes.len() == 0 {
        return String::from_str("(no skills installed)");
    }
    let ghost all_lines = Seq::new(indexes@.len(), |i: int| skill_list_line(indexes@[i], gates@[i]));
    let mut lines: Vec<String> = Vec::new();
    let mut global: usize = 0;
    let mut i: usize = 0;
    while i < indexes.len()
        invariant
            i <= indexes@.len(),
            gates@.len() == indexes@.len(),
            global == global_count(indexes@.subrange(0, i as int)),
            views(lines@) == all_lines.subrange(0, i as int),
            all_lines == Seq::new(indexes@.len(), |i: int| skill_list_line(indexes@[i], gates@[i])),
        decreases indexes@.len() - i,
    {
        proof {
            lemma_global_count_bound(indexes@.subrange(0, i as int));
            assert(indexes@.subrange(0, i + 1).drop_last() =~= indexes@.subrange(0, i as int));
        }
        let idx = &indexes[i];
        if idx.source == SkillSource::Workspace {
            global = global + 1;
        }
        let mut line = String::from_str("- ");
        push_str(&mut line, status_exec(&gates[i]).as_str());
        push_str(&mut line, " **");
        push_str(&mut line, idx.name.as_str());
        push_str(&mut line, "**");
        if idx.source == SkillSource::Channel {
            push_str(&mut line, " [channel]");
        }
        push_str(&mut line, " \u{2014} ");
        match &idx.description {
            Some(d) => push_str(&mut line, d.as_str()),
            None => push_str(&mut line, "(no description)"),
        }
        assert(line@ =~= skill_list_line(indexes@[i as int], gates@[i as int]));
        proof { lemma_views_push(lines@, line); }
        lines.push(line);
        assert(views(lines@) =~= all_lines.subrange(0, i + 1));
        i = i + 1;
    }
    assert(indexes@.subrange(0, indexes@.len() as int) =~= indexes@);
    assert(all_lines.subrange(0, indexes@.len() as int) =~= all_lines);
    proof { lemma_global_count_bound(indexes@); }
    let channel = indexes.len() - global;
    let mut header = String::from_str("## Installed Skills (");
    if global > 0 && channel > 0 {
        push_decimal(&mut header, global as u64);
        push_str(&mut header, " global, ");
        push_decimal(&mut header, channel as u64);
        push_str(&mut header, " channel-specific)\n");
    } else if global > 0 {
        push_decimal(&mut header, global as u64);
        push_str(&mut header, " global)\n");
    } else {
        push_decimal(&mut header, channel as u64);
        push_str(&mut header, " channel-specific)\n");
    }
    assert(header@ == skill_list_header(global as nat, channel as nat));
    let ghost hv = header@;
    let mut out: Vec<String> = Vec::new();
    out.push(header);
    let mut k: usize = 0;
    while k < lines.len()
        invariant
            k <= lines@.len(),
            out@.len() == k + 1,
            views(out@)[0] == hv,
            views(out@) == seq![hv] + views(lines@).subrange(0, k as int),
        decreases lines@.len() - k,
    {
        let l = lines[k].clone();
        let ghost before = views(out@);
        proof { lemma_views_push(out@, l); }
        out.push(l);
        assert(views(out@) =~= seq![hv] + views(lines@).subrange(0, k + 1));
        k = k + 1;
    }
    let ghost body = views(out@);
    assert(views(lines@).subrange(0, lines@.len() as int) =~= views(lines@));
    let blank = String::new();
    proof { lemma_views_push(out@, blank); reveal_strlit(""); }
    out.push(blank);
    let hint = String::from_str(SKILL_LIST_HINT);
    proof { lemma_views_push(out@, hint); }
    out.push(hint);
    assert(""@ == Seq::<char>::empty());
    assert(views(out@) =~= seq![skill_list_header(global as nat, channel as nat)] + all_lines + seq![""@, SKILL_LIST_HINT@]);
    join_strings(&out, "\n")
}

/// The skills listed: the global ones merged with the channel's.
pub open spec fn listed_skills(global: Seq<SkillIndex>, channel: Option<Vec<SkillIndex>>) -> Seq<SkillIndex> {
    merged_skills(global + match channel { Some(c) => c@, None => Seq::<SkillIndex>::empty() })
}

/// `gates` holds, for each skill, a gate that checking its prerequisites
/// against `env` can give.
pub open spec fn gates_for(idxs: Seq<SkillIndex>, gates: Seq<SkillGate>, env: Map<Seq<char>, Seq<char>>) -> bool {
    &&& gates.len() == idxs.len()
    &&& forall|i: int| 0 <= i < idxs.len() ==> gate_possible(idxs[i], #[trigger] gates[i], env)
}

impl ListSkillsTool {
    /// Where global skills live, and the parent of each chat's directory.
    pub fn new(global_skills_dir: String, channel_skills_base: String) -> (r: Self)
        ensures
            r.global_dir()@ == global_skills_dir@,
            r.channel_base()@ == channel_skills_base@,
    {
        ListSkillsTool { global_skills_dir, channel_skills_base }
    }

    /// The directory of global skills.
    pub closed spec fn global_dir(self) -> String {
        self.global_skills_dir
    }

    /// The parent of the chats' directories.
    pub closed spec fn channel_base(self) -> String {
        self.channel_skills_base
    }

    /// The directory of global skills.
    pub fn global_skills_dir(&self) -> (r: &String)
        ensures
            r@ == self.global_dir()@,
    {
        &self.global_skills_dir
    }

    /// The skills directory of the chat the arguments name, if any:
    /// `<base>/<chat id>/skills`. A chat id with a path separator or `..`
    /// is refused.
    pub fn channel_dir(&self, args: &ListSkillsArgs) -> (r: Result<Option<String>, ToolError>)
        ensures
            match args.channel_id {
                None => r == Ok::<Option<String>, ToolError>(None),
                Some(c) => if channel_id_unsafe(c@) {
                    r matches Err(ToolError::InvalidArgs(m)) && m@ == "channel_id must not contain path separators or '..'"@
                } else {
                    r matches Ok(Some(d)) && d@ == path_join(path_join(self.channel_base()@, c@), "skills"@)
                },
            },
    {
        match &args.channel_id {
            None => Ok(None),
            Some(c) => {
                if is_unsafe_channel_id(c.as_str()) {
                    return Err(ToolError::InvalidArgs(String::from_str("channel_id must not contain path separators or '..'")));
                }
                let d = join_path(self.channel_skills_base.as_str(), c.as_str());
                Ok(Some(join_path(d.as_str(), "skills")))
            },
        }
    }

    /// The listing, given the skills found in the global directory and, if
    /// a chat was named, in its directory: the two are merged (channel
    /// skills win) and each skill's prerequisites are checked against `env`.
    pub fn list(&self, global: Vec<SkillIndex>, channel: Option<Vec<SkillIndex>>, env: &StrMap) -> (r: String)
        ensures
            exists|gates: Seq<SkillGate>|
                #[trigger] gates_for(listed_skills(global@, channel), gates, env@)
                && r@ == skill_list_text(listed_skills(global@, channel), gates),
    {
        let ghost listed = listed_skills(global@, channel);
        let merged = discover_skills(global, channel);
        assert(merged@ == listed);
        let mut gates: Vec<SkillGate> = Vec::new();
        let mut i: usize = 0;
        while i < merged.len()
            invariant
                i <= merged@.len(),
                gates@.len() == i,
                forall|j: int| 0 <= j < i ==> gate_possible(merged@[j], #[trigger] gates@[j], env@),
            decreases merged@.len() - i,
        {
            let ghost before = gates@;
            let g = gate_skill(&merged[i], env);
            assert(gate_possible(merged@[i as int], g, env@));
            gates.push(g);
            assert forall|j: int| 0 <= j < i + 1 implies gate_possible(merged@[j], #[trigger] gates@[j], env@) by {
                if j < i {
                    assert(gates@[j] == before[j]);
                }
            }
            i = i + 1;
        }
        let r = format_skill_list(&merged, &gates);
        assert(gates_for(listed, gates@, env@));
        assert(r@ == skill_list_text(listed, gates@));
        r
    }
}

impl Tool for ListSkillsTool {
    fn name(&self) -> (r: &str)
        ensures
            r@ == "list-skills"@,
    {
        "list-skills"
    }

    fn description(&self) -> (r: &str)
        ensures
            r@ == "List installed skills with their descriptions and availability status"@,
    {
        "List installed skills with their descriptions and availability status"
    }

    fn retryable(&self) -> (r: bool)
        ensures
            r,
    {
        true
    }
}

} // verus!
