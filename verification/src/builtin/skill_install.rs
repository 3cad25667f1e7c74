//! The `install-skill` tool: it checks a skill's name, description and
//! file paths, builds its `SKILL.md`, and plans the files to write inside
//! the workspace. Writing them is the frontend's work.
use vstd::prelude::*;
use vstd::string::StringExecFns;
use crate::sandbox::workspace::{resolve_spec, Workspace};
use crate::text::{
    byte_len, chars_of, contains, decimal, find_exec, lemma_find_result, push_char, push_decimal,
    push_str, replace_all, replace_all_exec, str_byte_len, string_of, trim, trim_vec,
};
use crate::tools::error::ToolError;
use crate::tools::tool::Tool;

verus! {

/// Target scope for skill installation.
#[derive(Debug, Clone, Copy, PartialEq, Eq, Structural)]
pub enum SkillTarget {
    Global,
    Channel,
}

impl SkillTarget {
    /// The scope's name, as the tool's arguments spell it.
    pub open spec fn name_spec(self) -> Seq<char> {
        match self {
            SkillTarget::Global => "global"@,
            SkillTarget::Channel => "channel"@,
        }
    }

    /// The scope's name (`global` or `channel`).
    pub fn to_string(&self) -> (r: String)
        ensures
            r@ == self.name_spec(),
    {
        match self {
            SkillTarget::Global => String::from_str("global"),
            SkillTarget::Channel => String::from_str("channel"),
        }
    }
}

/// An auxiliary file to create in the skill directory.
#[derive(Debug, Clone)]
pub struct SkillFile {
    /// Relative path within the skill directory.
    pub path: String,
    /// File content.
    pub content: String,
}

/// Arguments for the install-skill tool.
#[derive(Debug, Clone)]
pub struct InstallSkillArgs {
    /// Brief human-readable description of what this step does.
    pub label: String,
    /// Where to install: shared by all chats, or one chat's own.
    pub target: SkillTarget,
    /// Required when the target is a channel: the chat id.
    pub channel_id: Option<String>,
    /// Skill name: `[a-z0-9-]`, at most 64 bytes, no leading, trailing or
    /// double hyphens.
    pub name: String,
    /// Short description of what the skill does (required, at most 1024 bytes).
    pub description: String,
    /// Body of the `SKILL.md` file (Markdown after the frontmatter).
    pub body: String,
    /// Optional auxiliary files to create alongside `SKILL.md`.
    pub files: Option<Vec<SkillFile>>,
}

/// The install-skill tool. Skills are written through the workspace.
#[derive(Clone, Debug)]
pub struct InstallSkillTool;

impl InstallSkillTool {
    /// The directories are accepted for compatibility with the listing tool;
    /// skills are written through the workspace, which owns the root.
    pub fn new(global_skills_dir: String, channel_skills_base: String) -> (r: Self) {
        InstallSkillTool
    }
}

/// `c` may appear in a skill name.
pub open spec fn name_char_ok(c: char) -> bool {
    ('a' <= c && c <= 'z') || ('0' <= c && c <= '9') || c == '-'
}

/// Index of the first character that may not appear in a skill name.
pub open spec fn first_bad_char(name: Seq<char>) -> Option<int>
    decreases name.len(),
{
    if name.len() == 0 {
        None
    } else {
        match first_bad_char(name.drop_last()) {
            Some(i) => Some(i),
            None => if name_char_ok(name.last()) { None } else { Some(name.len() - 1) },
        }
    }
}

/// Why `name` is not a valid skill name, if it is not.
pub open spec fn skill_name_error(name: Seq<char>) -> Option<Seq<char>> {
    if name.len() == 0 {
        Some("name is required"@)
    } else if byte_len(name) > 64 {
        Some("name '"@ + name + "' is too long ("@ + decimal(byte_len(name)) + " chars, max 64)"@)
    } else if name[0] == '-' || name.last() == '-' {
        Some("name '"@ + name + "' must not start or end with a hyphen"@)
    } else if contains(name, "--"@) {
        Some("name '"@ + name + "' must not contain double hyphens"@)
    } else {
        match first_bad_char(name) {
            Some(i) => if 'A' <= name[i] && name[i] <= 'Z' {
                Some("name '"@ + name + "' contains uppercase characters at position "@ + decimal(i as nat)
                    + " \u{2014} use only lowercase [a-z]"@)
            } else {
                Some("name '"@ + name + "' contains invalid character '"@ + seq![name[i]] + "' at position "@
                    + decimal(i as nat) + " \u{2014} use only [a-z0-9-]"@)
            },
            None => None,
        }
    }
}

fn invalid(m: String) -> (r: Result<(), ToolError>)
    ensures
        r == Err::<(), ToolError>(ToolError::InvalidArgs(m)),
{
    Err(ToolError::InvalidArgs(m))
}

/// Validate a skill name: `[a-z0-9-]+`, at most 64 bytes, no leading,
/// trailing or double hyphens; the error names the first problem.
pub fn validate_skill_name(name: &str) -> (r: Result<(), ToolError>)
    ensures
        match skill_name_error(name@) {
            Some(m) => r matches Err(ToolError::InvalidArgs(x)) && x@ == m,
            None => r is Ok,
        },
{
    let cs = chars_of(name);
    if cs.len() == 0 {
        return invalid(String::from_str("name is required"));
    }
    let nb = str_byte_len(name);
    if nb > 64 {
        let mut m = String::from_str("name '");
        push_str(&mut m, name);
        push_str(&mut m, "' is too long (");
        push_decimal(&mut m, nb as u64);
        push_str(&mut m, " chars, max 64)");
        return invalid(m);
    }
    if cs[0] == '-' || cs[cs.len() - 1] == '-' {
        let mut m = String::from_str("name '");
        push_str(&mut m, name);
        push_str(&mut m, "' must not start or end with a hyphen");
        return invalid(m);
    }
    let dd = chars_of("--");
    if find_exec(&cs, &dd, 0).is_some() {
        let mut m = String::from_str("name '");
        push_str(&mut m, name);
        push_str(&mut m, "' must not contain double hyphens");
        return invalid(m);
    }
    let mut i: usize = 0;
    while i < cs.len()
        invariant
            i <= cs@.len(),
            cs@ == name@,
            cs@.len() > 0,
            byte_len(name@) <= 64,
            name@[0] != '-' && name@.last() != '-',
            !contains(name@, "--"@),
            first_bad_char(cs@.subrange(0, i as int)) is None,
        decreases cs@.len() - i,
    {
        let c = cs[i];
        assert(cs@.subrange(0, i + 1).drop_last() =~= cs@.subrange(0, i as int));
        if !(('a' <= c && c <= 'z') || ('0' <= c && c <= '9') || c == '-') {
            assert(first_bad_char(cs@.subrange(0, i + 1)) == Some(i as int));
            proof { lemma_first_bad_char_prefix(cs@, i as int); }
            let mut m = String::from_str("name '");
            push_str(&mut m, name);
            if 'A' <= c && c <= 'Z' {
                push_str(&mut m, "' contains uppercase characters at position ");
                push_decimal(&mut m, i as u64);
                push_str(&mut m, " \u{2014} use only lowercase [a-z]");
            } else {
                push_str(&mut m, "' contains invalid character '");
                push_char(&mut m, c);
                push_str(&mut m, "' at position ");
                push_decimal(&mut m, i as u64);
                push_str(&mut m, " \u{2014} use only [a-z0-9-]");
            }
            return invalid(m);
        }
        i = i + 1;
    }
    assert(cs@.subrange(0, cs@.len() as int) =~= cs@);
    Ok(())
}

proof fn lemma_first_bad_char_prefix(s: Seq<char>, i: int)
    requires
        0 <= i < s.len(),
        first_bad_char(s.subrange(0, i + 1)) == Some(i),
    ensures
        first_bad_char(s) == Some(i),
    decreases s.len(),
{
    if s.len() > i + 1 {
        assert(s.drop_last().subrange(0, i + 1) =~= s.subrange(0, i + 1));
        lemma_first_bad_char_prefix(s.drop_last(), i);
    } else {
        assert(s.subrange(0, i + 1) =~= s);
    }
}

/// Why a description is not acceptable, if it is not: it must not be blank
/// and, trimmed, must fit in 1024 bytes.
pub open spec fn description_error(desc: Seq<char>) -> Option<Seq<char>> {
    let t = trim(desc);
    if t.len() == 0 {
        Some("description is required"@)
    } else if byte_len(t) > 1024 {
        Some("description is too long ("@ + decimal(byte_len(t)) + " chars, max 1024)"@)
    } else {
        None
    }
}

/// Validate a skill description.
pub fn validate_description(desc: &str) -> (r: Result<(), ToolError>)
    ensures
        match description_error(desc@) {
            Some(m) => r matches Err(ToolError::InvalidArgs(x)) && x@ == m,
            None => r is Ok,
        },
{
    let t = string_of(&trim_vec(&chars_of(desc)));
    if t.as_str().is_empty() {
        return invalid(String::from_str("description is required"));
    }
    let nb = str_byte_len(t.as_str());
    if nb > 1024 {
        let mut m = String::from_str("description is too long (");
        push_decimal(&mut m, nb as u64);
        push_str(&mut m, " chars, max 1024)");
        return invalid(m);
    }
    Ok(())
}

/// Why an auxiliary file path is not acceptable, if it is not: it must be
/// non-empty and relative, without `..` or a NUL character.
pub open spec fn aux_path_error(path: Seq<char>) -> Option<Seq<char>> {
    if path.len() == 0 {
        Some("auxiliary file path is empty"@)
    } else if contains(path, ".."@) {
        Some("auxiliary file path '"@ + path + "' contains '..' (not allowed)"@)
    } else if path[0] == '/' || path[0] == '\\' {
        Some("auxiliary file path '"@ + path + "' must be relative, not absolute"@)
    } else if path.contains('\0') {
        Some("auxiliary file path contains null byte"@)
    } else {
        None
    }
}

/// Validate an auxiliary file path.
pub fn validate_aux_path(path: &str) -> (r: Result<(), ToolError>)
    ensures
        match aux_path_error(path@) {
            Some(m) => r matches Err(ToolError::InvalidArgs(x)) && x@ == m,
            None => r is Ok,
        },
{
    let cs = chars_of(path);
    if cs.len() == 0 {
        return invalid(String::from_str("auxiliary file path is empty"));
    }
    if find_exec(&cs, &chars_of(".."), 0).is_some() {
        let mut m = String::from_str("auxiliary file path '");
        push_str(&mut m, path);
        push_str(&mut m, "' contains '..' (not allowed)");
        return invalid(m);
    }
    if cs[0] == '/' || cs[0] == '\\' {
        let mut m = String::from_str("auxiliary file path '");
        push_str(&mut m, path);
        push_str(&mut m, "' must be relative, not absolute");
        return invalid(m);
    }
    let mut i: usize = 0;
    while i < cs.len()
        invariant
            i <= cs@.len(),
            cs@ == path@,
            cs@.len() > 0,
            !contains(path@, ".."@),
            path@[0] != '/' && path@[0] != '\\',
            forall|j: int| 0 <= j < i ==> cs@[j] != '\0',
        decreases cs@.len() - i,
    {
        if cs[i] == '\0' {
            return invalid(String::from_str("auxiliary file path contains null byte"));
        }
        i = i + 1;
    }
    Ok(())
}

/// The `SKILL.md` text: YAML frontmatter with the name and description,
/// then the trimmed body with every `---` spelled `- - -` so that it cannot
/// end the frontmatter.
pub open spec fn skill_md_text(name: Seq<char>, description: Seq<char>, body: Seq<char>) -> Seq<char> {
    "---\nname: "@ + name + "\ndescription: "@ + description + "\n---\n\n"@
        + trim(replace_all(body, "---"@, "- - -"@))
}

/// Build `SKILL.md` content with YAML frontmatter.
pub fn build_skill_md(name: &str, description: &str, body: &str) -> (r: String)
    ensures
        r@ == skill_md_text(name@, description@, body@),
{
    let dashes = chars_of("---");
    proof { reveal_strlit("---"); }
    let escaped = replace_all_exec(&chars_of(body), &dashes, &chars_of("- - -"));
    let trimmed = string_of(&trim_vec(&escaped));
    let mut r = String::from_str("---\nname: ");
    push_str(&mut r, name);
    push_str(&mut r, "\ndescription: ");
    push_str(&mut r, description);
    push_str(&mut r, "\n---\n\n");
    push_str(&mut r, trimmed.as_str());
    r
}

/// How an installation stops early: arguments refused, or a path that
/// would leave the workspace.
pub enum InstallFailure {
    Invalid(Seq<char>),
    Denied(Seq<char>),
}

/// The directory (workspace-relative, with a trailing `/`) a skill is
/// installed in.
pub open spec fn skill_dir_prefix(target: SkillTarget, channel_id: Seq<char>, name: Seq<char>) -> Seq<char> {
    match target {
        SkillTarget::Global => "skills/"@ + name + "/"@,
        SkillTarget::Channel => channel_id + "/skills/"@ + name + "/"@,
    }
}

/// The chat id to install under (empty for the shared scope).
pub open spec fn install_channel(args: InstallSkillArgs) -> Seq<char> {
    match args.channel_id {
        Some(c) => c@,
        None => Seq::empty(),
    }
}

/// A chat id that could lead out of its directory: it holds a path
/// separator or `..`.
pub open spec fn channel_id_unsafe(cid: Seq<char>) -> bool {
    cid.contains('/') || cid.contains('\\') || contains(cid, ".."@)
}

/// Whether a chat id holds a path separator or `..`.
pub fn is_unsafe_channel_id(cid: &str) -> (r: bool)
    ensures
        r == channel_id_unsafe(cid@),
{
    let cc = chars_of(cid);
    let mut k: usize = 0;
    let mut bad = false;
    while k < cc.len()
        invariant
            k <= cc@.len(),
            cc@ == cid@,
            bad == exists|j: int| 0 <= j < k && (cc@[j] == '/' || cc@[j] == '\\'),
        decreases cc@.len() - k,
    {
        if cc[k] == '/' || cc[k] == '\\' {
            bad = true;
        }
        k = k + 1;
    }
    assert(bad == (cid@.contains('/') || cid@.contains('\\')));
    bad || find_exec(&cc, &chars_of(".."), 0).is_some()
}

/// The checks before `SKILL.md` is written: name, description, chat id,
/// and the resolution of the `SKILL.md` path. On success, the resolved path.
pub open spec fn install_precheck(args: InstallSkillArgs) -> Result<Seq<char>, InstallFailure> {
    let cid = install_channel(args);
    let md_rel = skill_dir_prefix(args.target, cid, args.name@) + "SKILL.md"@;
    if skill_name_error(args.name@) is Some {
        Err(InstallFailure::Invalid(skill_name_error(args.name@)->0))
    } else if description_error(args.description@) is Some {
        Err(InstallFailure::Invalid(description_error(args.description@)->0))
    } else if args.target == SkillTarget::Channel && args.channel_id is None {
        Err(InstallFailure::Invalid("channel_id is required when target is 'channel'"@))
    } else if args.target == SkillTarget::Channel && channel_id_unsafe(cid) {
        Err(InstallFailure::Invalid("channel_id must not contain path separators or '..'"@))
    } else {
        match resolve_spec(md_rel) {
            Ok(p) => Ok(p),
            Err(_) => Err(InstallFailure::Denied("path escapes workspace: "@ + md_rel)),
        }
    }
}

/// The auxiliary files written, in order, and the failure that stops the
/// rest, if any.
pub open spec fn aux_plan(prefix: Seq<char>, files: Seq<SkillFile>) -> (Seq<(Seq<char>, Seq<char>)>, Option<InstallFailure>)
    decreases files.len(),
{
    if files.len() == 0 {
        (Seq::empty(), None)
    } else {
        let f = files[0];
        let rel = prefix + f.path@;
        if aux_path_error(f.path@) is Some {
            (Seq::empty(), Some(InstallFailure::Invalid(aux_path_error(f.path@)->0)))
        } else {
            match resolve_spec(rel) {
                Err(_) => (Seq::empty(), Some(InstallFailure::Denied("aux file path escapes workspace: "@ + rel))),
                Ok(p) => {
                    let rest = aux_plan(prefix, files.drop_first());
                    (seq![(p, f.content@)] + rest.0, rest.1)
                },
            }
        }
    }
}

/// The files of an installation.
pub open spec fn install_files(args: InstallSkillArgs) -> Seq<SkillFile> {
    match args.files {
        Some(v) => v@,
        None => Seq::empty(),
    }
}

/// The report of a completed installation.
pub open spec fn install_message(args: InstallSkillArgs, aux_count: nat) -> Seq<char> {
    if aux_count > 0 {
        "Installed skill '"@ + args.name@ + "' ("@ + args.target.name_spec() + ") with "@ + decimal(aux_count)
            + " auxiliary files to skills/"@ + args.name@ + "/SKILL.md"@
    } else {
        "Installed skill '"@ + args.name@ + "' ("@ + args.target.name_spec() + ") to skills/"@ + args.name@
            + "/SKILL.md"@
    }
}

/// What an installation does: the files to write, in order (`SKILL.md`
/// first), and how it ends once they are written.
pub struct InstallPlan {
    /// Workspace-relative path and content of each file to write.
    pub writes: Vec<(String, String)>,
    /// The report, or the error that stopped the installation after the
    /// writes before it.
    pub outcome: Result<String, ToolError>,
}

/// The views of planned writes.
pub open spec fn write_views(w: Seq<(String, String)>) -> Seq<(Seq<char>, Seq<char>)> {
    w.map_values(|p: (String, String)| (p.0@, p.1@))
}

/// `outcome` reports `fail`, or the completed installation.
pub open spec fn install_outcome_is(outcome: Result<String, ToolError>, fail: Option<InstallFailure>, args: InstallSkillArgs) -> bool {
    match fail {
        Some(InstallFailure::Invalid(m)) => outcome matches Err(ToolError::InvalidArgs(x)) && x@ == m,
        Some(InstallFailure::Denied(m)) => outcome matches Err(ToolError::Denied(x)) && x@ == m,
        None => outcome matches Ok(x) && x@ == install_message(args, install_files(args).len()),
    }
}

fn failure_result(r: Result<(), ToolError>) -> (e: ToolError)
    requires
        r is Err,
    ensures
        r == Err::<(), ToolError>(e),
{
    match r {
        Err(e) => e,
        Ok(_) => ToolError::Cancelled,
    }
}

impl InstallSkillTool {
    /// Plan an installation in `workspace`: validate the arguments, write
    /// `SKILL.md` (frontmatter and escaped body) under the skill's directory,
    /// then each auxiliary file, stopping at the first invalid or escaping
    /// path. Every path is resolved inside the workspace.
    pub fn plan_install(&self, args: &InstallSkillArgs, workspace: &Workspace) -> (r: InstallPlan)
        ensures
            match install_precheck(*args) {
                Err(f) => r.writes@.len() == 0 && install_outcome_is(r.outcome, Some(f), *args),
                Ok(md) => {
                    let aux = aux_plan(skill_dir_prefix(args.target, install_channel(*args), args.name@), install_files(*args));
                    &&& write_views(r.writes@) == seq![(md, skill_md_text(args.name@, args.description@, args.body@))] + aux.0
                    &&& install_outcome_is(r.outcome, aux.1, *args)
                },
            },
    {
        let mut writes: Vec<(String, String)> = Vec::new();
        let v = validate_skill_name(args.name.as_str());
        if v.is_err() {
            return InstallPlan { writes, outcome: Err(failure_result(v)) };
        }
        let v = validate_description(args.description.as_str());
        if v.is_err() {
            return InstallPlan { writes, outcome: Err(failure_result(v)) };
        }
        if args.target == SkillTarget::Channel && args.channel_id.is_none() {
            return InstallPlan {
                writes,
                outcome: Err(ToolError::InvalidArgs(String::from_str("channel_id is required when target is 'channel'"))),
            };
        }
        let mut prefix = String::new();
        if args.target == SkillTarget::Channel {
            let cid = match &args.channel_id {
                Some(c) => c,
                None => { return InstallPlan { writes, outcome: Err(ToolError::Cancelled) }; },
            };
            if is_unsafe_channel_id(cid.as_str()) {
                return InstallPlan {
                    writes,
                    outcome: Err(ToolError::InvalidArgs(String::from_str("channel_id must not contain path separators or '..'"))),
                };
            }
            push_str(&mut prefix, cid.as_str());
            push_str(&mut prefix, "/skills/");
        } else {
            push_str(&mut prefix, "skills/");
        }
        push_str(&mut prefix, args.name.as_str());
        push_str(&mut prefix, "/");
        assert(prefix@ == skill_dir_prefix(args.target, install_channel(*args), args.name@));
        let mut md_rel = prefix.clone();
        push_str(&mut md_rel, "SKILL.md");
        let md = match workspace.resolve(md_rel.as_str()) {
            Ok(p) => p,
            Err(_) => {
                return InstallPlan { writes, outcome: Err(ToolError::Denied(concat_two("path escapes workspace: ", md_rel.as_str()))) };
            },
        };
        assert(install_precheck(*args) == Ok::<Seq<char>, InstallFailure>(md@));
        let content = build_skill_md(args.name.as_str(), args.description.as_str(), args.body.as_str());
        writes.push((md, content));
        let ghost head = write_views(writes@);
        assert(head.len() == 1);
        let empty: Vec<SkillFile> = Vec::new();
        let files: &Vec<SkillFile> = match &args.files {
            Some(f) => f,
            None => &empty,
        };
        assert(files@ == install_files(*args));
        assert(files@.subrange(0, files@.len() as int) =~= files@);
        assert(write_views(writes@).subrange(1, write_views(writes@).len() as int) =~= Seq::<(Seq<char>, Seq<char>)>::empty());
        let mut i: usize = 0;
        while i < files.len()
            invariant
                i <= files@.len(),
                files@ == install_files(*args),
                aux_plan(prefix@, files@) == (
                    write_views(writes@).subrange(1, write_views(writes@).len() as int) + aux_plan(prefix@, files@.subrange(i as int, files@.len() as int)).0,
                    aux_plan(prefix@, files@.subrange(i as int, files@.len() as int)).1),
                writes@.len() >= 1,
                head.len() == 1,
                write_views(writes@)[0] == head[0],
                install_precheck(*args) == Ok::<Seq<char>, InstallFailure>(head[0].0),
                head[0].1 == skill_md_text(args.name@, args.description@, args.body@),
                prefix@ == skill_dir_prefix(args.target, install_channel(*args), args.name@),
            decreases files@.len() - i,
        {
            let ghost rest = files@.subrange(i as int, files@.len() as int);
            assert(rest[0] == files@[i as int]);
            assert(rest.drop_first() =~= files@.subrange(i + 1, files@.len() as int));
            let f = &files[i];
            let v = validate_aux_path(f.path.as_str());
            assert(write_views(writes@) =~= seq![head[0]] + write_views(writes@).subrange(1, write_views(writes@).len() as int));
            if v.is_err() {
                return InstallPlan { writes, outcome: Err(failure_result(v)) };
            }
            let mut rel = prefix.clone();
            push_str(&mut rel, f.path.as_str());
            match workspace.resolve(rel.as_str()) {
                Ok(p) => {
                    let ghost before = write_views(writes@);
                    writes.push((p, f.content.clone()));
                    assert(write_views(writes@) =~= before.push((p@, f.content@)));
                    assert(write_views(writes@).subrange(1, write_views(writes@).len() as int)
                        =~= before.subrange(1, before.len() as int).push((p@, f.content@)));
                },
                Err(_) => {
                    return InstallPlan {
                        writes,
                        outcome: Err(ToolError::Denied(concat_two("aux file path escapes workspace: ", rel.as_str()))),
                    };
                },
            }
            i = i + 1;
        }
        assert(files@.subrange(i as int, files@.len() as int) =~= Seq::<SkillFile>::empty());
        let mut msg = String::from_str("Installed skill '");
        push_str(&mut msg, args.name.as_str());
        push_str(&mut msg, "' (");
        push_str(&mut msg, args.target.to_string().as_str());
        if files.len() > 0 {
            push_str(&mut msg, ") with ");
            push_decimal(&mut msg, files.len() as u64);
            push_str(&mut msg, " auxiliary files to skills/");
        } else {
            push_str(&mut msg, ") to skills/");
        }
        push_str(&mut msg, args.name.as_str());
        push_str(&mut msg, "/SKILL.md");
        InstallPlan { writes, outcome: Ok(msg) }
    }
}

fn concat_two(a: &str, b: &str) -> (r: String)
    ensures
        r@ == a@ + b@,
{
    let mut r = String::from_str(a);
    push_str(&mut r, b);
    r
}

impl Tool for InstallSkillTool {
    fn name(&self) -> (r: &str)
        ensures
            r@ == "install-skill"@,
    {
        "install-skill"
    }

    fn description(&self) -> (r: &str)
        ensures
            r@ == "Create or update a skill with a SKILL.md file and optional auxiliary files"@,
    {
        "Create or update a skill with a SKILL.md file and optional auxiliary files"
    }

    fn retryable(&self) -> (r: bool)
        ensures
            !r,
    {
        false
    }
}

} // verus!
