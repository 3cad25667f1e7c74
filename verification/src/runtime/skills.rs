//! Skills: Markdown instructions (`SKILL.md`) with YAML frontmatter. The
//! library splits a file into frontmatter and body, merges the skills found
//! in the workspace and the channel, gates them on their prerequisites and
//! formats them for the system prompt.
use vstd::prelude::*;
use vstd::string::StringExecFns;
use crate::sandbox::binary_registry::which_binary;
use crate::strmap::StrMap;
use crate::text::{concat2, join, join_strings, lemma_views_push, push_str, views, 
    chars_of, ends_with, ends_with_exec, find, find_exec, lemma_find_result, matches_at, slice_vec,
    replace_all, replace_all_exec, starts_with, starts_with_exec, string_of, trim, trim_bounds,
    trim_start, skip_ws_forward,
};

verus! {

/// Where the skill was loaded from.
#[derive(Clone, Copy, Debug, PartialEq, Eq, Structural)]
pub enum SkillSource {
    Workspace,
    Channel,
}

/// Environment prerequisites for a skill.
#[derive(Clone, Debug, Default)]
pub struct SkillRequires {
    /// Binary names that must be on `PATH`.
    pub bins: Option<Vec<String>>,
    /// Environment variable templates (e.g. `${GITHUB_TOKEN}`) that must
    /// resolve, each under its key.
    pub env: Option<Vec<(String, String)>>,
}

/// Lightweight metadata index for a skill, parsed from the frontmatter only.
#[derive(Clone, Debug)]
pub struct SkillIndex {
    pub name: String,
    pub description: Option<String>,
    pub source: SkillSource,
    /// Path of the skill directory.
    pub directory: String,
    /// Environment prerequisites.
    pub requires: Option<SkillRequires>,
    /// If true, the model should not invoke this skill autonomously.
    pub disable_model_invocation: bool,
}

/// A fully loaded skill: index and resolved body.
#[derive(Clone, Debug)]
pub struct Skill {
    pub name: String,
    pub description: Option<String>,
    pub body: String,
    pub source: SkillSource,
    pub directory: String,
}

/// Result of environment gating for a skill.
#[derive(Clone, Debug, PartialEq, Eq)]
pub struct SkillGate {
    pub available: bool,
    pub missing_bins: Vec<String>,
    pub missing_env: Vec<String>,
}

impl SkillGate {
    /// Always-available gate (no requirements).
    pub fn always() -> (r: Self)
        ensures
            r.available,
            r.missing_bins@.len() == 0,
            r.missing_env@.len() == 0,
    {
        SkillGate { available: true, missing_bins: Vec::new(), missing_env: Vec::new() }
    }
}

/// The variable a template names: `${VAR}` and `${VAR:-default}` name
/// `VAR`; any other text (trimmed) names itself.
pub open spec fn env_var_name(template: Seq<char>) -> Seq<char> {
    let s = trim(template);
    if starts_with(s, "${"@) && ends_with(s, "}"@) && s.len() >= 3 {
        let inner = s.subrange(2, s.len() - 1);
        match find(inner, ":-"@) {
            Some(c) => inner.subrange(0, c),
            None => inner,
        }
    } else {
        s
    }
}

/// Extract the environment variable name from a template like `${VAR}` or
/// `${VAR:-default}`.
pub fn extract_env_var_name(template: &str) -> (r: String)
    ensures
        r@ == env_var_name(template@),
{
    let t = chars_of(template);
    let (lo, hi) = trim_bounds(&t);
    let s = slice_vec(&t, lo, hi);
    let open = chars_of("${");
    let close = chars_of("}");
    proof {
        reveal_strlit("${");
        reveal_strlit("}");
    }
    if starts_with_exec(&s, &open) && ends_with_exec(&s, &close) && s.len() >= 3 {
        let inner = slice_vec(&s, 2, s.len() - 1);
        let sep = chars_of(":-");
        match find_exec(&inner, &sep, 0) {
            Some(c) => {
                proof { lemma_find_result(inner@, sep@); }
                string_of(&slice_vec(&inner, 0, c))
            },
            None => string_of(&inner),
        }
    } else {
        string_of(&s)
    }
}

/// The parts of a `SKILL.md` file: the YAML text between a leading `---`
/// line and the next line starting with `---`, if there is one, and the
/// body. Without frontmatter the body is the whole file.
pub open spec fn frontmatter_parts(raw: Seq<char>) -> (Option<Seq<char>>, Seq<char>) {
    let t = trim_start(raw);
    if !starts_with(t, "---"@) {
        (None, raw)
    } else {
        let rest = t.subrange(3, t.len() as int);
        match find(rest, "\n---"@) {
            Some(e) => (Some(rest.subrange(0, e)), trim_start(rest.subrange(e + 4, rest.len() as int))),
            None => (None, raw),
        }
    }
}

/// Split a `SKILL.md` file into its YAML frontmatter (if any) and body.
pub fn split_frontmatter(raw: &str) -> (r: (Option<String>, String))
    ensures
        (match r.0 { Some(y) => Some(y@), None => None::<Seq<char>> }, r.1@) == frontmatter_parts(raw@),
{
    let chars = chars_of(raw);
    let lo = skip_ws_forward(&chars, 0, chars.len());
    assert(chars@.subrange(0, chars@.len() as int) =~= chars@);
    let t = slice_vec(&chars, lo, chars.len());
    let dashes = chars_of("---");
    proof { reveal_strlit("---"); }
    if !starts_with_exec(&t, &dashes) {
        return (None, String::from_str(raw));
    }
    let rest = slice_vec(&t, 3, t.len());
    let close = chars_of("\n---");
    proof { reveal_strlit("\n---"); }
    match find_exec(&rest, &close, 0) {
        Some(e) => {
            proof { lemma_find_result(rest@, close@); }
            let yaml = string_of(&slice_vec(&rest, 0, e));
            let after = slice_vec(&rest, e + 4, rest.len());
            let b = skip_ws_forward(&after, 0, after.len());
            assert(after@.subrange(0, after@.len() as int) =~= after@);
            let body = string_of(&slice_vec(&after, b, after.len()));
            (Some(yaml), body)
        },
        None => (None, String::from_str(raw)),
    }
}

/// Binaries a skill requires.
pub open spec fn required_bins(req: Option<SkillRequires>) -> Seq<Seq<char>> {
    match req {
        Some(r) => match r.bins {
            Some(b) => views(b@),
            None => Seq::empty(),
        },
        None => Seq::empty(),
    }
}

/// The views of key/template pairs.
pub open spec fn pair_views(v: Seq<(String, String)>) -> Seq<(Seq<char>, Seq<char>)> {
    v.map_values(|p: (String, String)| (p.0@, p.1@))
}

/// Environment templates a skill requires, each under its key.
pub open spec fn required_env(req: Option<SkillRequires>) -> Seq<(Seq<char>, Seq<char>)> {
    match req {
        Some(r) => match r.env {
            Some(e) => pair_views(e@),
            None => Seq::empty(),
        },
        None => Seq::empty(),
    }
}

/// The binaries, in order, that the lookup did not find.
pub open spec fn missing_bins_of(bins: Seq<Seq<char>>, found: Seq<bool>) -> Seq<Seq<char>>
    decreases bins.len(),
{
    if bins.len() == 0 {
        Seq::empty()
    } else {
        let prev = missing_bins_of(bins.drop_last(), found);
        if found[bins.len() - 1] { prev } else { prev.push(bins.last()) }
    }
}

/// A template resolves when the variable it names is set and not empty.
pub open spec fn env_resolves(env: Map<Seq<char>, Seq<char>>, template: Seq<char>) -> bool {
    let v = env_var_name(template);
    env.contains_key(v) && env[v].len() > 0
}

/// The keys, in order, whose templates do not resolve.
pub open spec fn missing_env_of(pairs: Seq<(Seq<char>, Seq<char>)>, env: Map<Seq<char>, Seq<char>>) -> Seq<Seq<char>>
    decreases pairs.len(),
{
    if pairs.len() == 0 {
        Seq::empty()
    } else {
        let prev = missing_env_of(pairs.drop_last(), env);
        if env_resolves(env, pairs.last().1) { prev } else { prev.push(pairs.last().0) }
    }
}

/// `g` answers the prerequisites `req` when `found` says which binaries
/// were found and `env` holds the environment: it lists what is missing and
/// is available when nothing is.
pub open spec fn gate_is(
    g: SkillGate,
    req: Option<SkillRequires>,
    found: Seq<bool>,
    env: Map<Seq<char>, Seq<char>>,
) -> bool {
    let mb = missing_bins_of(required_bins(req), found);
    let me = missing_env_of(required_env(req), env);
    &&& views(g.missing_bins@) == mb
    &&& views(g.missing_env@) == me
    &&& g.available == (mb.len() == 0 && me.len() == 0)
}

/// Prerequisite check from lookup outcomes: `found` says for each required
/// binary whether it is on `PATH`; templates resolve against `env`.
pub fn gate_from_lookups(prereqs: &Option<SkillRequires>, found: &[bool], env: &StrMap) -> (r: SkillGate)
    requires
        found@.len() == required_bins(*prereqs).len(),
    ensures
        gate_is(r, *prereqs, found@, env@),
{
    let mut missing_bins: Vec<String> = Vec::new();
    let mut missing_env: Vec<String> = Vec::new();
    if let Some(req) = prereqs {
        if let Some(bins) = &req.bins {
            let mut i: usize = 0;
            while i < bins.len()
                invariant
                    i <= bins@.len(),
                    found@.len() == bins@.len(),
                    views(missing_bins@) == missing_bins_of(views(bins@).subrange(0, i as int), found@),
                decreases bins@.len() - i,
            {
                if !found[i] {
                    missing_bins.push(bins[i].clone());
                }
                assert(views(bins@).subrange(0, i + 1).drop_last() =~= views(bins@).subrange(0, i as int));
                assert(views(missing_bins@) =~= missing_bins_of(views(bins@).subrange(0, i + 1), found@));
                i = i + 1;
            }
            assert(views(bins@).subrange(0, bins@.len() as int) =~= views(bins@));
        }
        if let Some(pairs) = &req.env {
            let mut i: usize = 0;
            while i < pairs.len()
                invariant
                    i <= pairs@.len(),
                    views(missing_bins@) == missing_bins_of(required_bins(*prereqs), found@),
                    views(missing_env@) == missing_env_of(pair_views(pairs@).subrange(0, i as int), env@),
                decreases pairs@.len() - i,
            {
                let var = extract_env_var_name(pairs[i].1.as_str());
                let ok = match env.get(var.as_str()) {
                    Some(v) => !v.as_str().is_empty(),
                    None => false,
                };
                if !ok {
                    missing_env.push(pairs[i].0.clone());
                }
                assert(pair_views(pairs@).subrange(0, i + 1).drop_last() =~= pair_views(pairs@).subrange(0, i as int));
                assert(views(missing_env@) =~= missing_env_of(pair_views(pairs@).subrange(0, i + 1), env@));
                i = i + 1;
            }
            assert(pair_views(pairs@).subrange(0, pairs@.len() as int) =~= pair_views(pairs@));
        }
    }
    let available = missing_bins.len() == 0 && missing_env.len() == 0;
    assert(views(missing_bins@) == missing_bins_of(required_bins(*prereqs), found@));
    assert(views(missing_env@) == missing_env_of(required_env(*prereqs), env@));
    SkillGate { available, missing_bins, missing_env }
}

/// Check a skill's prerequisites: each required binary is looked up on
/// `PATH` and each environment template must resolve in `env` to a
/// non-empty value. Whether a binary is found depends on the machine; the
/// gate is the one `gate_from_lookups` gives for the lookups' outcomes.
pub fn gate_skill(index: &SkillIndex, env: &StrMap) -> (r: SkillGate)
    ensures
        exists|found: Seq<bool>|
            found.len() == required_bins(index.requires).len() && gate_is(r, index.requires, found, env@),
{
    let mut found: Vec<bool> = Vec::new();
    if let Some(req) = &index.requires {
        if let Some(bins) = &req.bins {
            let mut i: usize = 0;
            while i < bins.len()
                invariant
                    i <= bins@.len(),
                    found@.len() == i,
                decreases bins@.len() - i,
            {
                found.push(which_binary(bins[i].as_str()).is_ok());
                i = i + 1;
            }
        }
    }
    let r = gate_from_lookups(&index.requires, &found, env);
    assert(found@.len() == required_bins(index.requires).len() && gate_is(r, index.requires, found@, env@));
    r
}

/// The closing hint of the skills section of the prompt.
pub const SKILL_USAGE_HINT: &'static str = "When a task matches a skill's description, use `read` to load its \
    full instructions from the skill's SKILL.md file.";

/// `": description"`, or nothing.
pub open spec fn description_suffix(d: Option<String>) -> Seq<char> {
    match d {
        Some(t) => ": "@ + t@,
        None => Seq::empty(),
    }
}

/// The warning after an unavailable skill, naming what is missing.
pub open spec fn gate_warning(g: SkillGate) -> Seq<char> {
    if g.available {
        Seq::empty()
    } else {
        let bins = if g.missing_bins@.len() > 0 {
            seq!["missing "@ + join(views(g.missing_bins@), ", "@)]
        } else {
            Seq::empty()
        };
        let env = if g.missing_env@.len() > 0 {
            seq!["missing env: "@ + join(views(g.missing_env@), ", "@)]
        } else {
            Seq::empty()
        };
        " \u{26A0}\u{FE0F} unavailable: "@ + join(bins + env, "; "@)
    }
}

/// The prompt line of a skill.
pub open spec fn index_line(idx: SkillIndex, g: SkillGate) -> Seq<char> {
    "- **"@ + idx.name@ + "**"@ + description_suffix(idx.description) + gate_warning(g)
}

/// The prompt lines of the skills the model may invoke, in order.
pub open spec fn index_lines(idxs: Seq<SkillIndex>, gates: Seq<SkillGate>) -> Seq<Seq<char>>
    decreases idxs.len(),
{
    if idxs.len() == 0 {
        Seq::empty()
    } else {
        let prev = index_lines(idxs.drop_last(), gates);
        if idxs.last().disable_model_invocation {
            prev
        } else {
            prev.push(index_line(idxs.last(), gates[idxs.len() - 1]))
        }
    }
}

/// The skills section of the prompt: nothing without skills, else a
/// heading, one line per skill the model may invoke, and a usage hint.
pub open spec fn skills_index_text(idxs: Seq<SkillIndex>, gates: Seq<SkillGate>) -> Seq<char> {
    if idxs.len() == 0 {
        Seq::empty()
    } else {
        join(seq!["## Available Skills"@] + index_lines(idxs, gates) + seq![""@, SKILL_USAGE_HINT@], "\n"@)
    }
}

fn gate_warning_exec(g: &SkillGate) -> (r: String)
    ensures
        r@ == gate_warning(*g),
{
    if g.available {
        return String::new();
    }
    let mut parts: Vec<String> = Vec::new();
    if g.missing_bins.len() > 0 {
        parts.push(concat2("missing ", join_strings(&g.missing_bins, ", ").as_str()));
    }
    if g.missing_env.len() > 0 {
        parts.push(concat2("missing env: ", join_strings(&g.missing_env, ", ").as_str()));
    }
    let ghost bins: Seq<Seq<char>> = if g.missing_bins@.len() > 0 {
        seq!["missing "@ + join(views(g.missing_bins@), ", "@)]
    } else {
        Seq::empty()
    };
    assert(views(parts@) =~= bins + (if g.missing_env@.len() > 0 {
        seq!["missing env: "@ + join(views(g.missing_env@), ", "@)]
    } else {
        Seq::empty()
    }));
    concat2(" \u{26A0}\u{FE0F} unavailable: ", join_strings(&parts, "; ").as_str())
}

/// Format the skills index for the prompt, given each skill's gate.
pub fn format_skills_index_with_gates(indexes: &[SkillIndex], gates: &[SkillGate]) -> (r: String)
    requires
        gates@.len() == indexes@.len(),
    ensures
        r@ == skills_index_text(indexes@, gates@),
{
    if indexes.len() == 0 {
        return String::new();
    }
    let mut lines: Vec<String> = Vec::new();
    lines.push(String::from_str("## Available Skills"));
    let mut i: usize = 0;
    while i < indexes.len()
        invariant
            i <= indexes@.len(),
            gates@.len() == indexes@.len(),
            views(lines@) == seq!["## Available Skills"@] + index_lines(indexes@.subrange(0, i as int), gates@),
        decreases indexes@.len() - i,
    {
        let idx = &indexes[i];
        assert(indexes@.subrange(0, i + 1).drop_last() =~= indexes@.subrange(0, i as int));
        if !idx.disable_model_invocation {
            let mut line = String::from_str("- **");
            push_str(&mut line, idx.name.as_str());
            push_str(&mut line, "**");
            if let Some(d) = &idx.description {
                push_str(&mut line, ": ");
                push_str(&mut line, d.as_str());
            }
            push_str(&mut line, gate_warning_exec(&gates[i]).as_str());
            assert(line@ =~= index_line(*idx, gates@[i as int]));
            proof { lemma_views_push(lines@, line); }
            lines.push(line);
        }
        assert(views(lines@) =~= seq!["## Available Skills"@] + index_lines(indexes@.subrange(0, i + 1), gates@));
        i = i + 1;
    }
    assert(indexes@.subrange(0, indexes@.len() as int) =~= indexes@);
    let ghost l0 = views(lines@);
    assert(l0 == seq!["## Available Skills"@] + index_lines(indexes@, gates@));
    let blank = String::new();
    proof { lemma_views_push(lines@, blank); reveal_strlit(""); }
    lines.push(blank);
    assert(""@ == Seq::<char>::empty());
    assert(views(lines@) == l0.push(Seq::<char>::empty()));
    assert(views(lines@) == l0.push(""@));
    let hint = String::from_str(SKILL_USAGE_HINT);
    proof { lemma_views_push(lines@, hint); }
    lines.push(hint);
    assert(views(lines@) == l0.push(""@).push(SKILL_USAGE_HINT@));
    assert(views(lines@) =~= seq!["## Available Skills"@] + index_lines(indexes@, gates@) + seq![""@, SKILL_USAGE_HINT@]);
    join_strings(&lines, "\n")
}

/// `g` is a gate that checking the prerequisites of `idx` against `env`
/// can give, for some outcome of the binary lookups.
pub open spec fn gate_possible(idx: SkillIndex, g: SkillGate, env: Map<Seq<char>, Seq<char>>) -> bool {
    exists|found: Seq<bool>| found.len() == required_bins(idx.requires).len() && gate_is(g, idx.requires, found, env)
}

/// `gates` holds, for each skill the model may invoke, a gate that checking
/// its prerequisites against `env` can give.
pub open spec fn gates_checked(idxs: Seq<SkillIndex>, gates: Seq<SkillGate>, env: Map<Seq<char>, Seq<char>>) -> bool {
    &&& gates.len() == idxs.len()
    &&& forall|i: int| 0 <= i < idxs.len() && !idxs[i].disable_model_invocation ==>
        gate_possible(idxs[i], #[trigger] gates[i], env)
}

/// Format the skills index for the system prompt: one compact line per
/// skill the model may invoke (disabled skills are left out), marking
/// unavailable ones with what they miss.
pub fn format_skills_index_for_prompt(indexes: &[SkillIndex], env: &StrMap) -> (r: String)
    ensures
        exists|gates: Seq<SkillGate>| gates_checked(indexes@, gates, env@) && r@ == skills_index_text(indexes@, gates),
{
    let mut gates: Vec<SkillGate> = Vec::new();
    let mut i: usize = 0;
    while i < indexes.len()
        invariant
            i <= indexes@.len(),
            gates@.len() == i,
            forall|j: int| 0 <= j < i && !indexes@[j].disable_model_invocation ==>
                gate_possible(indexes@[j], #[trigger] gates@[j], env@),
        decreases indexes@.len() - i,
    {
        let ghost before = gates@;
        if indexes[i].disable_model_invocation {
            gates.push(SkillGate::always());
        } else {
            let g = gate_skill(&indexes[i], env);
            assert(gate_possible(indexes@[i as int], g, env@));
            gates.push(g);
            assert(gates@[i as int] == g);
        }
        assert forall|j: int| 0 <= j < i + 1 && !indexes@[j].disable_model_invocation implies
            gate_possible(indexes@[j], #[trigger] gates@[j], env@) by {
            if j < i {
                assert(gates@[j] == before[j]);
            }
        }
        i = i + 1;
    }
    let r = format_skills_index_with_gates(indexes, &gates);
    assert(gates_checked(indexes@, gates@, env@));
    r
}

/// The summary line of a loaded skill.
pub open spec fn skill_summary_line(s: Skill) -> Seq<char> {
    match s.description {
        Some(d) => "- **"@ + s.name@ + "**: "@ + d@,
        None => "- **"@ + s.name@ + "**"@,
    }
}

/// The section of each loaded skill: a heading, the body, a blank line.
pub open spec fn skill_body_lines(skills: Seq<Skill>) -> Seq<Seq<char>>
    decreases skills.len(),
{
    if skills.len() == 0 {
        Seq::empty()
    } else {
        skill_body_lines(skills.drop_last()) + seq!["### "@ + skills.last().name@, skills.last().body@, ""@]
    }
}

/// The legacy skills section: a summary line per skill, then each skill's
/// full body under its own heading.
pub open spec fn skills_prompt_text(skills: Seq<Skill>) -> Seq<char> {
    if skills.len() == 0 {
        Seq::empty()
    } else {
        join(seq!["## Available Skills"@] + skills.map_values(|s: Skill| skill_summary_line(s)) + seq![""@]
            + skill_body_lines(skills), "\n"@)
    }
}

/// Format loaded skills, bodies included, for the system prompt.
pub fn format_skills_for_prompt(skills: &[Skill]) -> (r: String)
    ensures
        r@ == skills_prompt_text(skills@),
{
    if skills.len() == 0 {
        return String::new();
    }
    let ghost summaries = skills@.map_values(|s: Skill| skill_summary_line(s));
    let mut lines: Vec<String> = Vec::new();
    lines.push(String::from_str("## Available Skills"));
    let mut i: usize = 0;
    while i < skills.len()
        invariant
            i <= skills@.len(),
            summaries == skills@.map_values(|s: Skill| skill_summary_line(s)),
            views(lines@) == seq!["## Available Skills"@] + summaries.subrange(0, i as int),
        decreases skills@.len() - i,
    {
        let sk = &skills[i];
        let mut line = String::from_str("- **");
        push_str(&mut line, sk.name.as_str());
        match &sk.description {
            Some(d) => {
                push_str(&mut line, "**: ");
                push_str(&mut line, d.as_str());
            },
            None => push_str(&mut line, "**"),
        }
        assert(line@ =~= skill_summary_line(*sk));
        proof { lemma_views_push(lines@, line); }
        lines.push(line);
        assert(views(lines@) =~= seq!["## Available Skills"@] + summaries.subrange(0, i + 1));
        i = i + 1;
    }
    let ghost l0 = views(lines@);
    let blank = String::new();
    proof { lemma_views_push(lines@, blank); reveal_strlit(""); }
    lines.push(blank);
    assert(""@ == Seq::<char>::empty());
    assert(views(lines@) == l0.push(""@));
    assert(summaries.subrange(0, skills@.len() as int) =~= summaries);
    let ghost head = seq!["## Available Skills"@] + summaries + seq![""@];
    assert(views(lines@) =~= head);
    let mut k: usize = 0;
    while k < skills.len()
        invariant
            k <= skills@.len(),
            views(lines@) == head + skill_body_lines(skills@.subrange(0, k as int)),
        decreases skills@.len() - k,
    {
        let sk = &skills[k];
        let ghost l0 = views(lines@);
        let heading = concat2("### ", sk.name.as_str());
        proof { lemma_views_push(lines@, heading); }
        lines.push(heading);
        let body = sk.body.clone();
        proof { lemma_views_push(lines@, body); }
        lines.push(body);
        let blank = String::new();
        proof { lemma_views_push(lines@, blank); reveal_strlit(""); }
        lines.push(blank);
        assert(""@ == Seq::<char>::empty());
        assert(views(lines@) == l0.push("### "@ + sk.name@).push(sk.body@).push(""@));
        assert(skills@.subrange(0, k + 1).drop_last() =~= skills@.subrange(0, k as int));
        assert(views(lines@) =~= head + skill_body_lines(skills@.subrange(0, k + 1)));
        k = k + 1;
    }
    assert(skills@.subrange(0, skills@.len() as int) =~= skills@);
    join_strings(&lines, "\n")
}

/// No two skills share a name.
pub open spec fn skill_names_distinct(acc: Seq<SkillIndex>) -> bool {
    forall|a: int, b: int| 0 <= a < b < acc.len() ==> #[trigger] acc[a].name@ != #[trigger] acc[b].name@
}

/// Adds a skill to a list of distinctly named skills: it takes the place
/// of the skill of the same name, or comes last.
pub open spec fn upsert_skill(acc: Seq<SkillIndex>, x: SkillIndex) -> Seq<SkillIndex> {
    if exists|k: int| 0 <= k < acc.len() && acc[k].name@ == x.name@ {
        let k = choose|k: int| 0 <= k < acc.len() && acc[k].name@ == x.name@;
        acc.update(k, x)
    } else {
        acc.push(x)
    }
}

/// The skills found, in discovery order, with a later skill taking the
/// place of an earlier one of the same name.
pub open spec fn merged_skills(all: Seq<SkillIndex>) -> Seq<SkillIndex>
    decreases all.len(),
{
    if all.len() == 0 {
        Seq::empty()
    } else {
        upsert_skill(merged_skills(all.drop_last()), all.last())
    }
}

fn position_of_name(acc: &Vec<SkillIndex>, name: &String) -> (r: Option<usize>)
    ensures
        r matches Some(k) ==> k < acc@.len() && acc@[k as int].name@ == name@,
        r is None ==> forall|k: int| 0 <= k < acc@.len() ==> acc@[k].name@ != name@,
{
    let mut i: usize = 0;
    while i < acc.len()
        invariant
            i <= acc@.len(),
            forall|k: int| 0 <= k < i ==> acc@[k].name@ != name@,
        decreases acc@.len() - i,
    {
        if acc[i].name == *name {
            return Some(i);
        }
        i = i + 1;
    }
    None
}

proof fn lemma_upsert_distinct(acc: Seq<SkillIndex>, x: SkillIndex)
    requires
        skill_names_distinct(acc),
    ensures
        skill_names_distinct(upsert_skill(acc, x)),
{
}

/// Merge the skills found in the workspace with those found in the
/// channel: channel skills override workspace skills on name collision
/// (and within one directory a later skill overrides an earlier one).
pub fn discover_skills(workspace: Vec<SkillIndex>, channel: Option<Vec<SkillIndex>>) -> (r: Vec<SkillIndex>)
    ensures
        r@ == merged_skills(workspace@ + match channel { Some(c) => c@, None => Seq::<SkillIndex>::empty() }),
{
    let mut all = workspace;
    if let Some(mut ch) = channel {
        all.append(&mut ch);
    }
    let ghost orig = all@;
    let n0 = all.len();
    assert(orig.len() == n0);
    assert(orig == workspace@ + match channel { Some(c) => c@, None => Seq::<SkillIndex>::empty() });
    let mut acc: Vec<SkillIndex> = Vec::new();
    let mut done: usize = 0;
    while all.len() > 0
        invariant
            done + all@.len() == orig.len(),
            orig.len() <= usize::MAX,
            all@ == orig.subrange(done as int, orig.len() as int),
            acc@ == merged_skills(orig.subrange(0, done as int)),
            skill_names_distinct(acc@),
        decreases all@.len(),
    {
        let x = all.remove(0);
        proof {
            assert(orig.subrange(0, done + 1).drop_last() =~= orig.subrange(0, done as int));
            assert(orig.subrange(0, done + 1).last() == x);
            lemma_upsert_distinct(acc@, x);
        }
        match position_of_name(&acc, &x.name) {
            Some(k) => {
                proof {
                    assert(exists|j: int| 0 <= j < acc@.len() && acc@[j].name@ == x.name@);
                    let c = choose|j: int| 0 <= j < acc@.len() && acc@[j].name@ == x.name@;
                    assert(c == k as int);
                }
                acc.set(k, x);
            },
            None => {
                acc.push(x);
            },
        }
        done = done + 1;
        assert(all@ =~= orig.subrange(done as int, orig.len() as int));
    }
    assert(orig.subrange(0, orig.len() as int) =~= orig);
    acc
}

/// Every skill of `m` is found in `all` with no later skill of its name.
pub open spec fn keeps_last(all: Seq<SkillIndex>, m: Seq<SkillIndex>) -> bool {
    forall|k: int| 0 <= k < m.len() ==> exists|i: int| 0 <= i < all.len()
        && all[i] == #[trigger] m[k]
        && forall|j: int| i < j < all.len() ==> all[j].name@ != m[k].name@
}

/// Some skill of `m` has the name `name`.
pub open spec fn has_skill_named(m: Seq<SkillIndex>, name: Seq<char>) -> bool {
    exists|k: int| 0 <= k < m.len() && m[k].name@ == name
}

/// Every name found in `all` is kept in `m`.
pub open spec fn keeps_every_name(all: Seq<SkillIndex>, m: Seq<SkillIndex>) -> bool {
    forall|i: int| 0 <= i < all.len() ==> has_skill_named(m, #[trigger] all[i].name@)
}

proof fn lemma_upsert_keeps_last(prefix: Seq<SkillIndex>, x: SkillIndex, acc: Seq<SkillIndex>)
    requires
        skill_names_distinct(acc),
        keeps_last(prefix, acc),
    ensures
        keeps_last(prefix.push(x), upsert_skill(acc, x)),
{
    let all = prefix.push(x);
    let m = upsert_skill(acc, x);
    let found = exists|k: int| 0 <= k < acc.len() && acc[k].name@ == x.name@;
    assert forall|k: int| 0 <= k < m.len() implies exists|i: int| 0 <= i < all.len()
        && all[i] == #[trigger] m[k]
        && forall|j: int| i < j < all.len() ==> all[j].name@ != m[k].name@ by {
        if found {
            let c = choose|c: int| 0 <= c < acc.len() && acc[c].name@ == x.name@;
            if k == c {
                assert(all[all.len() - 1] == m[k]);
            } else {
                assert(m[k] == acc[k]);
                let i = choose|i: int| 0 <= i < prefix.len() && prefix[i] == acc[k]
                    && forall|j: int| i < j < prefix.len() ==> prefix[j].name@ != acc[k].name@;
                assert(all[i] == prefix[i]);
                assert forall|j: int| i < j < all.len() implies all[j].name@ != m[k].name@ by {
                    if j < prefix.len() {
                        assert(all[j] == prefix[j]);
                    } else {
                        assert(acc[k].name@ != acc[c].name@);
                    }
                }
            }
        } else {
            if k == acc.len() {
                assert(all[all.len() - 1] == m[k]);
            } else {
                assert(m[k] == acc[k]);
                let i = choose|i: int| 0 <= i < prefix.len() && prefix[i] == acc[k]
                    && forall|j: int| i < j < prefix.len() ==> prefix[j].name@ != acc[k].name@;
                assert(all[i] == prefix[i]);
                assert forall|j: int| i < j < all.len() implies all[j].name@ != m[k].name@ by {
                    if j < prefix.len() {
                        assert(all[j] == prefix[j]);
                    }
                }
            }
        }
    }
}

proof fn lemma_upsert_keeps_every_name(prefix: Seq<SkillIndex>, x: SkillIndex, acc: Seq<SkillIndex>)
    requires
        keeps_every_name(prefix, acc),
    ensures
        keeps_every_name(prefix.push(x), upsert_skill(acc, x)),
{
    let all = prefix.push(x);
    let m = upsert_skill(acc, x);
    let found = exists|k: int| 0 <= k < acc.len() && acc[k].name@ == x.name@;
    assert forall|i: int| 0 <= i < all.len() implies has_skill_named(m, #[trigger] all[i].name@) by {
        if found {
            let c = choose|c: int| 0 <= c < acc.len() && acc[c].name@ == x.name@;
            if i == all.len() - 1 {
                assert(m[c].name@ == all[i].name@);
            } else {
                assert(all[i] == prefix[i]);
                assert(has_skill_named(acc, prefix[i].name@));
                let k = choose|k: int| 0 <= k < acc.len() && acc[k].name@ == prefix[i].name@;
                assert(m[k].name@ == all[i].name@);
            }
        } else {
            if i == all.len() - 1 {
                assert(m[acc.len() as int].name@ == all[i].name@);
            } else {
                assert(all[i] == prefix[i]);
                assert(has_skill_named(acc, prefix[i].name@));
                let k = choose|k: int| 0 <= k < acc.len() && acc[k].name@ == prefix[i].name@;
                assert(m[k].name@ == all[i].name@);
            }
        }
    }
    assert(keeps_every_name(all, m));
}

/// Skill discovery keeps one skill per name, the last one found: every
/// skill kept is found with no later skill of its name, every name found is
/// kept, and no name is kept twice. So a channel skill overrides a
/// workspace skill of the same name.
pub proof fn lemma_merged_skills_keep_last(all: Seq<SkillIndex>)
    ensures
        skill_names_distinct(merged_skills(all)),
        keeps_last(all, merged_skills(all)),
        keeps_every_name(all, merged_skills(all)),
    decreases all.len(),
{
    if all.len() > 0 {
        let prefix = all.drop_last();
        lemma_merged_skills_keep_last(prefix);
        let acc = merged_skills(prefix);
        assert(all =~= prefix.push(all.last()));
        lemma_upsert_distinct(acc, all.last());
        lemma_upsert_keeps_last(prefix, all.last(), acc);
        lemma_upsert_keeps_every_name(prefix, all.last(), acc);
    }
}

/// The YAML frontmatter of a `SKILL.md` file, as parsed.
#[derive(Clone, Debug, Default)]
pub struct SkillFrontmatter {
    pub name: Option<String>,
    pub description: Option<String>,
    pub requires: Option<SkillRequires>,
    pub disable_model_invocation: Option<bool>,
}

/// The index of a skill in `directory` (whose last component is
/// `dir_name`): the frontmatter's name, else the directory's name.
pub fn index_from_frontmatter(
    directory: String,
    dir_name: String,
    fm: SkillFrontmatter,
    source: SkillSource,
) -> (r: SkillIndex)
    ensures
        r.name@ == (match fm.name { Some(n) => n@, None => dir_name@ }),
        r.description == fm.description,
        r.source == source,
        r.directory == directory,
        r.requires == fm.requires,
        r.disable_model_invocation == (match fm.disable_model_invocation { Some(b) => b, None => false }),
{
    let name = match fm.name {
        Some(n) => n,
        None => dir_name,
    };
    let disable_model_invocation = match fm.disable_model_invocation {
        Some(b) => b,
        None => false,
    };
    SkillIndex {
        name,
        description: fm.description,
        source,
        directory,
        requires: fm.requires,
        disable_model_invocation,
    }
}

fn clone_opt_string(o: &Option<String>) -> (r: Option<String>)
    ensures
        r == *o,
{
    match o {
        Some(s) => Some(s.clone()),
        None => None,
    }
}

/// The body of a skill: the `SKILL.md` body with each `{baseDir}` replaced
/// by the skill's directory.
pub open spec fn skill_body(raw: Seq<char>, directory: Seq<char>) -> Seq<char> {
    replace_all(frontmatter_parts(raw).1, "{baseDir}"@, directory)
}

/// Load a skill from its index and the text of its `SKILL.md`, resolving
/// `{baseDir}` placeholders to the skill's directory.
pub fn load_skill_body(index: &SkillIndex, raw: &str) -> (r: Skill)
    ensures
        r.name@ == index.name@,
        r.description == index.description,
        r.body@ == skill_body(raw@, index.directory@),
        r.source == index.source,
        r.directory@ == index.directory@,
{
    let (_frontmatter, body) = split_frontmatter(raw);
    let placeholder = chars_of("{baseDir}");
    proof { reveal_strlit("{baseDir}"); }
    let dir = chars_of(index.directory.as_str());
    let resolved = replace_all_exec(&chars_of(body.as_str()), &placeholder, &dir);
    Skill {
        name: index.name.clone(),
        description: clone_opt_string(&index.description),
        body: string_of(&resolved),
        source: index.source,
        directory: index.directory.clone(),
    }
}

/// `sk` is the skill loaded from `idx` and the text `raw` of its `SKILL.md`.
pub open spec fn loaded_from(sk: Skill, idx: SkillIndex, raw: Seq<char>) -> bool {
    &&& sk.name@ == idx.name@
    &&& sk.description == idx.description
    &&& sk.body@ == skill_body(raw, idx.directory@)
    &&& sk.source == idx.source
    &&& sk.directory@ == idx.directory@
}

/// Legacy eager loading: each discovered skill with its full body, given
/// the text of each skill's `SKILL.md`.
pub fn load_skills(indexes: &[SkillIndex], raws: &[String]) -> (r: Vec<Skill>)
    requires
        raws@.len() == indexes@.len(),
    ensures
        r@.len() == indexes@.len(),
        forall|i: int| 0 <= i < indexes@.len() ==> loaded_from(#[trigger] r@[i], indexes@[i], raws@[i]@),
{
    let mut skills: Vec<Skill> = Vec::new();
    let mut i: usize = 0;
    while i < indexes.len()
        invariant
            i <= indexes@.len(),
            raws@.len() == indexes@.len(),
            skills@.len() == i,
            forall|j: int| 0 <= j < i ==> loaded_from(#[trigger] skills@[j], indexes@[j], raws@[j]@),
        decreases indexes@.len() - i,
    {
        let ghost before = skills@;
        let sk = load_skill_body(&indexes[i], raws[i].as_str());
        skills.push(sk);
        assert forall|j: int| 0 <= j < i + 1 implies loaded_from(#[trigger] skills@[j], indexes@[j], raws@[j]@) by {
            if j < i {
                assert(skills@[j] == before[j]);
            }
        }
        i = i + 1;
    }
    skills
}

} // verus!
verus! {

/// Whether `x` is the last skill named `x.name` in `s`.
pub open spec fn last_of_its_name(s: Seq<SkillIndex>, x: SkillIndex) -> bool {
    exists|i: int| 0 <= i < s.len() && s[i] == x && forall|j: int| i < j < s.len() ==> s[j].name@ != x.name@
}

/// The skills found, workspace first, then channel: each name once; a name
/// is found exactly when the workspace or the channel has it; a channel
/// skill takes the place of a workspace skill of the same name (the last
/// of each name counts).
pub proof fn lemma_discovered_skills_channel_wins(w: Seq<SkillIndex>, c: Seq<SkillIndex>)
    ensures
        ({
            let m = merged_skills(w + c);
            &&& skill_names_distinct(m)
            &&& forall|n: Seq<char>| has_skill_named(m, n) <==> (has_skill_named(w, n) || has_skill_named(c, n))
            &&& forall|k: int| 0 <= k < m.len() ==> if has_skill_named(c, #[trigger] m[k].name@) {
                last_of_its_name(c, m[k])
            } else {
                last_of_its_name(w, m[k])
            }
        }),
{
    let all = w + c;
    lemma_merged_skills_keep_last(all);
    let m = merged_skills(all);
    assert forall|n: Seq<char>| has_skill_named(m, n) <==> (has_skill_named(w, n) || has_skill_named(c, n)) by {
        if has_skill_named(m, n) {
            let k = choose|k: int| 0 <= k < m.len() && m[k].name@ == n;
            let i = choose|i: int| 0 <= i < all.len() && all[i] == #[trigger] m[k]
                && forall|j: int| i < j < all.len() ==> all[j].name@ != m[k].name@;
            if i < w.len() {
                assert(w[i] == all[i]);
            } else {
                assert(c[i - w.len()] == all[i]);
            }
        }
        if has_skill_named(w, n) {
            let j = choose|j: int| 0 <= j < w.len() && w[j].name@ == n;
            assert(all[j] == w[j]);
        }
        if has_skill_named(c, n) {
            let j = choose|j: int| 0 <= j < c.len() && c[j].name@ == n;
            assert(all[w.len() + j] == c[j]);
        }
    }
    assert forall|k: int| 0 <= k < m.len() implies if has_skill_named(c, #[trigger] m[k].name@) {
        last_of_its_name(c, m[k])
    } else {
        last_of_its_name(w, m[k])
    } by {
        let i = choose|i: int| 0 <= i < all.len() && all[i] == #[trigger] m[k]
            && forall|j: int| i < j < all.len() ==> all[j].name@ != m[k].name@;
        if has_skill_named(c, m[k].name@) {
            let j = choose|j: int| 0 <= j < c.len() && c[j].name@ == m[k].name@;
            assert(all[w.len() + j] == c[j]);
            assert(i >= w.len());
            assert(c[i - w.len()] == all[i]);
            assert forall|j2: int| i - w.len() < j2 < c.len() implies c[j2].name@ != m[k].name@ by {
                assert(all[w.len() + j2] == c[j2]);
            }
        } else {
            if i >= w.len() {
                assert(c[i - w.len()] == all[i]);
            }
            assert(w[i] == all[i]);
            assert forall|j2: int| i < j2 < w.len() implies w[j2].name@ != m[k].name@ by {
                assert(all[j2] == w[j2]);
            }
        }
    }
}

} // verus!
verus! {

/// The positions of the skills the model may invoke, in order.
pub open spec fn invocable_positions(idxs: Seq<SkillIndex>, n: int) -> Seq<int> {
    Seq::new(n as nat, |i: int| i).filter(|i: int| !idxs[i].disable_model_invocation)
}

proof fn lemma_index_lines_prefix(idxs: Seq<SkillIndex>, gates: Seq<SkillGate>, n: int)
    requires
        0 <= n <= idxs.len(),
    ensures
        index_lines(idxs.subrange(0, n), gates)
            == invocable_positions(idxs, n).map_values(|i: int| index_line(idxs[i], gates[i])),
    decreases n,
{
    let ids = Seq::new(n as nat, |i: int| i);
    if n == 0 {
        assert(idxs.subrange(0, 0) =~= Seq::<SkillIndex>::empty());
        assert(ids =~= Seq::<int>::empty());
        assert(invocable_positions(idxs, 0) =~= Seq::<int>::empty());
        assert(index_lines(idxs.subrange(0, n), gates) =~= Seq::<Seq<char>>::empty());
        assert(invocable_positions(idxs, n).map_values(|i: int| index_line(idxs[i], gates[i])) =~= Seq::<Seq<char>>::empty());
    } else {
        lemma_index_lines_prefix(idxs, gates, n - 1);
        let pre = idxs.subrange(0, n);
        assert(pre.drop_last() =~= idxs.subrange(0, n - 1));
        assert(pre.last() == idxs[n - 1]);
        assert(ids.drop_last() =~= Seq::new((n - 1) as nat, |i: int| i));
        assert(ids.last() == n - 1);
        let prev = invocable_positions(idxs, n - 1);
        let f = |i: int| index_line(idxs[i], gates[i]);
        let p = |i: int| !idxs[i].disable_model_invocation;
        assert(invocable_positions(idxs, n) == ids.filter(p));
        assert(prev == Seq::new((n - 1) as nat, |i: int| i).filter(p));
        reveal(Seq::filter);
        assert(ids.filter(p) == if p(ids.last()) { ids.drop_last().filter(p).push(ids.last()) } else { ids.drop_last().filter(p) });
        if idxs[n - 1].disable_model_invocation {
            assert(invocable_positions(idxs, n) == prev);
        } else {
            assert(invocable_positions(idxs, n) == prev.push(n - 1));
            assert(prev.push(n - 1).map_values(f) =~= prev.map_values(f).push(f(n - 1)));
        }
    }
}

proof fn lemma_join_starts_with_first(parts: Seq<Seq<char>>, sep: Seq<char>)
    requires
        parts.len() >= 1,
    ensures
        exists|rest: Seq<char>| join(parts, sep) == parts[0] + rest,
    decreases parts.len(),
{
    if parts.len() == 1 {
        assert(join(parts, sep) == parts[0] + Seq::<char>::empty());
    } else {
        lemma_join_starts_with_first(parts.drop_last(), sep);
        let rest = choose|rest: Seq<char>| join(parts.drop_last(), sep) == parts.drop_last()[0] + rest;
        assert(join(parts, sep) == parts[0] + (rest + sep + parts.last()));
    }
}

/// The skills section of the prompt: empty exactly when there are no
/// skills; otherwise it starts with its heading, and its skill lines are,
/// in order, one per skill the model may invoke, each naming the skill and
/// carrying the unavailability warning exactly when its gate says it is
/// unavailable.
pub proof fn lemma_skills_index_layout(idxs: Seq<SkillIndex>, gates: Seq<SkillGate>)
    requires
        gates.len() == idxs.len(),
    ensures
        (skills_index_text(idxs, gates).len() == 0) <==> idxs.len() == 0,
        idxs.len() > 0 ==> exists|rest: Seq<char>| skills_index_text(idxs, gates) == "## Available Skills"@ + rest,
        index_lines(idxs, gates) == invocable_positions(idxs, idxs.len() as int).map_values(|i: int| index_line(idxs[i], gates[i])),
        forall|i: int| 0 <= i < idxs.len() ==>
            crate::text::starts_with(#[trigger] index_line(idxs[i], gates[i]), "- **"@ + idxs[i].name@ + "**"@),
        forall|g: SkillGate| g.available ==> #[trigger] gate_warning(g) == Seq::<char>::empty(),
        forall|g: SkillGate| !g.available ==> exists|rest: Seq<char>| #[trigger] gate_warning(g) == " \u{26A0}\u{FE0F} unavailable: "@ + rest,
{
    lemma_index_lines_prefix(idxs, gates, idxs.len() as int);
    assert(idxs.subrange(0, idxs.len() as int) =~= idxs);
    reveal_strlit("## Available Skills");
    if idxs.len() > 0 {
        let parts = seq!["## Available Skills"@] + index_lines(idxs, gates) + seq![""@, SKILL_USAGE_HINT@];
        assert(parts[0] == "## Available Skills"@);
        lemma_join_starts_with_first(parts, "\n"@);
        let rest = choose|rest: Seq<char>| join(parts, "\n"@) == parts[0] + rest;
        assert(skills_index_text(idxs, gates) == "## Available Skills"@ + rest);
        assert(skills_index_text(idxs, gates).len() > 0);
    }
    assert forall|i: int| 0 <= i < idxs.len() implies
        crate::text::starts_with(#[trigger] index_line(idxs[i], gates[i]), "- **"@ + idxs[i].name@ + "**"@) by {
        let head = "- **"@ + idxs[i].name@ + "**"@;
        let rest = description_suffix(idxs[i].description) + gate_warning(gates[i]);
        assert(index_line(idxs[i], gates[i]) == head + rest);
        assert((head + rest).subrange(0, head.len() as int) =~= head);
    }
    assert forall|g: SkillGate| !g.available implies exists|rest: Seq<char>|
        #[trigger] gate_warning(g) == " \u{26A0}\u{FE0F} unavailable: "@ + rest by {
        let bins = if g.missing_bins@.len() > 0 { seq!["missing "@ + join(views(g.missing_bins@), ", "@)] } else { Seq::empty() };
        let env = if g.missing_env@.len() > 0 { seq!["missing env: "@ + join(views(g.missing_env@), ", "@)] } else { Seq::empty() };
        assert(gate_warning(g) == " \u{26A0}\u{FE0F} unavailable: "@ + join(bins + env, "; "@));
    }
}

} // verus!
