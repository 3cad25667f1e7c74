//! The `write` tool: where a path may be written (relative paths stay in
//! the workspace; auxiliary roots only by an explicit absolute path), the
//! path prefixes checked for symlinks, and the report. Writing the file
//! (a temporary file renamed into place) is the frontend's work.
use vstd::prelude::*;
use vstd::string::StringExecFns;
use crate::builtin::read::has_parent_component;
use crate::sandbox::shell_session::new_session_id;
use crate::sandbox::workspace::{canonicalize_path, components, join_path, path_components, path_join, resolve_relative, resolve_spec, strip_path_prefix, strip_prefix_spec};
use crate::text::{decimal, push_decimal, push_str, str_byte_len, byte_len, views, lemma_views_push};
use crate::tools::error::ToolError;
use crate::tools::tool::Tool;

verus! {

/// Arguments of a `write` call.
#[derive(Debug, Clone)]
pub struct WriteArgs {
    /// Brief human-readable description of what this step does.
    pub label: String,
    pub path: String,
    pub content: String,
}

/// The message of a path that leaves the workspace.
pub open spec fn escapes_workspace_text(path: Seq<char>) -> Seq<char> {
    "path escapes workspace: "@ + path
}

/// A path resolved in the workspace, or refused as escaping it.
pub open spec fn workspace_write(path: Seq<char>, rel: Seq<char>) -> Result<(Seq<char>, bool), Seq<char>> {
    match resolve_spec(rel) {
        Ok(p) => Ok((p, false)),
        Err(_) => Err(escapes_workspace_text(path)),
    }
}

/// The first auxiliary root (as given, or in canonical form) that the
/// path is under, with the rest of the path.
pub open spec fn aux_match(path: Seq<char>, aux_roots: Seq<Seq<char>>, aux_canonical: Seq<Seq<char>>) -> Option<Seq<char>>
    decreases aux_roots.len(),
{
    if aux_roots.len() == 0 {
        None
    } else {
        let n = aux_roots.len() - 1;
        match aux_match(path, aux_roots.drop_last(), aux_canonical) {
            Some(rel) => Some(rel),
            None => match strip_prefix_spec(path, aux_roots[n]) {
                Some(rel) => Some(rel),
                None => if n < aux_canonical.len() { strip_prefix_spec(path, aux_canonical[n]) } else { None },
            },
        }
    }
}

/// Where a path is written. A relative path: in the workspace only. An
/// absolute path: under the workspace root, or under the sandbox mount
/// `/workspace`, resolved in the workspace; else under an auxiliary root,
/// as given or canonical, where it must not climb out with `..`.
pub open spec fn write_resolution(path: Seq<char>, root: Seq<char>, aux_roots: Seq<Seq<char>>, aux_canonical: Seq<Seq<char>>) -> Result<(Seq<char>, bool), Seq<char>> {
    if !(path.len() > 0 && path[0] == '/') {
        workspace_write(path, path)
    } else if let Some(rel) = strip_prefix_spec(path, root) {
        workspace_write(path, rel)
    } else if let Some(rel) = strip_prefix_spec(path, "/workspace/"@) {
        workspace_write(path, rel)
    } else if let Some(rel) = strip_prefix_spec(path, "/workspace"@) {
        workspace_write(path, rel)
    } else {
        match aux_match(path, aux_roots, aux_canonical) {
            Some(rel) => if has_parent_component(rel) {
                Err("path escapes auxiliary root: "@ + path)
            } else {
                Ok((rel, true))
            },
            None => Err("path not in workspace or auxiliary roots: "@ + path),
        }
    }
}

fn workspace_write_exec(path: &str, rel: &str) -> (r: Result<(String, bool), ToolError>)
    ensures
        match workspace_write(path@, rel@) {
            Ok((p, a)) => r matches Ok((x, b)) && x@ == p && b == a,
            Err(m) => r matches Err(ToolError::Denied(x)) && x@ == m,
        },
{
    match resolve_relative(rel) {
        Ok(p) => Ok((p, false)),
        Err(_) => {
            let mut m = String::from_str("path escapes workspace: ");
            push_str(&mut m, path);
            Err(ToolError::Denied(m))
        },
    }
}

fn aux_match_exec(path: &str, aux_roots: &[String], aux_canonical: &[String]) -> (r: Option<String>)
    ensures
        match aux_match(path@, views(aux_roots@), views(aux_canonical@)) {
            Some(rel) => r matches Some(x) && x@ == rel,
            None => r is None,
        },
{
    let ghost ar = views(aux_roots@);
    let ghost ac = views(aux_canonical@);
    let mut i: usize = 0;
    assert(ar.subrange(0, 0) =~= Seq::<Seq<char>>::empty());
    while i < aux_roots.len()
        invariant
            i <= aux_roots@.len(),
            ar == views(aux_roots@),
            ac == views(aux_canonical@),
            aux_match(path@, ar.subrange(0, i as int), ac) is None,
        decreases aux_roots@.len() - i,
    {
        let ghost pre = ar.subrange(0, i + 1);
        assert(pre.drop_last() =~= ar.subrange(0, i as int));
        assert(pre[i as int] == aux_roots@[i as int]@);
        let found = match strip_path_prefix(path, aux_roots[i].as_str()) {
            Some(rel) => Some(rel),
            None => if i < aux_canonical.len() {
                assert(ac[i as int] == aux_canonical@[i as int]@);
                strip_path_prefix(path, aux_canonical[i].as_str())
            } else {
                None
            },
        };
        if let Some(rel) = found {
            proof { lemma_aux_match_prefix(path@, ar, ac, i as int + 1); }
            return Some(rel);
        }
        i = i + 1;
    }
    assert(ar.subrange(0, aux_roots@.len() as int) =~= ar);
    None
}

proof fn lemma_aux_match_prefix(path: Seq<char>, ar: Seq<Seq<char>>, ac: Seq<Seq<char>>, k: int)
    requires
        0 <= k <= ar.len(),
        aux_match(path, ar.subrange(0, k), ac) is Some,
    ensures
        aux_match(path, ar, ac) == aux_match(path, ar.subrange(0, k), ac),
    decreases ar.len() - k,
{
    if k < ar.len() {
        assert(ar.subrange(0, k + 1).drop_last() =~= ar.subrange(0, k));
        lemma_aux_match_prefix(path, ar, ac, k + 1);
    } else {
        assert(ar.subrange(0, k) =~= ar);
    }
}

fn has_parent(p: &str) -> (r: bool)
    ensures
        r == has_parent_component(p@),
{
    let cs = path_components(p);
    let ghost cv = cs@.map_values(|x: String| x@);
    let dd = String::from_str("..");
    proof { reveal_strlit(".."); assert(".."@ =~= seq!['.', '.']); }
    let mut i: usize = 0;
    while i < cs.len()
        invariant
            i <= cs@.len(),
            cv == cs@.map_values(|x: String| x@),
            cv == components(p@),
            dd@ == seq!['.', '.'],
            forall|j: int| 0 <= j < i ==> cv[j] != seq!['.', '.'],
        decreases cs@.len() - i,
    {
        if cs[i] == dd {
            assert(components(p@)[i as int] == seq!['.', '.']);
            return true;
        }
        i = i + 1;
    }
    false
}

/// Resolve where a path is written (see `write_resolution`), given the
/// canonical form of each auxiliary root.
pub fn write_path_resolution(path: &str, root: &str, aux_roots: &[String], aux_canonical: &[String]) -> (r: Result<(String, bool), ToolError>)
    ensures
        match write_resolution(path@, root@, views(aux_roots@), views(aux_canonical@)) {
            Ok((p, a)) => r matches Ok((x, b)) && x@ == p && b == a,
            Err(m) => r matches Err(ToolError::Denied(x)) && x@ == m,
        },
{
    let pc = crate::text::chars_of(path);
    if !(pc.len() > 0 && pc[0] == '/') {
        return workspace_write_exec(path, path);
    }
    if let Some(rel) = strip_path_prefix(path, root) {
        return workspace_write_exec(path, rel.as_str());
    }
    if let Some(rel) = strip_path_prefix(path, "/workspace/") {
        return workspace_write_exec(path, rel.as_str());
    }
    if let Some(rel) = strip_path_prefix(path, "/workspace") {
        return workspace_write_exec(path, rel.as_str());
    }
    match aux_match_exec(path, aux_roots, aux_canonical) {
        Some(rel) => if has_parent(rel.as_str()) {
            let mut m = String::from_str("path escapes auxiliary root: ");
            push_str(&mut m, path);
            Err(ToolError::Denied(m))
        } else {
            Ok((rel, true))
        },
        None => {
            let mut m = String::from_str("path not in workspace or auxiliary roots: ");
            push_str(&mut m, path);
            Err(ToolError::Denied(m))
        },
    }
}

/// The paths checked for symlinks before writing `rel` under `base`: each
/// prefix of its components, joined onto `base`.
pub open spec fn symlink_checks(base: Seq<char>, comps: Seq<Seq<char>>) -> Seq<Seq<char>>
    decreases comps.len(),
{
    if comps.len() == 0 {
        Seq::empty()
    } else {
        let rest = symlink_checks(base, comps.drop_last());
        let prev = if rest.len() == 0 { base } else { rest.last() };
        rest.push(path_join(prev, comps.last()))
    }
}

/// The paths to check for symlinks before writing `rel` under `base` (see
/// `symlink_checks`): a write is refused when one of them is a symlink.
pub fn symlink_check_paths(base: &str, rel: &str) -> (r: Vec<String>)
    ensures
        views(r@) == symlink_checks(base@, components(rel@)),
{
    let cs = path_components(rel);
    let ghost cv = cs@.map_values(|x: String| x@);
    let mut out: Vec<String> = Vec::new();
    let mut current = String::from_str(base);
    let mut i: usize = 0;
    assert(cv.subrange(0, 0) =~= Seq::<Seq<char>>::empty());
    while i < cs.len()
        invariant
            i <= cs@.len(),
            cv == cs@.map_values(|x: String| x@),
            cv == components(rel@),
            views(out@) == symlink_checks(base@, cv.subrange(0, i as int)),
            current@ == (if i == 0 { base@ } else { views(out@).last() }),
            views(out@).len() == i,
        decreases cs@.len() - i,
    {
        let ghost pre = cv.subrange(0, i + 1);
        assert(pre.drop_last() =~= cv.subrange(0, i as int));
        assert(pre.last() == cs@[i as int]@);
        let next = join_path(current.as_str(), cs[i].as_str());
        proof { lemma_views_push(out@, next); }
        out.push(next);
        current = join_path(current.as_str(), cs[i].as_str());
        i = i + 1;
    }
    assert(cv.subrange(0, cs@.len() as int) =~= cv);
    out
}

/// The message of a path with a symlink in it.
pub fn symlink_refusal(path: &str) -> (r: ToolError)
    ensures
        r matches ToolError::Denied(m) && m@ == "path contains symlink: "@ + path@,
{
    let mut m = String::from_str("path contains symlink: ");
    push_str(&mut m, path);
    ToolError::Denied(m)
}

/// The report of a write.
pub open spec fn write_report_text(bytes: nat, path: Seq<char>) -> Seq<char> {
    "Wrote "@ + decimal(bytes) + " bytes to "@ + path
}

/// The report of writing `content` to `path` (its size in bytes).
pub fn write_report(content: &str, path: &str) -> (r: String)
    ensures
        r@ == write_report_text(byte_len(content@), path@),
{
    let mut r = String::from_str("Wrote ");
    push_decimal(&mut r, str_byte_len(content) as u64);
    push_str(&mut r, " bytes to ");
    push_str(&mut r, path);
    r
}

/// A fresh name for the temporary file a workspace write goes through.
pub fn temp_write_name() -> (r: String)
    ensures
        exists|id: Seq<char>| r@ == ".duga-write-"@ + id + ".tmp"@,
{
    let id = new_session_id();
    let mut r = String::from_str(".duga-write-");
    push_str(&mut r, id.as_str());
    push_str(&mut r, ".tmp");
    r
}

/// The write tool: writes files of the workspace, or of auxiliary roots
/// named by absolute paths.
#[derive(Debug, Clone, Default)]
pub struct WriteTool {
    aux_roots: Vec<String>,
}

impl WriteTool {
    pub closed spec fn aux_roots(self) -> Seq<Seq<char>> {
        views(self.aux_roots@)
    }

    /// A write tool with no auxiliary roots.
    pub fn new() -> (r: Self)
        ensures
            r.aux_roots() == Seq::<Seq<char>>::empty(),
    {
        let r = WriteTool { aux_roots: Vec::new() };
        assert(views(r.aux_roots@) =~= Seq::<Seq<char>>::empty());
        r
    }

    /// Set the auxiliary roots writes may go to.
    pub fn with_aux_roots(self, paths: Vec<String>) -> (r: Self)
        ensures
            r.aux_roots() == views(paths@),
    {
        WriteTool { aux_roots: paths }
    }

    /// The auxiliary roots.
    pub fn aux_root_paths(&self) -> (r: &[String])
        ensures
            views(r@) == self.aux_roots(),
    {
        self.aux_roots.as_slice()
    }

    /// Resolve where `path` is written, for a workspace whose root is
    /// `root` (see `write_resolution`). The canonical forms of the
    /// auxiliary roots come from the file system, so the contract holds for
    /// whatever they were.
    pub fn resolve_write_path(&self, root: &str, path: &str) -> (r: Result<(String, bool), ToolError>)
        ensures
            exists|aux_canonical: Seq<Seq<char>>|
                aux_canonical.len() == self.aux_roots().len()
                && #[trigger] write_resolution(path@, root@, self.aux_roots(), aux_canonical) == match r {
                    Ok((p, a)) => Ok((p@, a)),
                    Err(ToolError::Denied(m)) => Err(m@),
                    Err(_) => Err(Seq::empty()),
                },
            r is Ok || r is Err && r->Err_0 is Denied,
    {
        let mut aux_canonical: Vec<String> = Vec::new();
        let mut i: usize = 0;
        while i < self.aux_roots.len()
            invariant
                i <= self.aux_roots@.len(),
                aux_canonical@.len() == i,
            decreases self.aux_roots@.len() - i,
        {
            let c = match canonicalize_path(self.aux_roots[i].as_str()) {
                Some(c) => c,
                None => self.aux_roots[i].clone(),
            };
            aux_canonical.push(c);
            i = i + 1;
        }
        let r = write_path_resolution(path, root, self.aux_roots.as_slice(), aux_canonical.as_slice());
        assert(write_resolution(path@, root@, self.aux_roots(), views(aux_canonical@)) == match r {
            Ok((p, a)) => Ok((p@, a)),
            Err(ToolError::Denied(m)) => Err(m@),
            Err(_) => Err(Seq::<char>::empty()),
        });
        r
    }
}

impl Tool for WriteTool {
    fn name(&self) -> (r: &str)
        ensures
            r@ == "write"@,
    {
        "write"
    }

    fn description(&self) -> (r: &str)
        ensures
            r@ == "Write content to a file"@,
    {
        "Write content to a file"
    }
}

} // verus!
