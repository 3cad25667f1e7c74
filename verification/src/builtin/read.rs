//! The `read` tool: where a path is looked for (the workspace, then the
//! auxiliary roots, trying the ways an absolute path may point into
//! them), and how the bytes read are shown. Reading the file is the
//! frontend's work.
use vstd::prelude::*;
use vstd::string::StringExecFns;
use crate::sandbox::workspace::{canonicalize_path, components, join_path, path_components, path_join, resolve_relative, resolve_spec, strip_path_prefix, strip_prefix_spec};
use crate::text::{decimal, join, join_strings, lemma_views_push, push_char, push_decimal, push_str, views};
use crate::tools::error::ToolError;
use crate::tools::tool::Tool;

verus! {

/// Arguments of a `read` call.
#[derive(Debug, Clone)]
pub struct ReadArgs {
    /// Brief human-readable description of what this step does.
    pub label: String,
    pub path: String,
    pub offset: Option<u64>,
    pub limit: Option<u64>,
}

/// A place where a path may be found, in the order they are tried.
#[derive(Debug, Clone, PartialEq, Eq)]
pub enum ReadCandidate {
    /// This path inside the workspace (already resolved), if it exists.
    Workspace(String),
    /// This relative path under any auxiliary root where it is a file or a
    /// directory.
    Aux(String),
    /// This relative path under the auxiliary root with this index, if it
    /// is a file or a directory there.
    AuxRoot(usize, String),
}

/// A candidate as plain values: its kind (0 workspace, 1 any auxiliary
/// root, 2 the given auxiliary root), the root index, and the path.
pub open spec fn candidate_view(c: ReadCandidate) -> (int, int, Seq<char>) {
    match c {
        ReadCandidate::Workspace(p) => (0, 0, p@),
        ReadCandidate::Aux(p) => (1, 0, p@),
        ReadCandidate::AuxRoot(i, p) => (2, i as int, p@),
    }
}

/// Whether a path has a `..` component.
pub open spec fn has_parent_component(p: Seq<char>) -> bool {
    exists|i: int| 0 <= i < components(p).len() && #[trigger] components(p)[i] == seq!['.', '.']
}

/// The candidates for a relative path: the workspace (when the path stays
/// inside it), then the auxiliary roots (when it has no `..`).
pub open spec fn relative_candidates(rel: Seq<char>) -> Seq<(int, int, Seq<char>)> {
    let ws = match resolve_spec(rel) {
        Ok(p) => seq![(0int, 0int, p)],
        Err(_) => Seq::empty(),
    };
    if has_parent_component(rel) { ws } else { ws.push((1int, 0int, rel)) }
}

/// The candidates after stripping a prefix from a path, if it has it.
pub open spec fn stripped_candidates(path: Seq<char>, prefix: Seq<char>) -> Seq<(int, int, Seq<char>)> {
    match strip_prefix_spec(path, prefix) {
        Some(rel) => relative_candidates(rel),
        None => Seq::empty(),
    }
}

/// The candidates found by stripping each auxiliary root (in its canonical
/// form) from a path; a rest that goes up with `..` is no candidate, so a
/// read never leaves the auxiliary root.
pub open spec fn aux_root_candidates(path: Seq<char>, aux_canonical: Seq<Seq<char>>) -> Seq<(int, int, Seq<char>)>
    decreases aux_canonical.len(),
{
    if aux_canonical.len() == 0 {
        Seq::empty()
    } else {
        let rest = aux_root_candidates(path, aux_canonical.drop_last());
        let i = aux_canonical.len() - 1;
        match strip_prefix_spec(path, aux_canonical.last()) {
            Some(rel) => if has_parent_component(rel) { rest } else { rest.push((2int, i, rel)) },
            None => rest,
        }
    }
}

/// Where a path is looked for, in order. A relative path: the workspace,
/// then the auxiliary roots. An absolute path: with the workspace root
/// stripped; its canonical form with the root stripped, then with each
/// auxiliary root stripped; with the sandbox mount `/workspace` stripped
/// (tried twice, as `/workspace/` and `/workspace`); with each auxiliary
/// root stripped.
pub open spec fn read_candidates_of(path: Seq<char>, root: Seq<char>, canonical: Option<Seq<char>>, aux_canonical: Seq<Seq<char>>) -> Seq<(int, int, Seq<char>)> {
    if !(path.len() > 0 && path[0] == '/') {
        relative_candidates(path)
    } else {
        let by_root = stripped_candidates(path, root);
        let by_canonical = match canonical {
            Some(c) => stripped_candidates(c, root) + aux_root_candidates(c, aux_canonical),
            None => Seq::empty(),
        };
        let by_mount = stripped_candidates(path, "/workspace/"@) + stripped_candidates(path, "/workspace"@);
        by_root + by_canonical + by_mount + aux_root_candidates(path, aux_canonical)
    }
}

fn has_parent_exec(p: &str) -> (r: bool)
    ensures
        r == has_parent_component(p@),
{
    let cs = path_components(p);
    let ghost cv = cs@.map_values(|x: String| x@);
    let dd = String::from_str("..");
    proof { reveal_strlit(".."); assert(".."@ =~= seq!['.', '.']); }
    let mut i: usize = 0;
    while i < cs.len()
        invariant
            i <= cs@.len(),
            cv == cs@.map_values(|x: String| x@),
            cv == components(p@),
            dd@ == seq!['.', '.'],
            forall|j: int| 0 <= j < i ==> cv[j] != seq!['.', '.'],
        decreases cs@.len() - i,
    {
        if cs[i] == dd {
            assert(components(p@)[i as int] == seq!['.', '.']);
            return true;
        }
        i = i + 1;
    }
    false
}

fn views_of(v: &Vec<ReadCandidate>) -> (r: Ghost<Seq<(int, int, Seq<char>)>>)
    ensures
        r@ == v@.map_values(|c: ReadCandidate| candidate_view(c)),
{
    Ghost(v@.map_values(|c: ReadCandidate| candidate_view(c)))
}

fn push_relative(out: &mut Vec<ReadCandidate>, rel: &str)
    ensures
        final(out)@.map_values(|c: ReadCandidate| candidate_view(c))
            == old(out)@.map_values(|c: ReadCandidate| candidate_view(c)) + relative_candidates(rel@),
{
    let ghost before = out@.map_values(|c: ReadCandidate| candidate_view(c));
    match resolve_relative(rel) {
        Ok(p) => {
            out.push(ReadCandidate::Workspace(p));
        },
        Err(_) => {},
    }
    let ghost mid = out@.map_values(|c: ReadCandidate| candidate_view(c));
    let ghost ws = match resolve_spec(rel@) { Ok(p) => seq![(0int, 0int, p)], Err(_) => Seq::empty() };
    assert(mid =~= before + ws);
    if !has_parent_exec(rel) {
        out.push(ReadCandidate::Aux(String::from_str(rel)));
        assert(out@.map_values(|c: ReadCandidate| candidate_view(c)) =~= before + ws.push((1int, 0int, rel@)));
    }
}

fn push_stripped(out: &mut Vec<ReadCandidate>, path: &str, prefix: &str)
    ensures
        final(out)@.map_values(|c: ReadCandidate| candidate_view(c))
            == old(out)@.map_values(|c: ReadCandidate| candidate_view(c)) + stripped_candidates(path@, prefix@),
{
    match strip_path_prefix(path, prefix) {
        Some(rel) => push_relative(out, rel.as_str()),
        None => {
            assert(out@.map_values(|c: ReadCandidate| candidate_view(c)) + Seq::<(int, int, Seq<char>)>::empty()
                =~= out@.map_values(|c: ReadCandidate| candidate_view(c)));
        },
    }
}

fn push_aux_roots(out: &mut Vec<ReadCandidate>, path: &str, aux_canonical: &[String])
    ensures
        final(out)@.map_values(|c: ReadCandidate| candidate_view(c))
            == old(out)@.map_values(|c: ReadCandidate| candidate_view(c)) + aux_root_candidates(path@, views(aux_canonical@)),
{
    let ghost before = out@.map_values(|c: ReadCandidate| candidate_view(c));
    let ghost av = views(aux_canonical@);
    let mut i: usize = 0;
    assert(av.subrange(0, 0) =~= Seq::<Seq<char>>::empty());
    assert(before + Seq::<(int, int, Seq<char>)>::empty() =~= before);
    while i < aux_canonical.len()
        invariant
            i <= aux_canonical@.len(),
            av == views(aux_canonical@),
            out@.map_values(|c: ReadCandidate| candidate_view(c)) == before + aux_root_candidates(path@, av.subrange(0, i as int)),
        decreases aux_canonical@.len() - i,
    {
        let ghost cur = out@.map_values(|c: ReadCandidate| candidate_view(c));
        assert(av.subrange(0, i + 1).drop_last() =~= av.subrange(0, i as int));
        assert(av.subrange(0, i + 1).last() == aux_canonical@[i as int]@);
        match strip_path_prefix(path, aux_canonical[i].as_str()) {
            Some(rel) => {
                if !has_parent_exec(rel.as_str()) {
                    out.push(ReadCandidate::AuxRoot(i, rel));
                    assert(out@.map_values(|c: ReadCandidate| candidate_view(c)) =~= cur.push((2int, i as int, rel@)));
                }
            },
            None => {},
        }
        i = i + 1;
    }
    assert(av.subrange(0, aux_canonical@.len() as int) =~= av);
}

/// The places a path is looked for (see `read_candidates_of`), given the
/// canonical form of the path (if it has one) and of each auxiliary root.
pub fn read_candidates(path: &str, root: &str, canonical: Option<&str>, aux_canonical: &[String]) -> (r: Vec<ReadCandidate>)
    ensures
        r@.map_values(|c: ReadCandidate| candidate_view(c))
            == read_candidates_of(path@, root@, match canonical { Some(c) => Some(c@), None => None }, views(aux_canonical@)),
{
    let mut out: Vec<ReadCandidate> = Vec::new();
    assert(out@.map_values(|c: ReadCandidate| candidate_view(c)) =~= Seq::<(int, int, Seq<char>)>::empty());
    let pc = crate::text::chars_of(path);
    if !(pc.len() > 0 && pc[0] == '/') {
        push_relative(&mut out, path);
        assert(out@.map_values(|c: ReadCandidate| candidate_view(c)) =~= relative_candidates(path@));
        return out;
    }
    push_stripped(&mut out, path, root);
    let ghost a = out@.map_values(|c: ReadCandidate| candidate_view(c));
    match canonical {
        Some(c) => {
            push_stripped(&mut out, c, root);
            push_aux_roots(&mut out, c, aux_canonical);
        },
        None => {},
    }
    let ghost b = out@.map_values(|c: ReadCandidate| candidate_view(c));
    push_stripped(&mut out, path, "/workspace/");
    push_stripped(&mut out, path, "/workspace");
    let ghost c = out@.map_values(|c: ReadCandidate| candidate_view(c));
    push_aux_roots(&mut out, path, aux_canonical);
    proof {
        let by_canonical = match canonical {
            Some(cn) => stripped_candidates(cn@, root@) + aux_root_candidates(cn@, views(aux_canonical@)),
            None => Seq::<(int, int, Seq<char>)>::empty(),
        };
        assert(b =~= a + by_canonical);
    }
    assert(out@.map_values(|c: ReadCandidate| candidate_view(c))
        =~= read_candidates_of(path@, root@, match canonical { Some(c) => Some(c@), None => None }, views(aux_canonical@)));
    out
}

/// The message of a path found nowhere.
pub open spec fn not_found_text(path: Seq<char>) -> Seq<char> {
    "path not in workspace or auxiliary roots: "@ + path
}

/// The first candidate found, if any.
pub open spec fn first_found(found: Seq<bool>) -> Option<int>
    decreases found.len(),
{
    if found.len() == 0 {
        None
    } else {
        match first_found(found.drop_last()) {
            Some(i) => Some(i),
            None => if found.last() { Some(found.len() - 1) } else { None },
        }
    }
}

/// Where a path resolves to, given which candidates were found: the first
/// found, with whether it is under an auxiliary root; else the path is
/// refused.
pub open spec fn read_resolution(path: Seq<char>, cands: Seq<(int, int, Seq<char>)>, found: Seq<bool>) -> Result<(Seq<char>, bool), Seq<char>> {
    match first_found(found) {
        Some(i) => if i < cands.len() { Ok((cands[i].2, cands[i].0 != 0)) } else { Err(not_found_text(path)) },
        None => Err(not_found_text(path)),
    }
}

/// Resolve a path from the candidates and which of them were found (see
/// `read_resolution`).
pub fn choose_read_path(path: &str, cands: &[ReadCandidate], found: &[bool]) -> (r: Result<(String, bool), ToolError>)
    ensures
        match read_resolution(path@, cands@.map_values(|c: ReadCandidate| candidate_view(c)), found@) {
            Ok((p, aux)) => r matches Ok((x, a)) && x@ == p && a == aux,
            Err(m) => r matches Err(ToolError::Denied(x)) && x@ == m,
        },
{
    let ghost cv = cands@.map_values(|c: ReadCandidate| candidate_view(c));
    let mut i: usize = 0;
    while i < found.len()
        invariant
            i <= found@.len(),
            first_found(found@.subrange(0, i as int)) is None,
        decreases found@.len() - i,
    {
        assert(found@.subrange(0, i + 1).drop_last() =~= found@.subrange(0, i as int));
        if found[i] {
            assert(first_found(found@.subrange(0, i + 1)) == Some(i as int));
            proof { lemma_first_found_prefix(found@, i as int + 1); }
            if i < cands.len() {
                let (p, aux) = match &cands[i] {
                    ReadCandidate::Workspace(p) => (p.clone(), false),
                    ReadCandidate::Aux(p) => (p.clone(), true),
                    ReadCandidate::AuxRoot(_, p) => (p.clone(), true),
                };
                return Ok((p, aux));
            }
            let mut m = String::from_str("path not in workspace or auxiliary roots: ");
            push_str(&mut m, path);
            return Err(ToolError::Denied(m));
        }
        i = i + 1;
    }
    assert(found@.subrange(0, i as int) =~= found@);
    let mut m = String::from_str("path not in workspace or auxiliary roots: ");
    push_str(&mut m, path);
    Err(ToolError::Denied(m))
}

/// A prefix that has a found candidate gives the same first one as the whole.
proof fn lemma_first_found_prefix(found: Seq<bool>, k: int)
    requires
        0 <= k <= found.len(),
        first_found(found.subrange(0, k)) is Some,
    ensures
        first_found(found) == first_found(found.subrange(0, k)),
    decreases found.len() - k,
{
    if k < found.len() {
        assert(found.subrange(0, k + 1).drop_last() =~= found.subrange(0, k));
        lemma_first_found_prefix(found, k + 1);
    } else {
        assert(found.subrange(0, k) =~= found);
    }
}

/// Whether a path exists (`Path::exists`). It depends on the file system,
/// so nothing is stated of it.
#[verifier::external_body]
pub(crate) fn path_exists(path: &str) -> bool {
    std::path::Path::new(path).exists()
}

/// Whether a path is a regular file (`Path::is_file`). It depends on the
/// file system, so nothing is stated of it.
#[verifier::external_body]
pub(crate) fn path_is_file(path: &str) -> bool {
    std::path::Path::new(path).is_file()
}

/// Whether a path is a directory (`Path::is_dir`). It depends on the file
/// system, so nothing is stated of it.
#[verifier::external_body]
pub(crate) fn path_is_dir(path: &str) -> bool {
    std::path::Path::new(path).is_dir()
}

/// The read tool: reads files of the workspace, or of auxiliary roots
/// (such as the bot's data directory).
#[derive(Debug, Clone, Default)]
pub struct ReadTool {
    aux_roots: Vec<String>,
}

impl ReadTool {
    pub closed spec fn aux_roots(self) -> Seq<Seq<char>> {
        views(self.aux_roots@)
    }

    /// A read tool with no auxiliary roots.
    pub fn new() -> (r: Self)
        ensures
            r.aux_roots() == Seq::<Seq<char>>::empty(),
    {
        let r = ReadTool { aux_roots: Vec::new() };
        assert(views(r.aux_roots@) =~= Seq::<Seq<char>>::empty());
        r
    }

    /// Set the auxiliary roots reads may come from.
    pub fn with_aux_roots(self, paths: Vec<String>) -> (r: Self)
        ensures
            r.aux_roots() == views(paths@),
    {
        ReadTool { aux_roots: paths }
    }

    /// The auxiliary roots.
    pub fn aux_root_paths(&self) -> (r: &[String])
        ensures
            views(r@) == self.aux_roots(),
    {
        self.aux_roots.as_slice()
    }

    /// Whether `rel` exists under one of the auxiliary roots, as a file or
    /// a directory; with no auxiliary roots it does not. (What exists comes
    /// from the file system.)
    fn in_some_aux_root(&self, rel: &str) -> (r: bool)
        ensures
            self.aux_roots().len() == 0 ==> !r,
    {
        let mut i: usize = 0;
        while i < self.aux_roots.len()
            decreases self.aux_roots@.len() - i,
        {
            let p = join_path(self.aux_roots[i].as_str(), rel);
            if path_is_file(p.as_str()) || path_is_dir(p.as_str()) {
                return true;
            }
            i = i + 1;
        }
        false
    }

    /// Find where `path` points, for a workspace whose root is `root`: the
    /// first of its candidates (see `read_candidates_of`) that exists, with
    /// whether it is under an auxiliary root; else the path is refused.
    /// Whether each candidate exists, and the canonical forms, come from
    /// the file system, so the contract holds for whatever they were.
    pub fn resolve_path(&self, root: &str, path: &str) -> (r: Result<(String, bool), ToolError>)
        ensures
            exists|canonical: Option<Seq<char>>, aux_canonical: Seq<Seq<char>>, found: Seq<bool>|
                aux_canonical.len() == self.aux_roots().len()
                && #[trigger] read_resolution(path@, read_candidates_of(path@, root@, canonical, aux_canonical), found) == match r {
                    Ok((p, a)) => Ok((p@, a)),
                    Err(ToolError::Denied(m)) => Err(m@),
                    Err(_) => Err(Seq::empty()),
                },
            r is Ok || r is Err && r->Err_0 is Denied,
    {
        let canonical = canonicalize_path(path);
        let mut aux_canonical: Vec<String> = Vec::new();
        let mut i: usize = 0;
        while i < self.aux_roots.len()
            invariant
                i <= self.aux_roots@.len(),
                aux_canonical@.len() == i,
            decreases self.aux_roots@.len() - i,
        {
            let c = match canonicalize_path(self.aux_roots[i].as_str()) {
                Some(c) => c,
                None => self.aux_roots[i].clone(),
            };
            aux_canonical.push(c);
            i = i + 1;
        }
        let cands = match &canonical {
            Some(c) => read_candidates(path, root, Some(c.as_str()), aux_canonical.as_slice()),
            None => read_candidates(path, root, None, aux_canonical.as_slice()),
        };
        let mut found: Vec<bool> = Vec::new();
        let mut k: usize = 0;
        while k < cands.len()
            invariant
                k <= cands@.len(),
                found@.len() == k,
            decreases cands@.len() - k,
        {
            let ok = match &cands[k] {
                ReadCandidate::Workspace(p) => path_exists(join_path(root, p.as_str()).as_str()),
                ReadCandidate::Aux(p) => self.in_some_aux_root(p.as_str()),
                ReadCandidate::AuxRoot(j, p) => if *j < self.aux_roots.len() {
                    let full = join_path(self.aux_roots[*j].as_str(), p.as_str());
                    path_is_file(full.as_str()) || path_is_dir(full.as_str())
                } else {
                    false
                },
            };
            found.push(ok);
            k = k + 1;
        }
        let r = choose_read_path(path, cands.as_slice(), found.as_slice());
        let ghost cn = match canonical { Some(c) => Some(c@), None => None };
        assert(read_resolution(path@, read_candidates_of(path@, root@, cn, views(aux_canonical@)), found@) == match r {
            Ok((p, a)) => Ok((p@, a)),
            Err(ToolError::Denied(m)) => Err(m@),
            Err(_) => Err(Seq::<char>::empty()),
        });
        r
    }
}

/// Bytes read when no limit is given.
pub open spec fn default_read_limit() -> u64 {
    262144
}

/// The most bytes one read returns.
pub open spec fn max_read_limit() -> u64 {
    4194304
}

/// How many bytes a read returns: the limit asked for (256 KiB when none),
/// at most 4 MiB.
pub fn read_limit(limit: Option<u64>) -> (r: u64)
    ensures
        r == (match limit { Some(l) => if l < max_read_limit() { l } else { max_read_limit() }, None => default_read_limit() }),
{
    match limit {
        Some(l) => if l < 4194304 { l } else { 4194304 },
        None => 262144,
    }
}

/// The bytes looked at to tell a binary file: the first 8 KiB of the read.
pub fn detect_limit(limit: u64) -> (r: u64)
    ensures
        r == (if limit < 8192 { limit } else { 8192 }),
{
    if limit < 8192 { limit } else { 8192 }
}

/// The part of an auxiliary file a read returns: from `offset` (nothing
/// when past the end), at most `limit` bytes.
pub fn aux_window(len: usize, offset: Option<u64>, limit: Option<u64>) -> (r: (usize, usize))
    ensures
        ({
            let o = match offset { Some(o) => o as int, None => 0 };
            let l = (if limit is Some && limit->0 < max_read_limit() { limit->0 } else if limit is Some { max_read_limit() } else { default_read_limit() }) as int;
            &&& o >= len ==> r.0 == r.1
            &&& o < len ==> r.0 == o && r.1 == (if o + l < len { o + l } else { len as int })
            &&& r.0 <= r.1 <= len
        }),
{
    let o: u64 = match offset { Some(o) => o, None => 0 };
    let l = read_limit(limit);
    if o >= len as u64 {
        return (len, len);
    }
    let start = o as usize;
    let rest = len - start;
    if (l as u128) < (rest as u128) {
        (start, start + l as usize)
    } else {
        (start, len)
    }
}

/// A lowercase hexadecimal digit.
pub open spec fn hex_digit(d: nat) -> char {
    if d < 10 { (48 + d) as char } else { (87 + d) as char }
}

/// A byte as two lowercase hexadecimal digits.
pub open spec fn hex_byte(b: u8) -> Seq<char> {
    seq![hex_digit((b / 16) as nat), hex_digit((b % 16) as nat)]
}

fn hex_digit_exec(d: u8) -> (c: char)
    requires
        d < 16,
    ensures
        c == hex_digit(d as nat),
{
    if d < 10 { (48u8 + d) as char } else { (87u8 + d) as char }
}

/// How a binary file is shown: its size and its first 64 bytes in hex.
pub open spec fn binary_preview_text(bytes: Seq<u8>) -> Seq<char> {
    let shown = if bytes.len() < 64 { bytes } else { bytes.subrange(0, 64) };
    "<binary file: "@ + decimal(bytes.len()) + " bytes, first 64 bytes hex: "@
        + join(shown.map_values(|b: u8| hex_byte(b)), " "@) + ">"@
}

/// What a read of these bytes shows when they are binary (they hold a
/// zero byte): `None` for text.
pub fn binary_preview(bytes: &[u8]) -> (r: Option<String>)
    ensures
        match r {
            Some(t) => bytes@.contains(0u8) && t@ == binary_preview_text(bytes@),
            None => !bytes@.contains(0u8),
        },
{
    let mut i: usize = 0;
    let mut zero = false;
    while i < bytes.len()
        invariant
            i <= bytes@.len(),
            !zero ==> forall|j: int| 0 <= j < i ==> bytes@[j] != 0u8,
            zero ==> bytes@.contains(0u8),
        decreases bytes@.len() - i,
    {
        if bytes[i] == 0 {
            zero = true;
            assert(bytes@[i as int] == 0u8);
        }
        i = i + 1;
    }
    if !zero {
        return None;
    }
    let n: usize = if bytes.len() < 64 { bytes.len() } else { 64 };
    let ghost shown = if bytes@.len() < 64 { bytes@ } else { bytes@.subrange(0, 64) };
    let ghost hx = shown.map_values(|b: u8| hex_byte(b));
    let mut parts: Vec<String> = Vec::new();
    let mut k: usize = 0;
    while k < n
        invariant
            k <= n,
            n as int == shown.len(),
            shown == (if bytes@.len() < 64 { bytes@ } else { bytes@.subrange(0, 64) }),
            hx == shown.map_values(|b: u8| hex_byte(b)),
            n <= bytes@.len(),
            views(parts@) == hx.subrange(0, k as int),
        decreases n - k,
    {
        let b = bytes[k];
        let mut h = String::new();
        proof { reveal_strlit(""); }
        push_char(&mut h, hex_digit_exec(b / 16));
        push_char(&mut h, hex_digit_exec(b % 16));
        assert(h@ =~= hex_byte(b));
        assert(shown[k as int] == b);
        proof { lemma_views_push(parts@, h); }
        parts.push(h);
        assert(views(parts@) =~= hx.subrange(0, k + 1));
        k = k + 1;
    }
    assert(hx.subrange(0, n as int) =~= hx);
    let mut t = String::from_str("<binary file: ");
    push_decimal(&mut t, bytes.len() as u64);
    push_str(&mut t, " bytes, first 64 bytes hex: ");
    push_str(&mut t, join_strings(&parts, " ").as_str());
    push_str(&mut t, ">");
    Some(t)
}

impl Tool for ReadTool {
    fn name(&self) -> (r: &str)
        ensures
            r@ == "read"@,
    {
        "read"
    }

    fn description(&self) -> (r: &str)
        ensures
            r@ == "Read a file from the workspace"@,
    {
        "Read a file from the workspace"
    }
}

} // verus!
verus! {

/// Whether no candidate under an auxiliary root goes up with `..`.
pub open spec fn aux_candidates_stay_inside(cands: Seq<(int, int, Seq<char>)>) -> bool {
    forall|i: int| 0 <= i < cands.len() && #[trigger] cands[i].0 != 0 ==> !has_parent_component(cands[i].2)
}

proof fn lemma_aux_root_candidates_inside(path: Seq<char>, aux_canonical: Seq<Seq<char>>)
    ensures
        aux_candidates_stay_inside(aux_root_candidates(path, aux_canonical)),
    decreases aux_canonical.len(),
{
    if aux_canonical.len() > 0 {
        lemma_aux_root_candidates_inside(path, aux_canonical.drop_last());
    }
}

proof fn lemma_concat_inside(a: Seq<(int, int, Seq<char>)>, b: Seq<(int, int, Seq<char>)>)
    requires
        aux_candidates_stay_inside(a),
        aux_candidates_stay_inside(b),
    ensures
        aux_candidates_stay_inside(a + b),
{
    assert forall|i: int| 0 <= i < (a + b).len() && #[trigger] (a + b)[i].0 != 0 implies !has_parent_component((a + b)[i].2) by {
        if i < a.len() {
            assert((a + b)[i] == a[i]);
        } else {
            assert((a + b)[i] == b[i - a.len()]);
        }
    }
}

proof fn lemma_stripped_inside(path: Seq<char>, prefix: Seq<char>)
    ensures
        aux_candidates_stay_inside(stripped_candidates(path, prefix)),
{
}

/// Reads stay inside the workspace or an auxiliary root: no candidate
/// looked for under an auxiliary root has a `..` component.
pub proof fn lemma_read_candidates_stay_inside(
    path: Seq<char>,
    root: Seq<char>,
    canonical: Option<Seq<char>>,
    aux_canonical: Seq<Seq<char>>,
)
    ensures
        aux_candidates_stay_inside(read_candidates_of(path, root, canonical, aux_canonical)),
{
    if path.len() > 0 && path[0] == '/' {
        lemma_stripped_inside(path, root);
        lemma_stripped_inside(path, "/workspace/"@);
        lemma_stripped_inside(path, "/workspace"@);
        lemma_aux_root_candidates_inside(path, aux_canonical);
        let by_root = stripped_candidates(path, root);
        let by_canonical = match canonical {
            Some(c) => stripped_candidates(c, root) + aux_root_candidates(c, aux_canonical),
            None => Seq::empty(),
        };
        match canonical {
            Some(c) => {
                lemma_stripped_inside(c, root);
                lemma_aux_root_candidates_inside(c, aux_canonical);
                lemma_concat_inside(stripped_candidates(c, root), aux_root_candidates(c, aux_canonical));
            },
            None => {},
        }
        let by_mount = stripped_candidates(path, "/workspace/"@) + stripped_candidates(path, "/workspace"@);
        lemma_concat_inside(stripped_candidates(path, "/workspace/"@), stripped_candidates(path, "/workspace"@));
        lemma_concat_inside(by_root, by_canonical);
        lemma_concat_inside(by_root + by_canonical, by_mount);
        lemma_concat_inside(by_root + by_canonical + by_mount, aux_root_candidates(path, aux_canonical));
    }
}

} // verus!
