//! Workspace path resolution: every path a tool touches is made relative to
//! the workspace root and may never escape it.
use vstd::prelude::*;
use vstd::string::StringExecFns;
use crate::sandbox::error::WorkspaceError;
use crate::text::{chars_of, eq_chars, join, push_char, push_str, string_of};

verus! {

/// The `/`-separated segments of a path, empty ones included.
pub open spec fn segments(s: Seq<char>) -> Seq<Seq<char>>
    decreases s.len(),
{
    if s.len() == 0 {
        seq![Seq::empty()]
    } else if s.last() == '/' {
        segments(s.drop_last()).push(Seq::empty())
    } else {
        let segs = segments(s.drop_last());
        segs.update(segs.len() - 1, segs.last().push(s.last()))
    }
}

proof fn lemma_segments_nonempty(s: Seq<char>)
    ensures
        segments(s).len() >= 1,
    decreases s.len(),
{
    if s.len() > 0 {
        lemma_segments_nonempty(s.drop_last());
    }
}

/// A segment that names something: neither empty nor `.`.
pub open spec fn is_component(seg: Seq<char>) -> bool {
    seg.len() > 0 && seg != seq!['.']
}

/// The segments that name something, in order (as `Path::components`
/// yields them for a relative Unix path, `.` and empty segments dropped).
pub open spec fn keep_components(segs: Seq<Seq<char>>) -> Seq<Seq<char>>
    decreases segs.len(),
{
    if segs.len() == 0 {
        Seq::empty()
    } else if is_component(segs.last()) {
        keep_components(segs.drop_last()).push(segs.last())
    } else {
        keep_components(segs.drop_last())
    }
}

/// The components of a relative path.
pub open spec fn components(s: Seq<char>) -> Seq<Seq<char>> {
    keep_components(segments(s))
}

/// How a workspace-relative path resolves: `Ok` with the normalized path,
/// or `Err` when it is absolute or goes up with `..`.
pub open spec fn resolve_spec(path: Seq<char>) -> Result<Seq<char>, ()> {
    if path.len() == 0 {
        Ok(seq!['.'])
    } else if path[0] == '/' {
        Err(())
    } else if components(path).contains(seq!['.', '.']) {
        Err(())
    } else if join(components(path), seq!['/']).len() == 0 {
        Ok(seq!['.'])
    } else {
        Ok(join(components(path), seq!['/']))
    }
}

/// A workspace rooted at a (canonical) directory path.
#[derive(Clone, Debug)]
pub struct Workspace {
    root_path: String,
}

impl Workspace {
    /// A workspace whose root is `root_path`; the caller has checked that it
    /// is an existing directory and canonicalized it.
    pub fn from_root(root_path: String) -> (r: Self)
        ensures
            r.root()@ == root_path@,
    {
        Workspace { root_path }
    }

    /// The root directory.
    pub closed spec fn root(self) -> String {
        self.root_path
    }

    /// Returns the canonicalized root path of this workspace.
    pub fn root_path(&self) -> (r: &String)
        ensures
            r@ == self.root()@,
    {
        &self.root_path
    }

    /// Resolve a workspace-relative path and check that it stays inside the
    /// workspace: absolute paths and `..` components are rejected, `.` and
    /// empty components are dropped, and an empty result is `.`.
    pub fn resolve(&self, relative_path: &str) -> (r: Result<String, WorkspaceError>)
        ensures
            resolve_spec(relative_path@) matches Ok(p) ==> (r matches Ok(x) && x@ == p),
            resolve_spec(relative_path@) is Err ==> (r matches Err(WorkspaceError::PathEscapesWorkspace(x)) && x@ == relative_path@),
    {
        resolve_relative(relative_path)
    }
}

fn flush_segment(comps: &mut Vec<Vec<char>>, seg: Vec<char>)
    ensures
        final(comps)@.map_values(|v: Vec<char>| v@) == if is_component(seg@) {
            old(comps)@.map_values(|v: Vec<char>| v@).push(seg@)
        } else {
            old(comps)@.map_values(|v: Vec<char>| v@)
        },
{
    let dot = chars_of(".");
    proof { reveal_strlit("."); assert(dot@ =~= seq!['.']); }
    if seg.len() > 0 && !eq_chars(&seg, &dot) {
        let ghost before = comps@.map_values(|v: Vec<char>| v@);
        let ghost sv = seg@;
        comps.push(seg);
        assert(comps@.map_values(|v: Vec<char>| v@) =~= before.push(sv));
    }
}

/// Resolve a workspace-relative path (see `Workspace::resolve`).
pub fn resolve_relative(relative_path: &str) -> (r: Result<String, WorkspaceError>)
    ensures
        resolve_spec(relative_path@) matches Ok(p) ==> (r matches Ok(x) && x@ == p),
        resolve_spec(relative_path@) is Err ==> (r matches Err(WorkspaceError::PathEscapesWorkspace(x)) && x@ == relative_path@),
{
    let s = chars_of(relative_path);
    if s.len() == 0 {
        proof { reveal_strlit("."); assert("."@ =~= seq!['.']); }
        return Ok(String::from_str("."));
    }
    if s[0] == '/' {
        return Err(WorkspaceError::PathEscapesWorkspace(String::from_str(relative_path)));
    }
    let mut comps: Vec<Vec<char>> = Vec::new();
    let mut cur: Vec<char> = Vec::new();
    let mut i: usize = 0;
    assert(s@.subrange(0, 0) =~= Seq::<char>::empty());
    while i < s.len()
        invariant
            i <= s@.len(),
            segments(s@.subrange(0, i as int)).len() >= 1,
            cur@ == segments(s@.subrange(0, i as int)).last(),
            comps@.map_values(|v: Vec<char>| v@) == keep_components(segments(s@.subrange(0, i as int)).drop_last()),
        decreases s@.len() - i,
    {
        let ghost pre = s@.subrange(0, i as int);
        let ghost next = s@.subrange(0, i + 1);
        assert(next.drop_last() =~= pre);
        proof { lemma_segments_nonempty(pre); }
        let c = s[i];
        if c == '/' {
            let seg = cur;
            flush_segment(&mut comps, seg);
            cur = Vec::new();
            assert(segments(next).drop_last() =~= segments(pre));
            assert(cur@ =~= segments(next).last());
        } else {
            cur.push(c);
            assert(segments(next).drop_last() =~= segments(pre).drop_last());
        }
        i = i + 1;
    }
    assert(s@.subrange(0, s@.len() as int) =~= s@);
    proof { lemma_segments_nonempty(s@); }
    let ghost segs = segments(s@);
    assert(segs.drop_last().push(segs.last()) =~= segs);
    flush_segment(&mut comps, cur);
    assert(comps@.map_values(|v: Vec<char>| v@) == components(s@));
    // reject `..`
    let mut k: usize = 0;
    let dotdot = chars_of("..");
    proof { reveal_strlit(".."); assert(dotdot@ =~= seq!['.', '.']); }
    while k < comps.len()
        invariant
            k <= comps@.len(),
            dotdot@ == seq!['.', '.'],
            s@ == relative_path@,
            s@.len() > 0 && s@[0] != '/',
            comps@.map_values(|v: Vec<char>| v@) == components(s@),
            forall|j: int| 0 <= j < k ==> comps@[j]@ != seq!['.', '.'],
        decreases comps@.len() - k,
    {
        if eq_chars(&comps[k], &dotdot) {
            proof {
                assert(comps@.map_values(|v: Vec<char>| v@)[k as int] == comps@[k as int]@);
                assert(components(s@)[k as int] == seq!['.', '.']);
            }
            return Err(WorkspaceError::PathEscapesWorkspace(String::from_str(relative_path)));
        }
        k = k + 1;
    }
    assert(!components(s@).contains(seq!['.', '.'])) by {
        if components(s@).contains(seq!['.', '.']) {
            let j = choose|j: int| 0 <= j < components(s@).len() && components(s@)[j] == seq!['.', '.'];
            assert(comps@.map_values(|v: Vec<char>| v@)[j] == comps@[j]@);
            assert(comps@[j]@ == seq!['.', '.']);
        }
    }
    let mut out = String::new();
    let mut m: usize = 0;
    while m < comps.len()
        invariant
            m <= comps@.len(),
            out@ == join(comps@.map_values(|v: Vec<char>| v@).subrange(0, m as int), seq!['/']),
        decreases comps@.len() - m,
    {
        let ghost before = comps@.map_values(|v: Vec<char>| v@).subrange(0, m as int);
        let ghost now = comps@.map_values(|v: Vec<char>| v@).subrange(0, m + 1);
        assert(now.drop_last() =~= before);
        if m > 0 {
            push_char(&mut out, '/');
        }
        let piece = string_of(&comps[m]);
        push_str(&mut out, piece.as_str());
        proof {
            if m == 0 {
                assert(out@ =~= now[0]);
            } else {
                assert(out@ =~= join(before, seq!['/']) + seq!['/'] + now.last());
            }
        }
        m = m + 1;
    }
    assert(comps@.map_values(|v: Vec<char>| v@).subrange(0, comps@.len() as int) =~= components(s@));
    if out.as_str().is_empty() {
        proof { reveal_strlit("."); assert("."@ =~= seq!['.']); }
        Ok(String::from_str("."))
    } else {
        Ok(out)
    }
}

/// A component as it appears in a resolved path: non-empty, not `.`, and
/// without `/`.
pub open spec fn plain_component(c: Seq<char>) -> bool {
    is_component(c) && !c.contains('/')
}

proof fn lemma_segments_append_plain(x: Seq<char>, b: Seq<char>)
    requires
        !b.contains('/'),
    ensures
        segments(x + b) == segments(x).update(segments(x).len() - 1, segments(x).last() + b),
    decreases b.len(),
{
    lemma_segments_nonempty(x);
    if b.len() == 0 {
        assert(x + b =~= x);
        assert(segments(x).last() + b =~= segments(x).last());
        assert(segments(x).update(segments(x).len() - 1, segments(x).last()) =~= segments(x));
    } else {
        let b0 = b.drop_last();
        assert(!b0.contains('/')) by {
            if b0.contains('/') {
                let i = choose|i: int| 0 <= i < b0.len() && b0[i] == '/';
                assert(b[i] == '/');
            }
        }
        lemma_segments_append_plain(x, b0);
        assert((x + b).drop_last() =~= x + b0);
        assert((x + b).last() == b.last());
        assert(b.last() != '/') by {
            assert(b[b.len() - 1] == b.last());
        }
        let s0 = segments(x + b0);
        lemma_segments_nonempty(x + b0);
        assert(segments(x + b) == s0.update(s0.len() - 1, s0.last().push(b.last())));
        assert(s0.last() == segments(x).last() + b0);
        assert(segments(x).last() + b0 + seq![b.last()] =~= segments(x).last() + b);
        assert(s0.last().push(b.last()) =~= segments(x).last() + b);
        assert(segments(x + b) =~= segments(x).update(segments(x).len() - 1, segments(x).last() + b));
    }
}

proof fn lemma_segments_of_join(cs: Seq<Seq<char>>)
    requires
        cs.len() >= 1,
        forall|i: int| 0 <= i < cs.len() ==> plain_component(#[trigger] cs[i]),
    ensures
        segments(join(cs, seq!['/'])) == cs,
    decreases cs.len(),
{
    if cs.len() == 1 {
        assert(join(cs, seq!['/']) == cs[0]);
        lemma_segments_append_plain(Seq::empty(), cs[0]);
        assert(Seq::<char>::empty() + cs[0] =~= cs[0]);
        assert(segments(Seq::<char>::empty()) == seq![Seq::<char>::empty()]);
        assert(Seq::<char>::empty() + cs[0] =~= cs[0]);
        assert(segments(cs[0]) =~= cs);
    } else {
        let prefix = cs.drop_last();
        assert forall|i: int| 0 <= i < prefix.len() implies plain_component(#[trigger] prefix[i]) by {
            assert(prefix[i] == cs[i]);
        }
        lemma_segments_of_join(prefix);
        let a = join(prefix, seq!['/']) + seq!['/'];
        assert(join(cs, seq!['/']) == a + cs.last());
        assert(plain_component(cs[cs.len() - 1]));
        lemma_segments_append_plain(a, cs.last());
        assert(a.drop_last() =~= join(prefix, seq!['/']));
        assert(segments(a) == prefix.push(Seq::empty()));
        assert(Seq::<char>::empty() + cs.last() =~= cs.last());
        assert(segments(a + cs.last()) =~= cs);
    }
}

proof fn lemma_keep_plain_components(cs: Seq<Seq<char>>)
    requires
        forall|i: int| 0 <= i < cs.len() ==> plain_component(#[trigger] cs[i]),
    ensures
        keep_components(cs) == cs,
    decreases cs.len(),
{
    if cs.len() > 0 {
        let prefix = cs.drop_last();
        assert forall|i: int| 0 <= i < prefix.len() implies plain_component(#[trigger] prefix[i]) by {
            assert(prefix[i] == cs[i]);
        }
        lemma_keep_plain_components(prefix);
        assert(plain_component(cs[cs.len() - 1]));
        assert(prefix.push(cs.last()) =~= cs);
    }
}

proof fn lemma_components_are_plain(s: Seq<char>)
    ensures
        forall|i: int| 0 <= i < components(s).len() ==> plain_component(#[trigger] components(s)[i]),
{
    lemma_segments_plain(s);
}

proof fn lemma_segments_plain(s: Seq<char>)
    ensures
        forall|i: int| 0 <= i < segments(s).len() ==> !(#[trigger] segments(s)[i]).contains('/'),
        forall|i: int| 0 <= i < components(s).len() ==> plain_component(#[trigger] components(s)[i]),
    decreases s.len(),
{
    if s.len() > 0 {
        lemma_segments_plain(s.drop_last());
        lemma_segments_nonempty(s.drop_last());
        let p = segments(s.drop_last());
        if s.last() == '/' {
            assert forall|i: int| 0 <= i < segments(s).len() implies !(#[trigger] segments(s)[i]).contains('/') by {
                if i < p.len() {
                    assert(segments(s)[i] == p[i]);
                }
            }
        } else {
            assert forall|i: int| 0 <= i < segments(s).len() implies !(#[trigger] segments(s)[i]).contains('/') by {
                if i < p.len() - 1 {
                    assert(segments(s)[i] == p[i]);
                } else {
                    let seg = p.last().push(s.last());
                    assert(segments(s)[i] == seg);
                    assert(!p[p.len() - 1].contains('/'));
                    if seg.contains('/') {
                        let j = choose|j: int| 0 <= j < seg.len() && seg[j] == '/';
                        if j < seg.len() - 1 {
                            assert(p.last()[j] == '/');
                        }
                    }
                }
            }
        }
    }
    lemma_keep_components_plain(segments(s));
}

proof fn lemma_keep_components_plain(segs: Seq<Seq<char>>)
    requires
        forall|i: int| 0 <= i < segs.len() ==> !(#[trigger] segs[i]).contains('/'),
    ensures
        forall|i: int| 0 <= i < keep_components(segs).len() ==> plain_component(#[trigger] keep_components(segs)[i]),
    decreases segs.len(),
{
    if segs.len() > 0 {
        let prefix = segs.drop_last();
        assert forall|i: int| 0 <= i < prefix.len() implies !(#[trigger] prefix[i]).contains('/') by {
            assert(prefix[i] == segs[i]);
        }
        lemma_keep_components_plain(prefix);
        assert(!segs[segs.len() - 1].contains('/'));
        let kp = keep_components(prefix);
        if is_component(segs.last()) {
            assert forall|i: int| 0 <= i < keep_components(segs).len() implies plain_component(#[trigger] keep_components(segs)[i]) by {
                if i < kp.len() {
                    assert(keep_components(segs)[i] == kp[i]);
                } else {
                    assert(keep_components(segs)[i] == segs.last());
                }
            }
        }
    }
}

/// A resolved path stays inside the workspace and is already resolved: it
/// is relative, has no `..` component, and resolving it again gives it back.
pub proof fn lemma_resolved_path_is_confined(path: Seq<char>)
    ensures
        resolve_spec(path) matches Ok(p) ==> {
            &&& p.len() > 0
            &&& p[0] != '/'
            &&& !components(p).contains(seq!['.', '.'])
            &&& resolve_spec(p) == Ok::<Seq<char>, ()>(p)
        },
{
    if let Ok(p) = resolve_spec(path) {
        if path.len() == 0 || join(components(path), seq!['/']).len() == 0 {
            assert(p == seq!['.']);
            assert(segments(seq!['.']) =~= seq![seq!['.']]) by {
                assert(seq!['.'].drop_last() =~= Seq::<char>::empty());
                assert(segments(Seq::<char>::empty()) == seq![Seq::<char>::empty()]);
            }
            assert(keep_components(seq![seq!['.']]) =~= Seq::<Seq<char>>::empty()) by {
                let one = seq![seq!['.']];
                assert(one.drop_last() =~= Seq::<Seq<char>>::empty());
                assert(one.last() == seq!['.']);
                assert(!is_component(one.last()));
                assert(keep_components(Seq::<Seq<char>>::empty()) == Seq::<Seq<char>>::empty());
            }
            assert(components(p) =~= Seq::<Seq<char>>::empty());
        } else {
            let cs = components(path);
            lemma_components_are_plain(path);
            assert(cs.len() >= 1);
            lemma_segments_of_join(cs);
            lemma_keep_plain_components(cs);
            assert(components(p) == cs);
            assert(p[0] == cs[0][0]) by {
                lemma_join_first(cs);
            }
            assert(cs[0][0] != '/') by {
                assert(plain_component(cs[0]));
                if cs[0][0] == '/' {
                    assert(cs[0].contains('/'));
                }
            }
        }
    }
}

proof fn lemma_join_first(cs: Seq<Seq<char>>)
    requires
        cs.len() >= 1,
        cs[0].len() > 0,
    ensures
        join(cs, seq!['/']).len() > 0,
        join(cs, seq!['/'])[0] == cs[0][0],
    decreases cs.len(),
{
    if cs.len() > 1 {
        let prefix = cs.drop_last();
        assert(prefix[0] == cs[0]);
        lemma_join_first(prefix);
    }
}

/// The components of a path, each as text.
pub fn path_components(path: &str) -> (r: Vec<String>)
    ensures
        r@.map_values(|x: String| x@) == components(path@),
{
    let s = chars_of(path);
    let mut comps: Vec<Vec<char>> = Vec::new();
    let mut cur: Vec<char> = Vec::new();
    let mut i: usize = 0;
    assert(s@.subrange(0, 0) =~= Seq::<char>::empty());
    while i < s.len()
        invariant
            i <= s@.len(),
            segments(s@.subrange(0, i as int)).len() >= 1,
            cur@ == segments(s@.subrange(0, i as int)).last(),
            comps@.map_values(|v: Vec<char>| v@) == keep_components(segments(s@.subrange(0, i as int)).drop_last()),
        decreases s@.len() - i,
    {
        let ghost pre = s@.subrange(0, i as int);
        let ghost next = s@.subrange(0, i + 1);
        assert(next.drop_last() =~= pre);
        proof { lemma_segments_nonempty(pre); }
        let c = s[i];
        if c == '/' {
            let seg = cur;
            flush_segment(&mut comps, seg);
            cur = Vec::new();
            assert(segments(next).drop_last() =~= segments(pre));
            assert(cur@ =~= segments(next).last());
        } else {
            cur.push(c);
            assert(segments(next).drop_last() =~= segments(pre).drop_last());
        }
        i = i + 1;
    }
    assert(s@.subrange(0, s@.len() as int) =~= s@);
    proof { lemma_segments_nonempty(s@); }
    let ghost segs = segments(s@);
    assert(segs.drop_last().push(segs.last()) =~= segs);
    flush_segment(&mut comps, cur);
    let mut out: Vec<String> = Vec::new();
    let mut k: usize = 0;
    while k < comps.len()
        invariant
            k <= comps@.len(),
            comps@.map_values(|v: Vec<char>| v@) == components(s@),
            out@.map_values(|x: String| x@) == comps@.map_values(|v: Vec<char>| v@).subrange(0, k as int),
        decreases comps@.len() - k,
    {
        let piece = string_of(&comps[k]);
        let ghost before = out@.map_values(|x: String| x@);
        out.push(piece);
        assert(out@.map_values(|x: String| x@) =~= before.push(comps@[k as int]@));
        assert(comps@.map_values(|v: Vec<char>| v@).subrange(0, k + 1)
            =~= comps@.map_values(|v: Vec<char>| v@).subrange(0, k as int).push(comps@[k as int]@));
        k = k + 1;
    }
    assert(comps@.map_values(|v: Vec<char>| v@).subrange(0, comps@.len() as int) =~= components(s@));
    out
}

/// `path` without the leading components of `base`, compared component
/// by component as `Path::strip_prefix` does for absolute paths (empty and
/// `.` components ignored); `None` when `base` is not a prefix.
pub open spec fn strip_prefix_spec(path: Seq<char>, base: Seq<char>) -> Option<Seq<char>> {
    let pa = path.len() > 0 && path[0] == '/';
    let ba = base.len() > 0 && base[0] == '/';
    let pc = components(path);
    let bc = components(base);
    if pa == ba && bc.len() <= pc.len() && pc.subrange(0, bc.len() as int) == bc {
        Some(join(pc.subrange(bc.len() as int, pc.len() as int), seq!['/']))
    } else {
        None
    }
}

/// Strip the path `base` from the front of `path`.
pub fn strip_path_prefix(path: &str, base: &str) -> (r: Option<String>)
    ensures
        match strip_prefix_spec(path@, base@) {
            Some(p) => r matches Some(x) && x@ == p,
            None => r is None,
        },
{
    let pchars = chars_of(path);
    let bchars = chars_of(base);
    let pa = pchars.len() > 0 && pchars[0] == '/';
    let ba = bchars.len() > 0 && bchars[0] == '/';
    if pa != ba {
        return None;
    }
    let pc = path_components(path);
    let bc = path_components(base);
    let ghost pv = pc@.map_values(|x: String| x@);
    let ghost bv = bc@.map_values(|x: String| x@);
    assert(pchars@ == path@ && bchars@ == base@);
    if bc.len() > pc.len() {
        return None;
    }
    let mut i: usize = 0;
    while i < bc.len()
        invariant
            i <= bc@.len(),
            bc@.len() <= pc@.len(),
            pv == pc@.map_values(|x: String| x@),
            bv == bc@.map_values(|x: String| x@),
            pv == components(path@),
            bv == components(base@),
            (path@.len() > 0 && path@[0] == '/') == (base@.len() > 0 && base@[0] == '/'),
            forall|j: int| 0 <= j < i ==> pv[j] == bv[j],
        decreases bc@.len() - i,
    {
        if pc[i] != bc[i] {
            assert(pv.subrange(0, bv.len() as int)[i as int] != bv[i as int]);
            return None;
        }
        i = i + 1;
    }
    assert(pv.subrange(0, bv.len() as int) =~= bv);
    let mut out = String::new();
    let mut k: usize = bc.len();
    while k < pc.len()
        invariant
            bc@.len() <= k <= pc@.len(),
            pv == pc@.map_values(|x: String| x@),
            out@ == join(pv.subrange(bc@.len() as int, k as int), seq!['/']),
        decreases pc@.len() - k,
    {
        let ghost before = pv.subrange(bc@.len() as int, k as int);
        let ghost now = pv.subrange(bc@.len() as int, k + 1);
        assert(now.drop_last() =~= before);
        if k > bc.len() {
            push_char(&mut out, '/');
        }
        push_str(&mut out, pc[k].as_str());
        proof {
            if k == bc.len() {
                assert(out@ =~= now[0]);
            } else {
                assert(out@ =~= join(before, seq!['/']) + seq!['/'] + now.last());
            }
        }
        k = k + 1;
    }
    Some(out)
}

/// The canonical, absolute form of a path (`Path::canonicalize`), as text,
/// or `None` when it cannot be canonicalized. Which of the two, and which
/// path, depends on the file system; the contract states only that a
/// canonical path is absolute (it starts with `/`).
#[verifier::external_body]
pub(crate) fn canonicalize_path(path: &str) -> (r: Option<String>)
    ensures
        r matches Some(c) ==> c@.len() > 0 && c@[0] == '/',
{
    match std::path::Path::new(path).canonicalize() {
        Ok(p) => Some(p.display().to_string()),
        Err(_) => None,
    }
}

/// `base` joined with `part` (as `Path::join` on Unix: an absolute `part`
/// replaces `base`).
pub open spec fn path_join(base: Seq<char>, part: Seq<char>) -> Seq<char> {
    if part.len() > 0 && part[0] == '/' {
        part
    } else if base.len() == 0 {
        part
    } else if base.last() == '/' {
        base + part
    } else {
        base + "/"@ + part
    }
}

/// Join a path onto a base path.
pub fn join_path(base: &str, part: &str) -> (r: String)
    ensures
        r@ == path_join(base@, part@),
{
    let pc = chars_of(part);
    if pc.len() > 0 && pc[0] == '/' {
        return String::from_str(part);
    }
    let mut r = String::from_str(base);
    let bc = chars_of(base);
    if bc.len() > 0 {
        if bc[bc.len() - 1] != '/' {
            push_str(&mut r, "/");
        }
    }
    push_str(&mut r, part);
    r
}

} // verus!
