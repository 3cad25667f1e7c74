//! Binary registry — resolved path allowlist for subprocess spawning.
//!
//! Entries are bare names or absolute paths resolved at startup; glob
//! patterns are expanded by the caller; an allow-all mode skips all checks
//! (for container or VM sandboxes).
use vstd::prelude::*;
use vstd::string::StringExecFns;
use crate::sandbox::workspace::canonicalize_path;
use crate::builtin::read::path_is_file;
use crate::telegram::send_file::{file_name_exec, file_name_of};
use crate::text::views;
use crate::sandbox::error::BinaryError;
use crate::strmap::StrMap;
use crate::text::{
    chars_of, concat2, contains, eq_chars, find, find_exec, lemma_find_result, starts_with,
    starts_with_exec,
};

verus! {


/// Describes how an allowed-binaries entry is interpreted.
#[derive(Clone, Debug, PartialEq, Eq)]
pub enum BinaryPattern {
    /// A bare name (e.g. `echo`) or absolute path (e.g. `/usr/bin/cat`).
    Exact(String),
    /// A glob pattern (e.g. `/usr/bin/*`, `/usr/local/bin/g*`).
    Glob(String),
}

/// How `BinaryPattern::parse` reads an entry.
pub enum PatternParse {
    Exact(Seq<char>),
    Glob(Seq<char>),
    Rejected(Seq<char>),
}

/// An entry is rejected when empty, when it holds `..`, or when it starts
/// with `./` or `.\`; it is a glob when it holds `*`, `?` or `[`.
pub open spec fn parse_pattern_spec(entry: Seq<char>) -> PatternParse {
    if entry.len() == 0 {
        PatternParse::Rejected("<empty>"@)
    } else if contains(entry, ".."@) {
        PatternParse::Rejected("path traversal not allowed: "@ + entry)
    } else if starts_with(entry, "./"@) || starts_with(entry, ".\\"@) {
        PatternParse::Rejected("relative path not allowed: "@ + entry)
    } else if contains(entry, seq!['*']) || contains(entry, seq!['?']) || contains(entry, seq!['[']) {
        PatternParse::Glob(entry)
    } else {
        PatternParse::Exact(entry)
    }
}

/// Whether `r` is what `parse` returns for `entry`.
pub open spec fn parse_result_matches(r: Result<BinaryPattern, BinaryError>, entry: Seq<char>) -> bool {
    match parse_pattern_spec(entry) {
        PatternParse::Exact(e) => r matches Ok(BinaryPattern::Exact(x)) && x@ == e,
        PatternParse::Glob(e) => r matches Ok(BinaryPattern::Glob(x)) && x@ == e,
        PatternParse::Rejected(m) => r matches Err(BinaryError::NotFound(x)) && x@ == m,
    }
}

fn contains_exec(s: &[char], p: &str) -> (b: bool)
    ensures
        b == contains(s@, p@),
{
    let pc = chars_of(p);
    find_exec(s, &pc, 0).is_some()
}

impl BinaryPattern {
    /// Parse a string entry into a `BinaryPattern`.
    ///
    /// If the string contains `*`, `?`, or `[`, it is treated as a glob.
    /// Otherwise it is an exact entry. Empty entries, path traversal and
    /// `./` relative paths are rejected.
    pub fn parse(entry: &str) -> (r: Result<Self, BinaryError>)
        ensures
            parse_result_matches(r, entry@),
    {
        let e = chars_of(entry);
        if e.len() == 0 {
            return Err(BinaryError::NotFound(String::from_str("<empty>")));
        }
        if contains_exec(&e, "..") {
            return Err(BinaryError::NotFound(concat2("path traversal not allowed: ", entry)));
        }
        let dot_slash = chars_of("./");
        let dot_backslash = chars_of(".\\");
        if starts_with_exec(&e, &dot_slash) || starts_with_exec(&e, &dot_backslash) {
            return Err(BinaryError::NotFound(concat2("relative path not allowed: ", entry)));
        }
        let star = contains_exec(&e, "*");
        let question = contains_exec(&e, "?");
        let bracket = contains_exec(&e, "[");
        proof {
            reveal_strlit("*");
            reveal_strlit("?");
            reveal_strlit("[");
            assert("*"@ =~= seq!['*']);
            assert("?"@ =~= seq!['?']);
            assert("["@ =~= seq!['[']);
        }
        if star || question || bracket {
            Ok(BinaryPattern::Glob(String::from_str(entry)))
        } else {
            Ok(BinaryPattern::Exact(String::from_str(entry)))
        }
    }
}

/// Registry modes: a resolved allowlist, or the allow-all sentinel.
#[derive(Debug)]
enum RegistryMode {
    Normal(StrMap),
    AllowAll,
}

/// Maps allowed binary names to their resolved absolute paths.
#[derive(Debug)]
pub struct BinaryRegistry {
    mode: RegistryMode,
}

impl BinaryRegistry {
    /// Whether the registry is in allow-all mode.
    pub closed spec fn allows_all(self) -> bool {
        self.mode is AllowAll
    }

    /// The allowlist: name to resolved path (empty in allow-all mode).
    pub closed spec fn allowed(self) -> Map<Seq<char>, Seq<char>> {
        match self.mode {
            RegistryMode::Normal(m) => m@,
            RegistryMode::AllowAll => Map::empty(),
        }
    }

    /// An empty allowlist.
    pub fn empty() -> (r: Self)
        ensures
            !r.allows_all(),
            r.allowed() == Map::<Seq<char>, Seq<char>>::empty(),
    {
        BinaryRegistry { mode: RegistryMode::Normal(StrMap::new()) }
    }

    /// Create a sentinel registry that allows all binaries.
    ///
    /// In this mode `resolve_to_pathbuf()` returns the bare name and
    /// `is_allowed()` always returns `true`; it is meant for container or VM
    /// sandboxes where OS-level isolation is the security boundary.
    pub fn allow_all() -> (r: Self)
        ensures
            r.allows_all(),
            r.allowed() == Map::<Seq<char>, Seq<char>>::empty(),
    {
        BinaryRegistry { mode: RegistryMode::AllowAll }
    }

    /// Returns `true` if this registry is in allow-all mode.
    pub fn is_allow_all(&self) -> (r: bool)
        ensures
            r == self.allows_all(),
    {
        match &self.mode {
            RegistryMode::AllowAll => true,
            RegistryMode::Normal(_) => false,
        }
    }

    /// Resolve an allowed binary name to its absolute path. In allow-all
    /// mode the name itself is the path.
    pub fn resolve(&self, name: &str) -> (r: Result<String, BinaryError>)
        ensures
            self.allows_all() ==> (r matches Ok(p) && p@ == name@),
            !self.allows_all() && self.allowed().contains_key(name@) ==> (r matches Ok(p) && p@ == self.allowed()[name@]),
            !self.allows_all() && !self.allowed().contains_key(name@) ==> (r matches Err(BinaryError::NotAllowed(m)) && m@ == name@),
    {
        match &self.mode {
            RegistryMode::Normal(m) => match m.get(name) {
                Some(p) => Ok(p.clone()),
                None => Err(BinaryError::NotAllowed(String::from_str(name))),
            },
            RegistryMode::AllowAll => Ok(String::from_str(name)),
        }
    }

    /// Resolve an allowed binary name to a path; in allow-all mode the bare
    /// name is the path.
    pub fn resolve_to_pathbuf(&self, name: &str) -> (r: Result<String, BinaryError>)
        ensures
            self.allows_all() ==> (r matches Ok(p) && p@ == name@),
            !self.allows_all() && self.allowed().contains_key(name@) ==> (r matches Ok(p) && p@ == self.allowed()[name@]),
            !self.allows_all() && !self.allowed().contains_key(name@) ==> (r matches Err(BinaryError::NotAllowed(m)) && m@ == name@),
    {
        match &self.mode {
            RegistryMode::Normal(m) => match m.get(name) {
                Some(p) => Ok(p.clone()),
                None => Err(BinaryError::NotAllowed(String::from_str(name))),
            },
            RegistryMode::AllowAll => Ok(String::from_str(name)),
        }
    }

    /// Check if a binary name is in the allowlist; always `true` in
    /// allow-all mode.
    pub fn is_allowed(&self, name: &str) -> (r: bool)
        ensures
            r == (self.allows_all() || self.allowed().contains_key(name@)),
    {
        match &self.mode {
            RegistryMode::Normal(m) => m.contains_key(name),
            RegistryMode::AllowAll => true,
        }
    }

    /// Number of registered binaries; 0 in allow-all mode.
    pub fn len(&self) -> (r: usize)
        ensures
            r == self.allowed().len(),
    {
        match &self.mode {
            RegistryMode::Normal(m) => m.len(),
            RegistryMode::AllowAll => 0,
        }
    }

    /// Returns `true` if no binaries are registered (always in allow-all mode).
    pub fn is_empty(&self) -> (r: bool)
        ensures
            r == (self.allowed().len() == 0),
    {
        let n = self.len();
        n == 0
    }

    /// Registers `name` at `path`, replacing an earlier path for the same name.
    pub fn insert(&mut self, name: String, path: String)
        requires
            !old(self).allows_all(),
        ensures
            !final(self).allows_all(),
            final(self).allowed() == old(self).allowed().insert(name@, path@),
    {
        match &mut self.mode {
            RegistryMode::Normal(m) => m.insert(name, path),
            RegistryMode::AllowAll => {},
        }
    }
}

/// A bare binary name that `BinaryRegistry::new` accepts: non-empty and
/// without a `/` (so neither `./x` nor `../../bin/sh`).
pub open spec fn valid_binary_name(name: Seq<char>) -> bool {
    name.len() > 0 && !contains(name, seq!['/'])
}

/// The `NotFound` message for a rejected name.
pub open spec fn rejected_name_message(name: Seq<char>) -> Seq<char> {
    if contains(name, seq!['/']) { name } else { "<empty>"@ }
}

/// Looks a binary up on `PATH` with `which::which`; the path as text, or
/// the error's text. Nothing is stated of the outcome, which depends on the
/// file system and the environment.
#[verifier::external_body]
pub(crate) fn which_binary(name: &str) -> Result<String, String> {
    match which::which(name) {
        Ok(p) => Ok(p.display().to_string()),
        Err(e) => Err(e.to_string()),
    }
}

/// The canonical form of a path, or the path itself when it cannot be
/// canonicalized. Which one comes depends on the file system; a canonical
/// path is absolute.
fn canonical_or_same(path: &str) -> (r: String)
    ensures
        r@ == path@ || (r@.len() > 0 && r@[0] == '/'),
{
    match canonicalize_path(path) {
        Some(c) => c,
        None => String::from_str(path),
    }
}

impl BinaryRegistry {
    /// Build a registry by resolving each allowed binary name via `which`
    /// and canonicalizing the result.
    ///
    /// Names containing `/` or empty names are rejected with `NotFound`
    /// (path injection such as `./malicious`); a name `which` cannot resolve
    /// gives `WhichFailed`. Names are handled in order; the first failure
    /// is returned.
    pub fn new(names: &[String]) -> (r: Result<Self, BinaryError>)
        ensures
            r matches Ok(reg) ==> !reg.allows_all() && (forall|i: int| 0 <= i < names@.len()
                ==> valid_binary_name(#[trigger] names@[i]@)) && (forall|k: Seq<char>|
                reg.allowed().contains_key(k) <==> exists|i: int| 0 <= i < names@.len() && names@[i]@ == k),
            r matches Err(BinaryError::NotFound(m)) ==> exists|i: int| 0 <= i < names@.len()
                && !valid_binary_name(names@[i]@) && m@ == rejected_name_message(names@[i]@)
                && forall|j: int| 0 <= j < i ==> valid_binary_name(#[trigger] names@[j]@),
            r matches Err(BinaryError::WhichFailed(n, _)) ==> exists|i: int| 0 <= i < names@.len()
                && n@ == names@[i]@ && forall|j: int| 0 <= j <= i ==> valid_binary_name(#[trigger] names@[j]@),
            !(r is Err && r->Err_0 is NotAllowed),
    {
        let mut reg = Self::empty();
        let mut i: usize = 0;
        let slash = chars_of("/");
        proof {
            reveal_strlit("/");
            assert(slash@ =~= seq!['/']);
        }
        while i < names.len()
            invariant
                i <= names@.len(),
                slash@ == seq!['/'],
                !reg.allows_all(),
                forall|j: int| 0 <= j < i ==> valid_binary_name(#[trigger] names@[j]@),
                forall|k: Seq<char>| reg.allowed().contains_key(k) <==> exists|j: int| 0 <= j < i && names@[j]@ == k,
            decreases names@.len() - i,
        {
            let name = &names[i];
            let nc = chars_of(name.as_str());
            if find_exec(&nc, &slash, 0).is_some() {
                proof { reveal_strlit("<empty>"); }
                return Err(BinaryError::NotFound(name.clone()));
            }
            if nc.len() == 0 {
                return Err(BinaryError::NotFound(String::from_str("<empty>")));
            }
            let path = match which_binary(name.as_str()) {
                Ok(p) => p,
                Err(e) => { return Err(BinaryError::WhichFailed(name.clone(), e)); },
            };
            let canonical = canonical_or_same(path.as_str());
            let ghost before = reg.allowed();
            reg.insert(name.clone(), canonical);
            proof {
                assert forall|k: Seq<char>| reg.allowed().contains_key(k) <==> exists|j: int| 0 <= j < i + 1 && names@[j]@ == k by {
                    if k == names@[i as int]@ {
                    } else if before.contains_key(k) {
                        let j = choose|j: int| 0 <= j < i && names@[j]@ == k;
                    }
                }
            }
            i = i + 1;
        }
        Ok(reg)
    }
}

} // verus!

verus! {

/// Whether a path is absolute.
pub open spec fn is_absolute(p: Seq<char>) -> bool {
    p.len() > 0 && p[0] == '/'
}

/// The names a pattern registers: an absolute path its file name, a bare
/// name itself, a glob the file names of the executables it matched.
pub open spec fn pattern_names(p: BinaryPattern, globbed: Seq<Seq<char>>) -> Set<Seq<char>> {
    match p {
        BinaryPattern::Exact(e) => if contains(e@, seq!['/']) {
            match file_name_of(e@) { Some(n) => set![n], None => Set::empty() }
        } else {
            set![e@]
        },
        BinaryPattern::Glob(_) => Set::new(|n: Seq<char>| exists|j: int| 0 <= j < globbed.len() && file_name_of(globbed[j]) == Some(n)),
    }
}

/// The messages an exact entry with a `/` can be refused with: not
/// absolute, not a file, or without a file name.
pub open spec fn exact_path_error(entry: Seq<char>, m: Seq<char>) -> bool {
    ||| !is_absolute(entry) && m == entry
    ||| is_absolute(entry) && m == "binary not found: "@ + entry
    ||| is_absolute(entry) && file_name_of(entry) is None && m == "invalid path: "@ + entry
}

impl BinaryRegistry {
    /// Build a registry from absolute binary paths, each registered under
    /// its file name. A path that is not absolute, not a file or without a
    /// file name is refused (`NotFound` with the path).
    pub fn from_paths(paths: &[String]) -> (r: Result<Self, BinaryError>)
        ensures
            r matches Ok(reg) ==> !reg.allows_all()
                && (forall|i: int| 0 <= i < paths@.len() ==> is_absolute(#[trigger] paths@[i]@) && file_name_of(paths@[i]@) is Some)
                && (forall|k: Seq<char>| reg.allowed().contains_key(k) <==> exists|i: int| 0 <= i < paths@.len() && file_name_of(paths@[i]@) == Some(k)),
            r matches Err(e) ==> e matches BinaryError::NotFound(m) && exists|i: int| 0 <= i < paths@.len() && m@ == paths@[i]@,
    {
        let mut reg = Self::empty();
        let mut i: usize = 0;
        while i < paths.len()
            invariant
                i <= paths@.len(),
                !reg.allows_all(),
                forall|j: int| 0 <= j < i ==> is_absolute(#[trigger] paths@[j]@) && file_name_of(paths@[j]@) is Some,
                forall|k: Seq<char>| reg.allowed().contains_key(k) <==> exists|j: int| 0 <= j < i && file_name_of(paths@[j]@) == Some(k),
            decreases paths@.len() - i,
        {
            let p = &paths[i];
            let pc = chars_of(p.as_str());
            if !(pc.len() > 0 && pc[0] == '/') || !path_is_file(p.as_str()) {
                return Err(BinaryError::NotFound(p.clone()));
            }
            let name = match file_name_exec(p.as_str()) {
                Some(n) => n,
                None => { return Err(BinaryError::NotFound(p.clone())); },
            };
            let canonical = canonical_or_same(p.as_str());
            let ghost before = reg.allowed();
            reg.insert(name, canonical);
            proof {
                assert forall|k: Seq<char>| reg.allowed().contains_key(k) <==> exists|j: int| 0 <= j < i + 1 && file_name_of(paths@[j]@) == Some(k) by {
                    if before.contains_key(k) {
                        let j = choose|j: int| 0 <= j < i && file_name_of(paths@[j]@) == Some(k);
                    }
                    if exists|j: int| 0 <= j < i + 1 && file_name_of(paths@[j]@) == Some(k) {
                        let j = choose|j: int| 0 <= j < i + 1 && file_name_of(paths@[j]@) == Some(k);
                        if j < i {
                            assert(before.contains_key(k));
                        }
                    }
                }
            }
            i = i + 1;
        }
        Ok(reg)
    }

    /// Build a registry from patterns. An exact bare name is looked up on
    /// `PATH` (`WhichFailed` when it is not found) and registered under
    /// itself; an exact path must be absolute, a file and have a file name
    /// (else `NotFound`), and is registered under its file name; a glob
    /// registers the file names of the executables it matched, which the
    /// caller found by expanding it (`globbed[i]` for `patterns[i]`; an
    /// invalid glob matched nothing). Paths are canonicalized when they can
    /// be.
    pub fn from_patterns(patterns: &[BinaryPattern], globbed: &[Vec<String>]) -> (r: Result<Self, BinaryError>)
        requires
            globbed@.len() == patterns@.len(),
        ensures
            r matches Ok(reg) ==> !reg.allows_all()
                && (forall|k: Seq<char>| reg.allowed().contains_key(k) <==> exists|i: int|
                    0 <= i < patterns@.len() && #[trigger] pattern_names(patterns@[i], views(globbed@[i]@)).contains(k)),
            r matches Err(BinaryError::NotFound(m)) ==> exists|i: int| 0 <= i < patterns@.len()
                && (#[trigger] patterns@[i] matches BinaryPattern::Exact(e) && contains(e@, seq!['/']) && exact_path_error(e@, m@)),
            r matches Err(BinaryError::WhichFailed(n, _)) ==> exists|i: int| 0 <= i < patterns@.len()
                && (#[trigger] patterns@[i] matches BinaryPattern::Exact(e) && !contains(e@, seq!['/']) && e@ == n@),
            !(r is Err && r->Err_0 is NotAllowed),
    {
        let mut reg = Self::empty();
        let slash = chars_of("/");
        proof { reveal_strlit("/"); assert(slash@ =~= seq!['/']); }
        let ghost pn = Seq::new(patterns@.len(), |j: int| pattern_names(patterns@[j], views(globbed@[j]@)));
        assert(reg.allowed().dom() =~= names_upto(pn, 0));
        let mut i: usize = 0;
        while i < patterns.len()
            invariant
                i <= patterns@.len(),
                globbed@.len() == patterns@.len(),
                slash@ == seq!['/'],
                pn == Seq::new(patterns@.len(), |j: int| pattern_names(patterns@[j], views(globbed@[j]@))),
                !reg.allows_all(),
                reg.allowed().dom() == names_upto(pn, i as int),
            decreases patterns@.len() - i,
        {
            let ghost before = reg.allowed().dom();
            let ghost names_i = pn[i as int];
            match &patterns[i] {
                BinaryPattern::Exact(entry) => {
                    let ec = chars_of(entry.as_str());
                    let (name, canonical) = if find_exec(&ec, &slash, 0).is_some() {
                        proof { lemma_find_result(ec@, seq!['/']); }
                        if !(ec.len() > 0 && ec[0] == '/') {
                            return Err(BinaryError::NotFound(entry.clone()));
                        }
                        if !path_is_file(entry.as_str()) {
                            return Err(BinaryError::NotFound(concat2("binary not found: ", entry.as_str())));
                        }
                        let name = match file_name_exec(entry.as_str()) {
                            Some(n) => n,
                            None => { return Err(BinaryError::NotFound(concat2("invalid path: ", entry.as_str()))); },
                        };
                        (name, canonical_or_same(entry.as_str()))
                    } else {
                        let path = match which_binary(entry.as_str()) {
                            Ok(p) => p,
                            Err(e) => { return Err(BinaryError::WhichFailed(entry.clone(), e)); },
                        };
                        (entry.clone(), canonical_or_same(path.as_str()))
                    };
                    assert(names_i =~= set![name@]);
                    reg.insert(name, canonical);
                    assert(reg.allowed().dom() =~= before + names_i);
                },
                BinaryPattern::Glob(_) => {
                    let found = &globbed[i];
                    let ghost gv = views(found@);
                    assert(views(globbed@[i as int]@) == gv);
                    assert(names_in(gv, 0) =~= Set::<Seq<char>>::empty());
                    assert(before + names_in(gv, 0) =~= before);
                    let mut k: usize = 0;
                    while k < found.len()
                        invariant
                            k <= found@.len(),
                            gv == views(found@),
                            !reg.allows_all(),
                            reg.allowed().dom() == before + names_in(gv, k as int),
                        decreases found@.len() - k,
                    {
                        assert(gv[k as int] == found@[k as int]@);
                        let ghost step = match file_name_of(gv[k as int]) { Some(n) => set![n], None => Set::empty() };
                        assert(names_in(gv, k + 1) =~= names_in(gv, k as int) + step) by {
                            assert forall|n: Seq<char>| names_in(gv, k + 1).contains(n) implies (names_in(gv, k as int) + step).contains(n) by {
                                let j = choose|j: int| 0 <= j < k + 1 && file_name_of(gv[j]) == Some(n);
                                if j < k { assert(names_in(gv, k as int).contains(n)); }
                            }
                            assert forall|n: Seq<char>| (names_in(gv, k as int) + step).contains(n) implies names_in(gv, k + 1).contains(n) by {
                                if names_in(gv, k as int).contains(n) {
                                    let j = choose|j: int| 0 <= j < k && file_name_of(gv[j]) == Some(n);
                                    assert(0 <= j < k + 1 && file_name_of(gv[j]) == Some(n));
                                } else {
                                    assert(file_name_of(gv[k as int]) == Some(n));
                                }
                            }
                        }
                        match file_name_exec(found[k].as_str()) {
                            Some(name) => {
                                let canonical = canonical_or_same(found[k].as_str());
                                reg.insert(name, canonical);
                            },
                            None => {},
                        }
                        assert(reg.allowed().dom() =~= before + names_in(gv, k + 1));
                        k = k + 1;
                    }
                    assert(names_i =~= names_in(gv, found@.len() as int));
                },
            }
            assert(names_upto(pn, i + 1) == names_upto(pn, i as int) + names_i);
            i = i + 1;
        }
        proof {
            assert forall|k: Seq<char>| reg.allowed().contains_key(k) <==> exists|i: int|
                0 <= i < patterns@.len() && #[trigger] pattern_names(patterns@[i], views(globbed@[i]@)).contains(k) by {
                lemma_names_upto(pn, patterns@.len() as int, k);
                if exists|i: int| 0 <= i < patterns@.len() && #[trigger] pattern_names(patterns@[i], views(globbed@[i]@)).contains(k) {
                    let i = choose|i: int| 0 <= i < patterns@.len() && #[trigger] pattern_names(patterns@[i], views(globbed@[i]@)).contains(k);
                    assert(pn[i].contains(k));
                }
                if reg.allowed().contains_key(k) {
                    let i = choose|i: int| 0 <= i < pn.len() && #[trigger] pn[i].contains(k);
                    assert(pattern_names(patterns@[i], views(globbed@[i]@)).contains(k));
                }
            }
        }
        Ok(reg)
    }
}

/// The file names among the first `k` paths.
pub open spec fn names_in(gv: Seq<Seq<char>>, k: int) -> Set<Seq<char>> {
    Set::new(|n: Seq<char>| exists|j: int| 0 <= j < k && file_name_of(gv[j]) == Some(n))
}

/// The names of the first `i` patterns.
pub open spec fn names_upto(pn: Seq<Set<Seq<char>>>, i: int) -> Set<Seq<char>>
    decreases i,
{
    if i <= 0 { Set::empty() } else { names_upto(pn, i - 1) + pn[i - 1] }
}

proof fn lemma_names_upto(pn: Seq<Set<Seq<char>>>, i: int, k: Seq<char>)
    requires
        0 <= i <= pn.len(),
    ensures
        names_upto(pn, i).contains(k) <==> exists|j: int| 0 <= j < i && #[trigger] pn[j].contains(k),
    decreases i,
{
    if i > 0 {
        lemma_names_upto(pn, i - 1, k);
        if pn[i - 1].contains(k) {
            assert(0 <= i - 1 < i && pn[i - 1].contains(k));
        }
        if exists|j: int| 0 <= j < i && #[trigger] pn[j].contains(k) {
            let j = choose|j: int| 0 <= j < i && #[trigger] pn[j].contains(k);
            if j < i - 1 {
                assert(exists|j2: int| 0 <= j2 < i - 1 && #[trigger] pn[j2].contains(k));
            }
        }
    }
}

} // verus!
verus! {

/// `s` contains the one-character text `c` exactly when some character of
/// `s` is `c`.
proof fn lemma_contains_char(s: Seq<char>, c: char)
    ensures
        contains(s, seq![c]) <==> exists|i: int| 0 <= i < s.len() && s[i] == c,
{
    lemma_find_result(s, seq![c]);
    if let Some(k) = find(s, seq![c]) {
        assert(s.subrange(k, k + 1)[0] == s[k]);
    }
    if exists|i: int| 0 <= i < s.len() && s[i] == c {
        let i = choose|i: int| 0 <= i < s.len() && s[i] == c;
        assert(s.subrange(i, i + 1) =~= seq![c]);
        assert(crate::text::matches_at(s, seq![c], i));
    }
}

/// An entry that is not rejected is kept as it is written, and is a glob
/// exactly when one of its characters is `*`, `?` or `[`; otherwise it is
/// an exact name or path.
pub proof fn lemma_parse_globs_on_wildcards(entry: Seq<char>)
    ensures
        match parse_pattern_spec(entry) {
            PatternParse::Glob(e) => e == entry
                && exists|i: int| 0 <= i < entry.len() && (entry[i] == '*' || entry[i] == '?' || entry[i] == '['),
            PatternParse::Exact(e) => e == entry
                && forall|i: int| 0 <= i < entry.len() ==> entry[i] != '*' && entry[i] != '?' && entry[i] != '[',
            PatternParse::Rejected(_) => true,
        },
{
    lemma_contains_char(entry, '*');
    lemma_contains_char(entry, '?');
    lemma_contains_char(entry, '[');
}

} // verus!
