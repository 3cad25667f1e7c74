//! The `search` tool: how a search is set up (the pattern, the root, the
//! filters), which files are searched, and how matches and context lines
//! become the tool's output. Walking the tree and reading the files (the
//! ripgrep engine) is the frontend's work; it feeds each line here.
use vstd::prelude::*;
use vstd::string::StringExecFns;
use crate::sandbox::workspace::{join_path, path_join, resolve_relative, resolve_spec};
use crate::telegram::send_file::{extension_of, path_extension};
use crate::text::{
    chars_of, decimal, join, join_strings, lemma_views_push, lowercase_of, push_char, push_decimal,
    push_str, slice_vec, string_of, to_lowercase, trim, trim_vec, views,
};
use crate::tools::error::ToolError;
use crate::tools::tool::Tool;

verus! {

/// Arguments of a `search` call.
#[derive(Debug, Clone)]
pub struct SearchArgs {
    /// Brief human-readable description of what this step does.
    pub label: String,
    /// Search pattern (regex by default, literal if `literal` is true).
    pub query: String,
    /// Optional sub-path within the workspace to restrict search.
    pub path: Option<String>,
    /// Treat the query as a literal string.
    pub literal: Option<bool>,
    /// Maximum number of match lines to return.
    pub max_results: Option<usize>,
    /// Number of context lines to show before and after each match.
    pub context_lines: Option<usize>,
    /// Comma-separated list of file extensions to include (e.g. "rs,py,ts").
    pub extensions: Option<String>,
    /// Glob pattern to filter files (e.g. "**/tests/**").
    pub glob: Option<String>,
    /// Skip hidden files and directories (default: true).
    pub no_hidden: Option<bool>,
    /// Maximum file size in bytes to search (default: 10 MB).
    pub max_file_size: Option<usize>,
    /// Maximum search depth (default: 50).
    pub max_depth: Option<usize>,
}

/// The characters that have a meaning in a regex.
pub open spec fn is_regex_meta(c: char) -> bool {
    c == '\\' || c == '.' || c == '+' || c == '*' || c == '?' || c == '(' || c == ')' || c == '|'
        || c == '[' || c == ']' || c == '{' || c == '}' || c == '^' || c == '$' || c == '#'
        || c == '&' || c == '-' || c == '~'
}

/// `text` with a backslash before each regex meta character.
pub open spec fn regex_escaped(text: Seq<char>) -> Seq<char>
    decreases text.len(),
{
    if text.len() == 0 {
        Seq::empty()
    } else {
        let rest = regex_escaped(text.drop_last());
        let c = text.last();
        if is_regex_meta(c) { rest + seq!['\\', c] } else { rest.push(c) }
    }
}

/// `regex::escape`: a backslash before each meta character (`\ . + * ? (
/// ) | [ ] { } ^ $ # & - ~`), as its source does.
#[verifier::external_body]
fn escape_regex(text: &str) -> (r: String)
    ensures
        r@ == regex_escaped(text@),
{
    regex::escape(text)
}

#[verifier::external_type_specification]
#[verifier::external_body]
pub struct ExRegexMatcher(grep_regex::RegexMatcher);

/// The error a regex pattern is rejected with, if it is.
pub uninterp spec fn regex_error_of(pattern: Seq<char>) -> Option<Seq<char>>;

/// `grep_regex::RegexMatcher::new`: the matcher, or the error shown for
/// the pattern; which patterns fail, and how, is named, not described.
#[verifier::external_body]
fn build_matcher(pattern: &str) -> (r: Result<grep_regex::RegexMatcher, String>)
    ensures
        match regex_error_of(pattern@) {
            Some(e) => r matches Err(x) && x@ == e,
            None => r is Ok,
        },
{
    grep_regex::RegexMatcher::new(pattern).map_err(|e| e.to_string())
}

/// Whether `path` matches the glob `pattern`; `None` when the pattern is
/// not a glob.
pub uninterp spec fn glob_match(pattern: Seq<char>, path: Seq<char>) -> Option<bool>;

/// `glob::Pattern::new` then `Pattern::matches_path`: the pattern parsed
/// and matched against the path.
#[verifier::external_body]
fn glob_matches(pattern: &str, path: &str) -> (r: Option<bool>)
    ensures
        r == glob_match(pattern@, path@),
{
    glob::Pattern::new(pattern).ok().map(|p| p.matches_path(std::path::Path::new(path)))
}

/// The parts of a comma-separated list, in order.
pub open spec fn comma_parts(s: Seq<char>) -> Seq<Seq<char>>
    decreases s.len(),
{
    match crate::text::find(s, seq![',']) {
        Some(i) => if 0 <= i < s.len() {
            seq![s.subrange(0, i)] + comma_parts(s.subrange(i + 1, s.len() as int))
        } else {
            seq![s]
        },
        None => seq![s],
    }
}

/// `s` without its leading dots.
pub open spec fn without_dots(s: Seq<char>) -> Seq<char>
    decreases s.len(),
{
    if s.len() > 0 && s[0] == '.' { without_dots(s.drop_first()) } else { s }
}

/// The extensions of a filter list: each part trimmed, without leading
/// dots, lowercased; empty ones dropped.
pub open spec fn extension_list(parts: Seq<Seq<char>>) -> Seq<Seq<char>>
    decreases parts.len(),
{
    if parts.len() == 0 {
        Seq::empty()
    } else {
        let rest = extension_list(parts.drop_last());
        let e = lowercase_of(without_dots(trim(parts.last())));
        if e.len() == 0 { rest } else { rest.push(e) }
    }
}

fn without_dots_exec(s: &[char]) -> (r: Vec<char>)
    ensures
        r@ == without_dots(s@),
{
    let mut i: usize = 0;
    assert(s@.subrange(0, s@.len() as int) =~= s@);
    while i < s.len() && s[i] == '.'
        invariant
            i <= s@.len(),
            without_dots(s@) == without_dots(s@.subrange(i as int, s@.len() as int)),
        decreases s@.len() - i,
    {
        assert(s@.subrange(i as int, s@.len() as int).drop_first() =~= s@.subrange(i + 1, s@.len() as int));
        i = i + 1;
    }
    slice_vec(s, i, s.len())
}

/// Parse the extension filter (see `extension_list`).
pub fn parse_extensions(list: &str) -> (r: Vec<String>)
    ensures
        views(r@) == extension_list(comma_parts(list@)),
{
    let s = chars_of(list);
    let cp = chars_of(",");
    proof { reveal_strlit(","); assert(cp@ =~= seq![',']); }
    let mut out: Vec<String> = Vec::new();
    let mut start: usize = 0;
    let ghost mut done: Seq<Seq<char>> = Seq::empty();
    assert(s@.subrange(0, s@.len() as int) =~= s@);
    loop
        invariant
            s@ == list@,
            cp@ == seq![','],
            start <= s@.len(),
            done + comma_parts(s@.subrange(start as int, s@.len() as int)) == comma_parts(list@),
            views(out@) == extension_list(done),
        decreases s@.len() - start,
    {
        let rest = slice_vec(&s, start, s.len());
        let comma = crate::text::find_exec(&rest, &cp, 0);
        proof { crate::text::lemma_find_result(rest@, seq![',']); }
        let end = match comma {
            Some(i) => start + i,
            None => s.len(),
        };
        let part = slice_vec(&s, start, end);
        let e = to_lowercase(string_of(&without_dots_exec(&trim_vec(&part))).as_str());
        let ghost before = done;
        proof { done = done.push(part@); }
        assert(done.drop_last() =~= before);
        if !e.as_str().is_empty() {
            proof { lemma_views_push(out@, e); }
            out.push(e);
        }
        assert(views(out@) =~= extension_list(done));
        match comma {
            Some(i) => {
                assert(part@ =~= rest@.subrange(0, i as int));
                assert(rest@.subrange(i + 1, rest@.len() as int) =~= s@.subrange(start + i + 1, s@.len() as int));
                assert(comma_parts(rest@) =~= seq![part@] + comma_parts(s@.subrange(start + i + 1, s@.len() as int)));
                assert(before + comma_parts(rest@) =~= done + comma_parts(s@.subrange(start + i + 1, s@.len() as int)));
                start = start + i + 1;
            },
            None => {
                assert(part@ =~= rest@);
                assert(comma_parts(rest@) =~= seq![part@]);
                assert(before + comma_parts(rest@) =~= done);
                return out;
            },
        }
    }
}

/// The search, set up: where it starts, the matcher, the filters and the
/// limits.
pub struct SearchPlan {
    /// The root of the search: the workspace root joined with the resolved
    /// sub-path (`.` without one).
    pub root: String,
    pub matcher: grep_regex::RegexMatcher,
    pub extensions: Option<Vec<String>>,
    pub glob: Option<String>,
    pub no_hidden: bool,
    pub max_depth: usize,
    pub max_file_size: usize,
    pub context_lines: usize,
    pub max_results: usize,
}

/// The pattern searched for: the query, escaped when it is literal.
pub open spec fn search_pattern(query: Seq<char>, literal: Option<bool>) -> Seq<char> {
    if literal == Some(true) { regex_escaped(query) } else { query }
}

/// How a search is refused: a sub-path that leaves the workspace, then a
/// pattern that is not a regex.
pub open spec fn search_setup_error(args: SearchArgs) -> Option<ToolErrorView> {
    match args.path {
        Some(p) if resolve_spec(p@) is Err => Some(ToolErrorView::Denied("path escapes: "@ + p@)),
        _ => match regex_error_of(search_pattern(args.query@, args.literal)) {
            Some(e) => Some(ToolErrorView::InvalidArgs("Invalid regex: "@ + e)),
            None => None,
        },
    }
}

/// A refusal as plain values.
pub enum ToolErrorView {
    Denied(Seq<char>),
    InvalidArgs(Seq<char>),
}

/// A unit struct for the search tool.
#[derive(Debug, Clone, Default)]
pub struct SearchTool;

impl SearchTool {
    pub fn new() -> (r: Self) {
        SearchTool
    }

    /// Set up a search in the workspace at `root` (see `search_setup_error`
    /// for when it is refused); the defaults are: hidden files skipped,
    /// depth 50, files up to 10 MB, no context, 200 results.
    pub fn plan(&self, root: &str, args: &SearchArgs) -> (r: Result<SearchPlan, ToolError>)
        ensures
            match search_setup_error(*args) {
                Some(ToolErrorView::Denied(m)) => r matches Err(ToolError::Denied(x)) && x@ == m,
                Some(ToolErrorView::InvalidArgs(m)) => r matches Err(ToolError::InvalidArgs(x)) && x@ == m,
                None => r matches Ok(p) && {
                    &&& p.root@ == path_join(root@, match args.path { Some(q) => resolve_spec(q@)->Ok_0, None => "."@ })
                    &&& p.no_hidden == (args.no_hidden != Some(false))
                    &&& p.max_depth == (match args.max_depth { Some(d) => d, None => 50 })
                    &&& p.max_file_size == (match args.max_file_size { Some(d) => d, None => 10_485_760 })
                    &&& p.context_lines == (match args.context_lines { Some(d) => d, None => 0 })
                    &&& p.max_results == (match args.max_results { Some(d) => d, None => 200 })
                    &&& p.glob == args.glob
                    &&& match args.extensions {
                        Some(e) => p.extensions matches Some(v) && views(v@) == extension_list(comma_parts(e@)),
                        None => p.extensions is None,
                    }
                },
            },
    {
        let sub = match &args.path {
            Some(p) => match resolve_relative(p.as_str()) {
                Ok(r) => r,
                Err(_) => {
                    let mut m = String::from_str("path escapes: ");
                    push_str(&mut m, p.as_str());
                    return Err(ToolError::Denied(m));
                },
            },
            None => {
                proof { reveal_strlit("."); }
                String::from_str(".")
            },
        };
        let pattern = if args.literal == Some(true) { escape_regex(args.query.as_str()) } else { args.query.clone() };
        let matcher = match build_matcher(pattern.as_str()) {
            Ok(m) => m,
            Err(e) => {
                let mut m = String::from_str("Invalid regex: ");
                push_str(&mut m, e.as_str());
                return Err(ToolError::InvalidArgs(m));
            },
        };
        let extensions = match &args.extensions {
            Some(e) => Some(parse_extensions(e.as_str())),
            None => None,
        };
        Ok(SearchPlan {
            root: join_path(root, sub.as_str()),
            matcher,
            extensions,
            glob: args.glob.clone(),
            no_hidden: args.no_hidden != Some(false),
            max_depth: match args.max_depth { Some(d) => d, None => 50 },
            max_file_size: match args.max_file_size { Some(d) => d, None => 10_485_760 },
            context_lines: match args.context_lines { Some(d) => d, None => 0 },
            max_results: match args.max_results { Some(d) => d, None => 200 },
        })
    }
}

/// Whether a file of the walk is searched: its lowercased extension is in
/// the list (when there is one), it matches the glob (an invalid glob
/// filters nothing), and it is not larger than the limit (when its size
/// is known).
pub open spec fn file_searched(path: Seq<char>, extensions: Option<Seq<Seq<char>>>, glob: Option<Seq<char>>, size: Option<u64>, max_file_size: usize) -> bool {
    &&& match extensions {
        Some(exts) => match extension_of(path) {
            Some(e) => exts.contains(lowercase_of(e)),
            None => false,
        },
        None => true,
    }
    &&& match glob {
        Some(g) => glob_match(g, path) != Some(false),
        None => true,
    }
    &&& match size {
        Some(n) => n <= max_file_size,
        None => true,
    }
}

/// Whether a file of the walk is searched (see `file_searched`).
pub fn is_file_searched(path: &str, extensions: Option<&[String]>, glob: Option<&str>, size: Option<u64>, max_file_size: usize) -> (r: bool)
    ensures
        r == file_searched(path@, match extensions { Some(e) => Some(views(e@)), None => None },
            match glob { Some(g) => Some(g@), None => None }, size, max_file_size),
{
    if let Some(exts) = extensions {
        match path_extension(path) {
            Some(e) => {
                let low = to_lowercase(e.as_str());
                let mut found = false;
                let mut i: usize = 0;
                while i < exts.len()
                    invariant
                        i <= exts@.len(),
                        found == views(exts@).subrange(0, i as int).contains(low@),
                    decreases exts@.len() - i,
                {
                    let ghost pre = views(exts@).subrange(0, i + 1);
                    assert(pre =~= views(exts@).subrange(0, i as int).push(exts@[i as int]@));
                    if exts[i] == low {
                        found = true;
                        assert(pre[i as int] == low@);
                    }
                    i = i + 1;
                }
                assert(views(exts@).subrange(0, exts@.len() as int) =~= views(exts@));
                if !found {
                    return false;
                }
            },
            None => return false,
        }
    }
    if let Some(g) = glob {
        if glob_matches(g, path) == Some(false) {
            return false;
        }
    }
    match size {
        Some(n) => n <= max_file_size as u64,
        None => true,
    }
}

} // verus!

verus! {

/// The text of a byte string that is UTF-8.
pub uninterp spec fn utf8_text(bytes: Seq<u8>) -> Option<Seq<char>>;

/// `std::str::from_utf8`: the text, when the bytes are UTF-8; which bytes
/// are, and what they decode to, is named, not described.
#[verifier::external_body]
fn decode_utf8(bytes: &[u8]) -> (r: Option<String>)
    ensures
        match utf8_text(bytes@) {
            Some(t) => r matches Some(x) && x@ == t,
            None => r is None,
        },
{
    std::str::from_utf8(bytes).ok().map(|s| s.to_string())
}

/// `s` without the copies of `c` at its end.
pub open spec fn trim_trailing(s: Seq<char>, c: char) -> Seq<char>
    decreases s.len(),
{
    if s.len() > 0 && s.last() == c { trim_trailing(s.drop_last(), c) } else { s }
}

fn trim_trailing_exec(s: &[char], c: char) -> (r: Vec<char>)
    ensures
        r@ == trim_trailing(s@, c),
{
    let mut j: usize = s.len();
    assert(s@.subrange(0, j as int) =~= s@);
    while j > 0 && s[j - 1] == c
        invariant
            j <= s@.len(),
            trim_trailing(s@, c) == trim_trailing(s@.subrange(0, j as int), c),
        decreases j,
    {
        assert(s@.subrange(0, j as int).drop_last() =~= s@.subrange(0, j - 1));
        j = j - 1;
    }
    slice_vec(s, 0, j)
}

/// How a matched or context line is shown: its text (or `<binary>` when
/// it is not UTF-8) without the line break at its end.
pub open spec fn line_text_of(bytes: Seq<u8>) -> Seq<char> {
    let t = match utf8_text(bytes) { Some(t) => t, None => "<binary>"@ };
    trim_trailing(trim_trailing(t, '\n'), '\r')
}

fn line_text(bytes: &[u8]) -> (r: String)
    ensures
        r@ == line_text_of(bytes@),
{
    let t = match decode_utf8(bytes) {
        Some(t) => t,
        None => {
            proof { reveal_strlit("<binary>"); }
            String::from_str("<binary>")
        },
    };
    let cs = chars_of(t.as_str());
    string_of(&trim_trailing_exec(&trim_trailing_exec(&cs, '\n'), '\r'))
}

/// How the engine reports a context line.
#[derive(Debug, Clone, Copy, PartialEq, Eq)]
pub enum ContextKind {
    Before,
    After,
    Other,
}

/// The context lines kept for the next match, as text.
pub open spec fn pending_text(pending: Seq<(u64, Seq<char>)>) -> Seq<char>
    decreases pending.len(),
{
    if pending.len() == 0 {
        Seq::empty()
    } else {
        pending_text(pending.drop_last()) + " "@ + decimal(pending.last().0 as nat) + ": "@ + pending.last().1 + "\n"@
    }
}

/// The result of a match: with context, a block headed by the file and
/// line, the context before it, and the match marked with `>`; without
/// context, `file:line: text`.
pub open spec fn match_result(path: Seq<char>, line_number: nat, line: Seq<char>, pending: Seq<(u64, Seq<char>)>, context_lines: usize) -> Seq<char> {
    if context_lines > 0 {
        path + ":"@ + decimal(line_number) + ":\n"@ + pending_text(pending) + ">"@ + decimal(line_number) + ": "@ + line + "\n"@
    } else {
        path + ":"@ + decimal(line_number) + ": "@ + line
    }
}

/// What the collector holds.
pub struct CollectorView {
    pub results: Seq<Seq<char>>,
    pub match_count: nat,
    pub pending: Seq<(u64, Seq<char>)>,
    pub path: Seq<char>,
    pub max_results: usize,
    pub context_lines: usize,
}

/// Collects the matches of a search, with their context, across files.
pub struct SearchCollector {
    results: Vec<String>,
    match_count: usize,
    max_results: usize,
    context_lines: usize,
    path_display: String,
    pending_before: Vec<(u64, String)>,
}

pub open spec fn pending_view(p: Seq<(u64, String)>) -> Seq<(u64, Seq<char>)> {
    p.map_values(|x: (u64, String)| (x.0, x.1@))
}

impl View for SearchCollector {
    type V = CollectorView;

    closed spec fn view(&self) -> CollectorView {
        CollectorView {
            results: views(self.results@),
            match_count: self.match_count as nat,
            pending: pending_view(self.pending_before@),
            path: self.path_display@,
            max_results: self.max_results,
            context_lines: self.context_lines,
        }
    }
}

impl SearchCollector {
    /// A collector with no results.
    pub fn new(max_results: usize, context_lines: usize) -> (r: Self)
        ensures
            r@.results.len() == 0,
            r@.match_count == 0,
            r@.pending.len() == 0,
            r@.path.len() == 0,
            r@.max_results == max_results,
            r@.context_lines == context_lines,
    {
        let r = SearchCollector {
            results: Vec::new(),
            match_count: 0,
            max_results,
            context_lines,
            path_display: String::new(),
            pending_before: Vec::new(),
        };
        proof { reveal_strlit(""); }
        assert(views(r.results@) =~= Seq::<Seq<char>>::empty());
        assert(pending_view(r.pending_before@) =~= Seq::<(u64, Seq<char>)>::empty());
        r
    }

    /// Begin a file, shown as `path_display`: no context is pending.
    pub fn start_file(&mut self, path_display: String)
        ensures
            final(self)@ == (CollectorView { path: path_display@, pending: Seq::empty(), ..old(self)@ }),
    {
        self.path_display = path_display;
        self.pending_before = Vec::new();
        assert(pending_view(self.pending_before@) =~= Seq::<(u64, Seq<char>)>::empty());
    }

    /// Whether enough results were collected to stop walking.
    pub fn is_full(&self) -> (r: bool)
        ensures
            r == (self@.results.len() >= self@.max_results),
    {
        self.results.len() >= self.max_results
    }

    /// The number of matches seen.
    pub fn match_count(&self) -> (r: usize)
        ensures
            r == self@.match_count,
    {
        self.match_count
    }

    /// A match on line `line_number` (0 when unknown): its result is added
    /// (taking the pending context), the count grows (wrapping), and the
    /// answer says whether to go on with the file (fewer results than the
    /// limit).
    pub fn matched(&mut self, line_number: Option<u64>, bytes: &[u8]) -> (r: bool)
        ensures
            ({
                let ln = match line_number { Some(n) => n as nat, None => 0 };
                let res = old(self)@.results.push(match_result(old(self)@.path, ln, line_text_of(bytes@), old(self)@.pending, old(self)@.context_lines));
                &&& final(self)@ == (CollectorView {
                    results: res,
                    match_count: if old(self)@.match_count < usize::MAX { old(self)@.match_count + 1 } else { 0 },
                    pending: if old(self)@.context_lines > 0 { Seq::empty() } else { old(self)@.pending },
                    ..old(self)@
                })
                &&& r == (res.len() < old(self)@.max_results)
            }),
    {
        let ln: u64 = match line_number { Some(n) => n, None => 0 };
        let line = line_text(bytes);
        self.match_count = if self.match_count < usize::MAX { self.match_count + 1 } else { 0 };
        let mut result = String::from_str(self.path_display.as_str());
        push_str(&mut result, ":");
        push_decimal(&mut result, ln);
        if self.context_lines > 0 {
            push_str(&mut result, ":\n");
            let mut i: usize = 0;
            let ghost head = result@;
            assert(pending_view(self.pending_before@).subrange(0, 0) =~= Seq::<(u64, Seq<char>)>::empty());
            assert(head + pending_text(Seq::empty()) =~= head);
            while i < self.pending_before.len()
                invariant
                    i <= self.pending_before@.len(),
                    self.pending_before@ == old(self).pending_before@,
                    result@ == head + pending_text(pending_view(self.pending_before@).subrange(0, i as int)),
                decreases self.pending_before@.len() - i,
            {
                let ghost pv = pending_view(self.pending_before@);
                assert(pv.subrange(0, i + 1).drop_last() =~= pv.subrange(0, i as int));
                assert(pv.subrange(0, i + 1).last() == (self.pending_before@[i as int].0, self.pending_before@[i as int].1@));
                push_str(&mut result, " ");
                push_decimal(&mut result, self.pending_before[i].0);
                push_str(&mut result, ": ");
                push_str(&mut result, self.pending_before[i].1.as_str());
                push_str(&mut result, "\n");
                i = i + 1;
            }
            assert(pending_view(self.pending_before@).subrange(0, self.pending_before@.len() as int) =~= pending_view(self.pending_before@));
            push_str(&mut result, ">");
            push_decimal(&mut result, ln);
            push_str(&mut result, ": ");
            push_str(&mut result, line.as_str());
            push_str(&mut result, "\n");
            self.pending_before = Vec::new();
            assert(pending_view(self.pending_before@) =~= Seq::<(u64, Seq<char>)>::empty());
        } else {
            push_str(&mut result, ": ");
            push_str(&mut result, line.as_str());
        }
        proof { lemma_views_push(self.results@, result); }
        self.results.push(result);
        self.results.len() < self.max_results
    }

    /// A context line: before a match (or unplaced), it waits for the next
    /// match; after one, it is added to the last result.
    pub fn context(&mut self, kind: ContextKind, line_number: Option<u64>, bytes: &[u8])
        ensures
            ({
                let ln = match line_number { Some(n) => n, None => 0 };
                let line = line_text_of(bytes@);
                if kind == ContextKind::After {
                    let rs = old(self)@.results;
                    final(self)@ == (CollectorView {
                        results: if rs.len() > 0 { rs.update(rs.len() - 1, rs.last() + " "@ + decimal(ln as nat) + ": "@ + line + "\n"@) } else { rs },
                        ..old(self)@
                    })
                } else {
                    final(self)@ == (CollectorView { pending: old(self)@.pending.push((ln, line)), ..old(self)@ })
                }
            }),
    {
        let ln: u64 = match line_number { Some(n) => n, None => 0 };
        let line = line_text(bytes);
        match kind {
            ContextKind::After => {
                let n = self.results.len();
                if n > 0 {
                    let mut last = self.results[n - 1].clone();
                    push_str(&mut last, " ");
                    push_decimal(&mut last, ln);
                    push_str(&mut last, ": ");
                    push_str(&mut last, line.as_str());
                    push_str(&mut last, "\n");
                    let ghost lv = last@;
                    self.results.set(n - 1, last);
                    assert(views(self.results@) =~= views(old(self).results@).update(n - 1, lv));
                }
            },
            _ => {
                let ghost lv = line@;
                self.pending_before.push((ln, line));
                assert(pending_view(self.pending_before@) =~= pending_view(old(self).pending_before@).push((ln, lv)));
            },
        }
    }

    /// A break between context groups: pending context is dropped.
    pub fn context_break(&mut self)
        ensures
            final(self)@ == (CollectorView { pending: Seq::empty(), ..old(self)@ }),
    {
        self.pending_before = Vec::new();
        assert(pending_view(self.pending_before@) =~= Seq::<(u64, Seq<char>)>::empty());
    }

    /// The tool's output: the results, one per line (or "No matches
    /// found"), with a note when the limit was reached.
    pub fn output(&self) -> (r: String)
        ensures
            r@ == search_output_text(self@.results, self@.max_results),
    {
        let mut out = if self.results.len() == 0 {
            proof { reveal_strlit("No matches found"); }
            String::from_str("No matches found")
        } else {
            join_strings(self.results.as_slice(), "\n")
        };
        if self.results.len() >= self.max_results {
            push_str(&mut out, "\n... (truncated, reached max_results of ");
            push_decimal(&mut out, self.max_results as u64);
            push_str(&mut out, ")");
        }
        out
    }
}

/// The output of a search with these results.
pub open spec fn search_output_text(results: Seq<Seq<char>>, max_results: usize) -> Seq<char> {
    let body = if results.len() == 0 { "No matches found"@ } else { join(results, "\n"@) };
    if results.len() >= max_results {
        body + "\n... (truncated, reached max_results of "@ + decimal(max_results as nat) + ")"@
    } else {
        body
    }
}

/// The hint given when a search matched much: more than 50 matches.
pub open spec fn steering_hint_text(match_count: nat) -> Option<Seq<char>> {
    if match_count > 50 {
        Some("Search returned "@ + decimal(match_count) + " results. Consider narrowing with specific terms, extensions (e.g. extensions=\"rs,py\"), or a sub-path."@)
    } else {
        None
    }
}

/// The hint given after a search (see `steering_hint_text`).
pub fn steering_hint(match_count: usize) -> (r: Option<String>)
    ensures
        match steering_hint_text(match_count as nat) {
            Some(t) => r matches Some(x) && x@ == t,
            None => r is None,
        },
{
    if match_count > 50 {
        let mut r = String::from_str("Search returned ");
        push_decimal(&mut r, match_count as u64);
        push_str(&mut r, " results. Consider narrowing with specific terms, extensions (e.g. extensions=\"rs,py\"), or a sub-path.");
        Some(r)
    } else {
        None
    }
}

/// How a file of the walk is shown: relative to the search root when it
/// is under it.
pub fn path_display(path: &str, root: &str) -> (r: String)
    ensures
        r@ == match crate::sandbox::workspace::strip_prefix_spec(path@, root@) { Some(p) => p, None => path@ },
{
    match crate::sandbox::workspace::strip_path_prefix(path, root) {
        Some(p) => p,
        None => String::from_str(path),
    }
}

impl Tool for SearchTool {
    fn name(&self) -> (r: &str)
        ensures
            r@ == "search"@,
    {
        "search"
    }

    fn description(&self) -> (r: &str)
        ensures
            r@ == "Fast file search powered by ripgrep: .gitignore-aware, context lines, extension/glob filtering, binary detection, memory-mapped I/O."@,
    {
        "Fast file search powered by ripgrep: .gitignore-aware, context lines, extension/glob filtering, binary detection, memory-mapped I/O."
    }
}

} // verus!
