//! The `edit` tool: a targeted replacement of one unique block of text.
use vstd::prelude::*;
use vstd::string::StringExecFns;
use crate::text::{
    byte_len, chars_of, decimal, extend_vec, find, find_exec, lemma_find_result, push_decimal,
    push_str, slice_vec, str_byte_len, string_of,
};
use crate::tools::error::ToolError;
use crate::tools::tool::Tool;

verus! {

/// Arguments of an `edit` call.
#[derive(Debug, Clone)]
pub struct EditArgs {
    /// Brief human-readable description of what this step does.
    pub label: String,
    /// Path to an existing file in the workspace.
    pub path: String,
    /// Exact unique text block to replace, including whitespace.
    pub old_text: String,
    /// Replacement text.
    pub new_text: String,
}

/// Number of non-overlapping occurrences of `p` in `s`, scanning left to
/// right (as `str::match_indices(p).count()` for a non-empty `p`).
pub open spec fn count_matches(s: Seq<char>, p: Seq<char>) -> nat
    decreases s.len(),
{
    if p.len() == 0 {
        0
    } else {
        match find(s, p) {
            Some(i) => if 0 <= i && i + p.len() <= s.len() {
                1 + count_matches(s.subrange(i + p.len(), s.len() as int), p)
            } else {
                0
            },
            None => 0,
        }
    }
}

proof fn lemma_count_matches_bound(s: Seq<char>, p: Seq<char>)
    ensures
        count_matches(s, p) <= s.len(),
    decreases s.len(),
{
    if p.len() > 0 {
        lemma_find_result(s, p);
        if let Some(i) = find(s, p) {
            if 0 <= i && i + p.len() <= s.len() {
                lemma_count_matches_bound(s.subrange(i + p.len(), s.len() as int), p);
            }
        }
    }
}

/// Counts the non-overlapping occurrences of a non-empty `p` in `s`.
pub fn count_matches_exec(s: &[char], p: &[char]) -> (n: usize)
    requires
        p@.len() > 0,
    ensures
        n == count_matches(s@, p@),
{
    let mut n: usize = 0;
    let mut pos: usize = 0;
    assert(s@.subrange(0, s@.len() as int) =~= s@);
    proof { lemma_count_matches_bound(s@, p@); }
    while pos <= s.len()
        invariant
            p@.len() > 0,
            pos <= s@.len(),
            n + count_matches(s@.subrange(pos as int, s@.len() as int), p@) == count_matches(s@, p@),
            count_matches(s@, p@) <= s@.len(),
        decreases s@.len() - pos,
    {
        proof { lemma_count_matches_bound(s@, p@); }
        let ghost rest = s@.subrange(pos as int, s@.len() as int);
        let tail = slice_vec(s, pos, s.len());
        match find_exec(&tail, p, 0) {
            Some(i) => {
                proof {
                    lemma_find_result(rest, p@);
                    lemma_count_matches_bound(rest, p@);
                }
                assert(rest.subrange(i + p@.len(), rest.len() as int)
                    =~= s@.subrange(pos + i + p@.len(), s@.len() as int));
                n = n + 1;
                pos = pos + i + p.len();
            },
            None => {
                return n;
            },
        }
    }
    n
}

/// How an `edit` ends on a file with text `content`: the text with the
/// unique occurrence of `old` replaced by `new`, or why not.
pub open spec fn edit_outcome(path: Seq<char>, content: Seq<char>, old: Seq<char>, new: Seq<char>)
    -> Result<Seq<char>, Seq<char>>
{
    let n = count_matches(content, old);
    if old.len() == 0 {
        Err("oldText must not be empty"@)
    } else if n == 0 {
        Err("oldText not found in "@ + path)
    } else if n > 1 {
        Err("oldText appears "@ + decimal(n) + " times in "@ + path + "; include more context for a unique replacement"@)
    } else {
        let i = find(content, old)->0;
        Ok(content.subrange(0, i) + new + content.subrange(i + old.len(), content.len() as int))
    }
}

/// Replace the unique occurrence of `old_text` in `content` (the text of
/// the file at `path`) by `new_text`; an empty, missing or repeated
/// `old_text` is refused.
pub fn edit_text(path: &str, content: &str, old_text: &str, new_text: &str) -> (r: Result<String, ToolError>)
    ensures
        match edit_outcome(path@, content@, old_text@, new_text@) {
            Ok(t) => r matches Ok(x) && x@ == t,
            Err(m) => r matches Err(ToolError::InvalidArgs(x)) && x@ == m,
        },
{
    let s = chars_of(content);
    let p = chars_of(old_text);
    if p.len() == 0 {
        return Err(ToolError::InvalidArgs(String::from_str("oldText must not be empty")));
    }
    let n = count_matches_exec(&s, &p);
    if n == 0 {
        let mut m = String::from_str("oldText not found in ");
        push_str(&mut m, path);
        return Err(ToolError::InvalidArgs(m));
    }
    if n > 1 {
        let mut m = String::from_str("oldText appears ");
        push_decimal(&mut m, n as u64);
        push_str(&mut m, " times in ");
        push_str(&mut m, path);
        push_str(&mut m, "; include more context for a unique replacement");
        return Err(ToolError::InvalidArgs(m));
    }
    match find_exec(&s, &p, 0) {
        Some(i) => {
            proof { lemma_find_result(s@, p@); }
            assert(find(s@, p@) == Some(i as int));
            assert(i + p.len() <= s.len());
            let mut out = slice_vec(&s, 0, i);
            extend_vec(&mut out, &chars_of(new_text));
            extend_vec(&mut out, &slice_vec(&s, i + p.len(), s.len()));
            Ok(string_of(&out))
        },
        None => {
            Err(ToolError::InvalidArgs(String::from_str("oldText not found in ")))
        },
    }
}

/// The report of a completed edit.
pub open spec fn edit_report_text(path: Seq<char>, old: Seq<char>, new: Seq<char>) -> Seq<char> {
    "Edited "@ + path + ": replaced "@ + decimal(byte_len(old)) + " bytes with "@ + decimal(byte_len(new)) + " bytes"@
}

/// Report a completed edit with the sizes in bytes of both texts.
pub fn edit_report(path: &str, old_text: &str, new_text: &str) -> (r: String)
    ensures
        r@ == edit_report_text(path@, old_text@, new_text@),
{
    let mut r = String::from_str("Edited ");
    push_str(&mut r, path);
    push_str(&mut r, ": replaced ");
    push_decimal(&mut r, str_byte_len(old_text) as u64);
    push_str(&mut r, " bytes with ");
    push_decimal(&mut r, str_byte_len(new_text) as u64);
    push_str(&mut r, " bytes");
    r
}

/// An accepted edit changes exactly the one occurrence it names: the text
/// before it and after it is kept, and the replacement stands in its place.
pub proof fn lemma_edit_replaces_unique_occurrence(path: Seq<char>, content: Seq<char>, old: Seq<char>, new: Seq<char>)
    ensures
        edit_outcome(path, content, old, new) is Ok ==> {
            let i = find(content, old)->0;
            &&& count_matches(content, old) == 1
            &&& 0 <= i && i + old.len() <= content.len()
            &&& content.subrange(i, i + old.len()) == old
            &&& edit_outcome(path, content, old, new)->Ok_0.subrange(0, i) == content.subrange(0, i)
            &&& edit_outcome(path, content, old, new)->Ok_0.subrange(i, i + new.len()) == new
            &&& edit_outcome(path, content, old, new)->Ok_0.subrange(i + new.len(), content.len() - old.len() + new.len())
                == content.subrange(i + old.len(), content.len() as int)
        },
{
    if edit_outcome(path, content, old, new) is Ok {
        lemma_find_result(content, old);
        let i = find(content, old)->0;
        let out = edit_outcome(path, content, old, new)->Ok_0;
        assert(out.subrange(0, i) =~= content.subrange(0, i));
        assert(out.subrange(i, i + new.len()) =~= new);
        assert(out.subrange(i + new.len(), content.len() - old.len() + new.len())
            =~= content.subrange(i + old.len(), content.len() as int));
    }
}

/// The edit tool.
#[derive(Clone, Debug, Default)]
pub struct EditTool;

impl EditTool {
    pub fn new() -> (r: Self) {
        EditTool
    }
}

impl Tool for EditTool {
    fn name(&self) -> (r: &str)
        ensures
            r@ == "edit"@,
    {
        "edit"
    }

    fn description(&self) -> (r: &str)
        ensures
            r@ == "Perform a targeted text replacement in an existing file"@,
    {
        "Perform a targeted text replacement in an existing file"
    }
}

} // verus!
