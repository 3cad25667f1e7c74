//! Escaping, chunking and final formatting of Telegram messages.
use vstd::prelude::*;
use crate::telegram::markdown::{markdown_events_of, markdown_to_telegram_html, render_events};
use crate::text::{
    trim,
    ends_with, ends_with_exec, extend_vec, find, find_exec, lemma_find_result, replace_all,
    replace_all_exec, starts_with, starts_with_exec,
    byte_len, byte_len_at_most, char_width_exec, chars_of, lemma_byte_len_push, lemma_char_width_pos,
    lemma_byte_len_prefix_mono, lemma_rfind_char_last, lemma_rfind_char_range, push_char, push_str, rfind_char,
    rfind_char_exec, slice_vec, str_byte_len, string_of,
};

verus! {

/// HTML escaping of one character: `&`, `<` and `>` become entities.
pub open spec fn html_escape_char(c: char) -> Seq<char> {
    if c == '&' {
        "&amp;"@
    } else if c == '<' {
        "&lt;"@
    } else if c == '>' {
        "&gt;"@
    } else {
        seq![c]
    }
}

/// HTML escaping of a character sequence, one character at a time.
pub open spec fn html_escape(s: Seq<char>) -> Seq<char>
    decreases s.len(),
{
    if s.len() == 0 {
        Seq::empty()
    } else {
        html_escape(s.drop_last()) + html_escape_char(s.last())
    }
}

/// Attribute escaping of one character: `&`, `"` and `'` become entities.
pub open spec fn attr_escape_char(c: char) -> Seq<char> {
    if c == '&' {
        "&amp;"@
    } else if c == '"' {
        "&quot;"@
    } else if c == '\'' {
        "&#39;"@
    } else {
        seq![c]
    }
}

/// Attribute escaping of a character sequence.
pub open spec fn attr_escape(s: Seq<char>) -> Seq<char>
    decreases s.len(),
{
    if s.len() == 0 {
        Seq::empty()
    } else {
        attr_escape(s.drop_last()) + attr_escape_char(s.last())
    }
}

fn escape_html_chars(s: &[char]) -> (r: String)
    ensures
        r@ == html_escape(s@),
{
    let mut out = String::new();
    let mut i: usize = 0;
    while i < s.len()
        invariant
            i <= s@.len(),
            out@ == html_escape(s@.subrange(0, i as int)),
        decreases s@.len() - i,
    {
        let c = s[i];
        if c == '&' {
            push_str(&mut out, "&amp;");
        } else if c == '<' {
            push_str(&mut out, "&lt;");
        } else if c == '>' {
            push_str(&mut out, "&gt;");
        } else {
            push_char(&mut out, c);
        }
        assert(s@.subrange(0, i + 1).drop_last() =~= s@.subrange(0, i as int));
        i = i + 1;
    }
    assert(s@.subrange(0, s@.len() as int) =~= s@);
    out
}

/// Escape Telegram plain text to prevent accidental Markdown/HTML parsing.
pub fn escape_telegram_plain_text(text: &str) -> (r: String)
    ensures
        r@ == html_escape(text@),
{
    let cs = chars_of(text);
    escape_html_chars(&cs)
}

/// Escape HTML special characters for Telegram HTML parse mode.
pub fn escape_html(text: &str) -> (r: String)
    ensures
        r@ == html_escape(text@),
{
    let cs = chars_of(text);
    escape_html_chars(&cs)
}

/// Escape an HTML attribute value (quotes and ampersand).
pub fn escape_attr(text: &str) -> (r: String)
    ensures
        r@ == attr_escape(text@),
{
    let s = chars_of(text);
    let mut out = String::new();
    let mut i: usize = 0;
    while i < s.len()
        invariant
            i <= s@.len(),
            out@ == attr_escape(s@.subrange(0, i as int)),
        decreases s@.len() - i,
    {
        let c = s[i];
        if c == '&' {
            push_str(&mut out, "&amp;");
        } else if c == '"' {
            push_str(&mut out, "&quot;");
        } else if c == '\'' {
            push_str(&mut out, "&#39;");
        } else {
            push_char(&mut out, c);
        }
        assert(s@.subrange(0, i + 1).drop_last() =~= s@.subrange(0, i as int));
        i = i + 1;
    }
    assert(s@.subrange(0, s@.len() as int) =~= s@);
    out
}

/// Escaped text never holds a raw `<` or `>`, so Telegram cannot read a tag in it.
pub proof fn lemma_html_escape_has_no_angle_brackets(s: Seq<char>)
    ensures
        forall|i: int| 0 <= i < html_escape(s).len() ==> html_escape(s)[i] != '<' && html_escape(s)[i] != '>',
    decreases s.len(),
{
    reveal_strlit("&amp;");
    reveal_strlit("&lt;");
    reveal_strlit("&gt;");
    if s.len() > 0 {
        lemma_html_escape_has_no_angle_brackets(s.drop_last());
        let a = html_escape(s.drop_last());
        let b = html_escape_char(s.last());
        assert forall|i: int| 0 <= i < (a + b).len() implies (a + b)[i] != '<' && (a + b)[i] != '>' by {
            if i >= a.len() {
                assert((a + b)[i] == b[i - a.len()]);
            }
        }
    }
}

/// Escaping is the identity on text without `&`, `<` and `>`.
pub proof fn lemma_html_escape_plain(s: Seq<char>)
    requires
        forall|i: int| 0 <= i < s.len() ==> s[i] != '&' && s[i] != '<' && s[i] != '>',
    ensures
        html_escape(s) == s,
    decreases s.len(),
{
    if s.len() > 0 {
        lemma_html_escape_plain(s.drop_last());
        assert(s.drop_last().push(s.last()) =~= s);
    }
}

/// The start tag that `maybe_collapse` wraps long text in.
pub open spec fn collapse_open() -> Seq<char> {
    "<blockquote expandable>"@
}

/// The end tag that `maybe_collapse` wraps long text in.
pub open spec fn collapse_close() -> Seq<char> {
    "</blockquote>"@
}

/// Wrap text in a collapsible blockquote if it exceeds `threshold` bytes.
/// Returns the HTML text and whether HTML parse mode is needed.
pub fn maybe_collapse(text: &str, threshold: usize) -> (r: (String, bool))
    ensures
        byte_len(text@) > threshold ==> r.0@ == collapse_open() + html_escape(text@) + collapse_close() && r.1,
        byte_len(text@) <= threshold ==> r.0@ == html_escape(text@) && !r.1,
{
    let escaped = escape_html(text);
    if str_byte_len(text) > threshold {
        let mut out = String::new();
        push_str(&mut out, "<blockquote expandable>");
        push_str(&mut out, escaped.as_str());
        push_str(&mut out, "</blockquote>");
        assert(out@ =~= collapse_open() + html_escape(text@) + collapse_close());
        (out, true)
    } else {
        (escaped, false)
    }
}

} // verus!
verus! {

/// Largest chunk, in bytes, that `chunk_message` produces.
pub open spec fn max_chunk_bytes() -> int {
    4000
}

/// Whether the first `k` characters of `s` are the most that fit in a
/// chunk: they take at most the limit in bytes, and one more would not.
pub open spec fn fits_at(s: Seq<char>, k: int) -> bool {
    &&& 0 <= k <= s.len()
    &&& byte_len(s.subrange(0, k)) <= max_chunk_bytes()
    &&& (k == s.len() || byte_len(s.subrange(0, k + 1)) > max_chunk_bytes())
}

/// The most characters from index `k` on that still fit in a chunk.
pub open spec fn fit_from(s: Seq<char>, k: int) -> int
    decreases s.len() - k,
{
    if 0 <= k < s.len() && byte_len(s.subrange(0, k + 1)) <= max_chunk_bytes() {
        fit_from(s, k + 1)
    } else {
        k
    }
}

/// How many leading characters of `s` fit in a chunk (the cut falls on a
/// character boundary).
pub open spec fn fit_chars(s: Seq<char>) -> int {
    fit_from(s, 0)
}

/// Where `chunk_message` cuts a text longer than the limit: within the
/// characters that fit, at the last newline, else at the last space, else
/// after the characters that fit; a break at the very start is not used.
pub open spec fn chunk_split(s: Seq<char>) -> int {
    let k = fit_chars(s);
    let nl = rfind_char(s.subrange(0, k), '\n');
    let sp = rfind_char(s.subrange(0, k), ' ');
    if nl is Some && nl->0 > 0 {
        nl->0
    } else if sp is Some && sp->0 > 0 {
        sp->0
    } else {
        k
    }
}

/// The chunks of `s`, in order.
pub open spec fn chunks(s: Seq<char>) -> Seq<Seq<char>>
    decreases s.len(),
{
    if byte_len(s) <= max_chunk_bytes() {
        seq![s]
    } else if 0 < chunk_split(s) <= s.len() {
        seq![s.subrange(0, chunk_split(s))] + chunks(s.subrange(chunk_split(s), s.len() as int))
    } else {
        seq![s]
    }
}

proof fn lemma_fit_from(s: Seq<char>, k: int)
    requires
        0 <= k <= s.len(),
        byte_len(s.subrange(0, k)) <= max_chunk_bytes(),
    ensures
        fits_at(s, fit_from(s, k)),
        k <= fit_from(s, k),
    decreases s.len() - k,
{
    if k < s.len() && byte_len(s.subrange(0, k + 1)) <= max_chunk_bytes() {
        lemma_fit_from(s, k + 1);
    }
}

proof fn lemma_empty_byte_len()
    ensures
        byte_len(Seq::<char>::empty()) == 0,
{
    assert(vstd::utf8::encode_utf8(Seq::<char>::empty()) =~= Seq::<u8>::empty());
}

/// A text over the limit: at least one character fits, not all of them do,
/// and the cut falls strictly inside the text, within what fits.
proof fn lemma_chunk_split_bound(s: Seq<char>)
    requires
        byte_len(s) > max_chunk_bytes(),
    ensures
        ({
            let k = fit_chars(s);
            &&& fits_at(s, k)
            &&& 1 <= k < s.len()
            &&& 0 < chunk_split(s) <= k
        }),
{
    lemma_empty_byte_len();
    assert(s.subrange(0, 0) =~= Seq::<char>::empty());
    lemma_fit_from(s, 0);
    let k = fit_chars(s);
    assert(s.subrange(0, s.len() as int) =~= s);
    if s.len() == 0 {
        assert(s =~= Seq::<char>::empty());
    }
    assert(s.subrange(0, 1) =~= Seq::<char>::empty().push(s[0]));
    lemma_byte_len_push(Seq::<char>::empty(), s[0]);
    lemma_char_width_pos(s[0]);
    lemma_rfind_char_range(s.subrange(0, k), '\n');
    lemma_rfind_char_range(s.subrange(0, k), ' ');
}

/// A text over the limit whose first chunk's worth holds a newline after
/// its first character is cut at the last such newline: the first chunk
/// ends just before a newline that still fits in the chunk, and no fitting
/// newline lies after that one. The newline opens the next chunk.
pub proof fn lemma_first_chunk_ends_at_last_newline(s: Seq<char>, j: int)
    requires
        byte_len(s) > max_chunk_bytes(),
        0 < j < s.len(),
        s[j] == '\n',
        byte_len(s.subrange(0, j + 1)) <= max_chunk_bytes(),
    ensures
        ({
            let n = chunks(s)[0].len();
            &&& chunks(s)[0] == s.subrange(0, n as int)
            &&& j <= n < s.len()
            &&& s[n as int] == '\n'
            &&& byte_len(s.subrange(0, (n + 1) as int)) <= max_chunk_bytes()
        }),
{
    lemma_chunk_split_bound(s);
    let k = fit_chars(s);
    if j >= k {
        lemma_byte_len_prefix_mono(s, k + 1, j + 1);
    }
    assert(j < k);
    let w = s.subrange(0, k);
    assert(w[j] == s[j]);
    lemma_rfind_char_last(w, '\n', j);
    let p = rfind_char(w, '\n')->0;
    assert(chunk_split(s) == p);
    assert(w[p] == s[p]);
    lemma_byte_len_prefix_mono(s, p + 1, k);
    assert(chunks(s)[0] == s.subrange(0, p));
}

/// A text over the limit whose first chunk's worth holds no newline after
/// its first character is cut at the last space that fits after the first
/// character; with neither, the first chunk is the longest prefix that fits
/// in the limit.
pub proof fn lemma_first_chunk_without_newline(s: Seq<char>)
    requires
        byte_len(s) > max_chunk_bytes(),
        forall|j: int| 0 < j < s.len() && byte_len(s.subrange(0, j + 1)) <= max_chunk_bytes() ==> s[j] != '\n',
    ensures
        ({
            let n = chunks(s)[0].len();
            &&& chunks(s)[0] == s.subrange(0, n as int)
            &&& 0 < n < s.len()
            &&& forall|j: int| 0 < j < s.len() && s[j] == ' ' && byte_len(s.subrange(0, j + 1)) <= max_chunk_bytes()
                ==> j <= n && s[n as int] == ' ' && byte_len(s.subrange(0, (n + 1) as int)) <= max_chunk_bytes()
            &&& (forall|j: int| 0 < j < s.len() && byte_len(s.subrange(0, j + 1)) <= max_chunk_bytes() ==> s[j] != ' ')
                ==> byte_len(s.subrange(0, n as int)) <= max_chunk_bytes()
                    && byte_len(s.subrange(0, (n + 1) as int)) > max_chunk_bytes()
        }),
{
    lemma_chunk_split_bound(s);
    let k = fit_chars(s);
    let w = s.subrange(0, k);
    lemma_rfind_char_range(w, '\n');
    lemma_rfind_char_range(w, ' ');
    if let Some(p) = rfind_char(w, '\n') {
        if p > 0 {
            assert(w[p] == s[p]);
            lemma_byte_len_prefix_mono(s, p + 1, k);
            assert(false);
        }
    }
    let n = chunk_split(s);
    assert(chunks(s)[0] == s.subrange(0, n));
    assert forall|j: int| 0 < j < s.len() && s[j] == ' ' && byte_len(s.subrange(0, j + 1)) <= max_chunk_bytes()
        implies j <= n && s[n] == ' ' && byte_len(s.subrange(0, n + 1)) <= max_chunk_bytes() by {
        if j >= k {
            lemma_byte_len_prefix_mono(s, k + 1, j + 1);
        }
        assert(w[j] == s[j]);
        lemma_rfind_char_last(w, ' ', j);
        let p = rfind_char(w, ' ')->0;
        assert(w[p] == s[p]);
        lemma_byte_len_prefix_mono(s, p + 1, k);
    }
    if forall|j: int| 0 < j < s.len() && byte_len(s.subrange(0, j + 1)) <= max_chunk_bytes() ==> s[j] != ' ' {
        if let Some(p) = rfind_char(w, ' ') {
            if p > 0 {
                assert(w[p] == s[p]);
                lemma_byte_len_prefix_mono(s, p + 1, k);
                assert(false);
            }
        }
        assert(n == k);
    }
}

/// Chunking loses nothing: the chunks joined back give the text.
pub proof fn lemma_chunks_concat(s: Seq<char>)
    ensures
        chunks(s).flatten() == s,
    decreases s.len(),
{
    if byte_len(s) <= max_chunk_bytes() {
        let c = chunks(s);
        assert(c == seq![s]);
        assert(c.drop_first() =~= Seq::<Seq<char>>::empty());
        assert(c.drop_first().flatten() =~= Seq::<char>::empty());
        assert(c.first() == s);
        assert(c.flatten() =~= s);
    } else {
        lemma_chunk_split_bound(s);
        let p = chunk_split(s);
        let rest = s.subrange(p, s.len() as int);
        lemma_chunks_concat(rest);
        let c = chunks(s);
        assert(c.drop_first() =~= chunks(rest));
        assert(c.flatten() =~= s.subrange(0, p) + rest);
        assert(s.subrange(0, p) + rest =~= s);
    }
}

/// Every chunk fits the limit, a text within the limit is one chunk, and
/// a longer text has no empty chunk.
pub proof fn lemma_chunks_bounded(s: Seq<char>)
    ensures
        chunks(s).len() >= 1,
        forall|i: int| 0 <= i < chunks(s).len() ==> byte_len(#[trigger] chunks(s)[i]) <= max_chunk_bytes(),
        byte_len(s) <= max_chunk_bytes() ==> chunks(s) == seq![s],
        byte_len(s) > max_chunk_bytes() ==> forall|i: int| 0 <= i < chunks(s).len() ==> #[trigger] chunks(s)[i].len() > 0,
    decreases s.len(),
{
    if byte_len(s) > max_chunk_bytes() {
        lemma_chunk_split_bound(s);
        let p = chunk_split(s);
        let rest = s.subrange(p, s.len() as int);
        lemma_chunks_bounded(rest);
        let k = fit_chars(s);
        lemma_byte_len_prefix_mono(s, p, k);
        let c = chunks(s);
        assert(rest.len() > 0);
        assert forall|i: int| 0 <= i < c.len() implies byte_len(#[trigger] c[i]) <= max_chunk_bytes() && c[i].len() > 0 by {
            if i > 0 {
                assert(c[i] == chunks(rest)[i - 1]);
                if byte_len(rest) <= max_chunk_bytes() {
                    assert(chunks(rest) == seq![rest]);
                }
            }
        }
    }
}

/// How many leading characters of `s` fit in a chunk.
fn fit_chars_exec(s: &[char]) -> (k: usize)
    ensures
        k == fit_chars(s@),
{
    let mut i: usize = 0;
    let mut total: usize = 0;
    proof { lemma_empty_byte_len(); }
    assert(s@.subrange(0, 0) =~= Seq::<char>::empty());
    while i < s.len()
        invariant
            i <= s@.len(),
            total == byte_len(s@.subrange(0, i as int)),
            total <= 4000,
            fit_from(s@, i as int) == fit_from(s@, 0),
        decreases s@.len() - i,
    {
        let w = char_width_exec(s[i]);
        proof {
            assert(s@.subrange(0, i + 1) =~= s@.subrange(0, i as int).push(s@[i as int]));
            lemma_byte_len_push(s@.subrange(0, i as int), s@[i as int]);
        }
        if w > 4000 - total {
            return i;
        }
        total = total + w;
        i = i + 1;
    }
    i
}

/// Chunk a message near Telegram's 4096 character limit (4000 bytes per
/// chunk, cut between characters). Every text is chunked (see `chunks`).
/// Callers that wrap chunks in HTML must chunk the raw text first, then
/// wrap each chunk.
pub fn chunk_message(text: &str) -> (r: Vec<String>)
    ensures
        r@.map_values(|c: String| c@) == chunks(text@),
        r@.map_values(|c: String| c@).flatten() == text@,
        r.len() >= 1,
        forall|i: int| 0 <= i < r.len() ==> byte_len(#[trigger] r@[i]@) <= max_chunk_bytes(),
        byte_len(text@) <= max_chunk_bytes() ==> r.len() == 1 && r@[0]@ == text@,
        byte_len(text@) > max_chunk_bytes() ==> forall|i: int| 0 <= i < r.len() ==> (#[trigger] r@[i]@).len() > 0,
{
    let s = chars_of(text);
    let mut out: Vec<String> = Vec::new();
    let mut pos: usize = 0;
    assert(s@.subrange(0, s@.len() as int) =~= s@);
    assert(out@.map_values(|c: String| c@) + chunks(s@) =~= chunks(s@));
    loop
        invariant
            s@ == text@,
            pos <= s@.len(),
            out@.map_values(|c: String| c@) + chunks(s@.subrange(pos as int, s@.len() as int)) == chunks(text@),
        decreases s@.len() - pos,
    {
        let rest = slice_vec(&s, pos, s.len());
        let ghost old_out = out@.map_values(|c: String| c@);
        if byte_len_at_most(&rest, 4000) {
            out.push(string_of(&rest));
            assert(out@.map_values(|c: String| c@) =~= old_out.push(rest@));
            assert(out@.map_values(|c: String| c@) =~= chunks(text@));
            proof {
                lemma_chunks_concat(text@);
                lemma_chunks_bounded(text@);
                assert forall|i: int| 0 <= i < out.len() implies (#[trigger] out@[i]@) == chunks(text@)[i] by {
                    assert(out@.map_values(|c: String| c@)[i] == out@[i]@);
                }
            }
            return out;
        }
        proof { lemma_chunk_split_bound(rest@); }
        let k = fit_chars_exec(&rest);
        let split = match rfind_char_exec(&rest, k, '\n') {
            Some(p) if p > 0 => p,
            _ => match rfind_char_exec(&rest, k, ' ') {
                Some(p) if p > 0 => p,
                _ => k,
            },
        };
        assert(split == chunk_split(rest@));
        let piece = slice_vec(&rest, 0, split);
        out.push(string_of(&piece));
        proof {
            assert(out@.map_values(|c: String| c@) =~= old_out.push(piece@));
            assert(rest@.subrange(split as int, rest@.len() as int)
                =~= s@.subrange(pos + split, s@.len() as int));
            assert(chunks(rest@) =~= seq![piece@] + chunks(rest@.subrange(split as int, rest@.len() as int)));
            assert(old_out.push(piece@) + chunks(s@.subrange(pos + split, s@.len() as int))
                =~= old_out + chunks(rest@));
        }
        pos = pos + split;
    }
}

} // verus!
verus! {

/// `<tag ` — an opening tag with attributes.
pub open spec fn open_start(tag: Seq<char>) -> Seq<char> {
    seq!['<'] + tag + seq![' ']
}

/// `<tag>` — an opening tag without attributes.
pub open spec fn open_simple(tag: Seq<char>) -> Seq<char> {
    seq!['<'] + tag + seq!['>']
}

/// `</tag>` — the closing tag.
pub open spec fn close_tag(tag: Seq<char>) -> Seq<char> {
    seq!['<', '/'] + tag + seq!['>']
}

/// Position of the next opening tag: the first `<tag ` if there is one,
/// otherwise the first `<tag>`.
pub open spec fn next_open(rest: Seq<char>, tag: Seq<char>) -> Option<int> {
    match find(rest, open_start(tag)) {
        Some(p) => Some(p),
        None => find(rest, open_simple(tag)),
    }
}

/// Output of `strip_xml_tag` once `acc` has been emitted and `rest` remains.
pub open spec fn strip_from(acc: Seq<char>, rest: Seq<char>, tag: Seq<char>, repl: Seq<char>) -> Seq<char>
    decreases rest.len(),
{
    if rest.len() == 0 {
        acc
    } else {
        match next_open(rest, tag) {
            None => acc + rest,
            Some(p) => if !(0 <= p && p + open_start(tag).len() <= rest.len()) {
                acc + rest
            } else {
                let acc1 = acc + rest.subrange(0, p);
                let after = rest.subrange(p, rest.len() as int);
                match find(after, close_tag(tag)) {
                    Some(cp) => {
                        let skip = cp + close_tag(tag).len();
                        if !(0 <= cp && skip <= after.len()) {
                            acc + rest
                        } else {
                            let tail = after.subrange(skip, after.len() as int);
                            if repl.len() == 0 && ends_with(acc1, seq![' ']) && starts_with(tail, seq![' ']) {
                                strip_from(acc1 + repl, tail.subrange(1, tail.len() as int), tag, repl)
                            } else {
                                strip_from(acc1 + repl, tail, tag, repl)
                            }
                        }
                    },
                    None => strip_from(
                        acc1 + rest.subrange(p, p + open_start(tag).len()),
                        rest.subrange(p + open_start(tag).len(), rest.len() as int),
                        tag,
                        repl,
                    ),
                }
            },
        }
    }
}

/// Text with balanced `<tag ...>...</tag>` blocks replaced by `repl`.
pub open spec fn strip_xml(text: Seq<char>, tag: Seq<char>, repl: Seq<char>) -> Seq<char> {
    strip_from(Seq::empty(), text, tag, repl)
}

fn tag_pattern(prefix: &[char], tag: &[char], suffix: &[char]) -> (r: Vec<char>)
    ensures
        r@ == prefix@ + tag@ + suffix@,
{
    let mut r: Vec<char> = Vec::new();
    extend_vec(&mut r, prefix);
    extend_vec(&mut r, tag);
    extend_vec(&mut r, suffix);
    assert(r@ =~= prefix@ + tag@ + suffix@);
    r
}

/// Strip balanced `<tag ...>...</tag>` blocks from text, replacing each by
/// `replacement`. An opening tag with no closing tag is kept as text. When
/// the replacement is empty and the block stood between two spaces, one of
/// them is dropped.
pub fn strip_xml_tag(text: &[char], tag: &[char], replacement: &[char]) -> (r: Vec<char>)
    ensures
        r@ == strip_xml(text@, tag@, replacement@),
{
    let o_start = tag_pattern(&['<'], tag, &[' ']);
    let o_simple = tag_pattern(&['<'], tag, &['>']);
    let close = tag_pattern(&['<', '/'], tag, &['>']);
    assert(o_start@ == open_start(tag@));
    assert(o_simple@ == open_simple(tag@));
    assert(close@ == close_tag(tag@));
    let mut result: Vec<char> = Vec::new();
    let mut pos: usize = 0;
    assert(text@.subrange(0, text@.len() as int) =~= text@);
    while pos < text.len()
        invariant
            pos <= text@.len(),
            o_start@ == open_start(tag@),
            o_simple@ == open_simple(tag@),
            close@ == close_tag(tag@),
            strip_from(result@, text@.subrange(pos as int, text@.len() as int), tag@, replacement@)
                == strip_xml(text@, tag@, replacement@),
        decreases text@.len() - pos,
    {
        let rest = slice_vec(text, pos, text.len());
        let ghost r0 = result@;
        let open_pos = match find_exec(&rest, &o_start, 0) {
            Some(p) => Some(p),
            None => find_exec(&rest, &o_simple, 0),
        };
        assert(open_pos matches Some(p) ==> next_open(rest@, tag@) == Some(p as int));
        assert(open_pos is None ==> next_open(rest@, tag@) is None);
        match open_pos {
            None => {
                extend_vec(&mut result, &rest);
                assert(result@ == strip_xml(text@, tag@, replacement@));
                return result;
            }
            Some(p) => {
                proof {
                    lemma_find_result(rest@, o_start@);
                    lemma_find_result(rest@, o_simple@);
                }
                assert(o_simple@.len() == o_start@.len());
                assert(p + o_start@.len() <= rest@.len());
                let head = slice_vec(&rest, 0, p);
                extend_vec(&mut result, &head);
                let ghost acc1 = result@;
                let after = slice_vec(&rest, p, rest.len());
                match find_exec(&after, &close, 0) {
                    Some(cp) => {
                        proof { lemma_find_result(after@, close@); }
                        let skip = cp + close.len();
                        let tail = slice_vec(&after, skip, after.len());
                        let mut space: Vec<char> = Vec::new();
                        space.push(' ');
                        assert(space@ =~= seq![' ']);
                        let drop_space = replacement.len() == 0 && ends_with_exec(&result, &space)
                            && starts_with_exec(&tail, &space);
                        extend_vec(&mut result, replacement);
                        proof {
                            assert(tail@ =~= text@.subrange(pos + p + skip, text@.len() as int));
                        }
                        assert(drop_space == (replacement@.len() == 0 && ends_with(acc1, seq![' '])
                            && starts_with(tail@, seq![' '])));
                        if drop_space {
                            assert(tail@.subrange(1, tail@.len() as int)
                                =~= text@.subrange(pos + p + skip + 1, text@.len() as int));
                            assert(strip_from(r0, rest@, tag@, replacement@) == strip_from(
                                result@, tail@.subrange(1, tail@.len() as int), tag@, replacement@));
                            pos = pos + p + skip + 1;
                        } else {
                            assert(strip_from(r0, rest@, tag@, replacement@) == strip_from(
                                result@, tail@, tag@, replacement@));
                            pos = pos + p + skip;
                        }
                    }
                    None => {
                        let lit = slice_vec(&rest, p, p + o_start.len());
                        extend_vec(&mut result, &lit);
                        assert(rest@.subrange(p + o_start@.len(), rest@.len() as int)
                            =~= text@.subrange(pos + p + o_start@.len(), text@.len() as int));
                        assert(result@ =~= acc1 + rest@.subrange(p as int, p + o_start@.len()));
                        assert(strip_from(r0, rest@, tag@, replacement@) == strip_from(
                            result@, rest@.subrange(p + o_start@.len(), rest@.len() as int), tag@, replacement@));
                        pos = pos + p + o_start.len();
                    }
                }
            }
        }
    }
    assert(text@.subrange(pos as int, text@.len() as int) =~= Seq::<char>::empty());
    result
}

/// The closing tag of a tool-call list, removed outright by `sanitize_tool_call_syntax`.
pub open spec fn tool_calls_close() -> Seq<char> {
    "</tool_calls>"@
}

/// Text after `sanitize_tool_call_syntax`.
pub open spec fn sanitized(text: Seq<char>) -> Seq<char> {
    strip_xml(
        strip_xml(replace_all(text, tool_calls_close(), Seq::empty()), "invoke"@, "[tool call removed]"@),
        "parameter"@,
        Seq::empty(),
    )
}

/// Strip raw XML-like tool-call syntax that LLMs sometimes emit as prose:
/// `</tool_calls>` fragments, `<invoke ...>...</invoke>` blocks and
/// `<parameter ...>...</parameter>` blocks.
pub fn sanitize_tool_call_syntax(text: &str) -> (r: String)
    ensures
        r@ == sanitized(text@),
{
    let t = chars_of(text);
    let close = chars_of("</tool_calls>");
    proof { reveal_strlit("</tool_calls>"); }
    let empty: Vec<char> = Vec::new();
    let step1 = replace_all_exec(&t, &close, &empty);
    let invoke = chars_of("invoke");
    let removed = chars_of("[tool call removed]");
    let step2 = strip_xml_tag(&step1, &invoke, &removed);
    let parameter = chars_of("parameter");
    let step3 = strip_xml_tag(&step2, &parameter, &empty);
    assert(empty@ =~= Seq::<char>::empty());
    string_of(&step3)
}

} // verus!
verus! {

proof fn lemma_find_absent(s: Seq<char>, p: Seq<char>)
    requires
        p.len() > 0,
        p[0] == '<',
        forall|i: int| 0 <= i < s.len() ==> s[i] != '<',
    ensures
        find(s, p) is None,
{
    lemma_find_result(s, p);
    if let Some(k) = find(s, p) {
        assert(s.subrange(k, k + p.len())[0] == p[0]);
    }
}

/// Text without any `<` passes through `sanitize_tool_call_syntax` unchanged.
pub proof fn lemma_sanitize_plain_text(text: Seq<char>)
    requires
        forall|i: int| 0 <= i < text.len() ==> text[i] != '<',
    ensures
        sanitized(text) == text,
{
    reveal_strlit("</tool_calls>");
    lemma_find_absent(text, tool_calls_close());
    assert(replace_all(text, tool_calls_close(), Seq::empty()) == text);
    lemma_find_absent(text, open_start("invoke"@));
    lemma_find_absent(text, open_simple("invoke"@));
    lemma_find_absent(text, open_start("parameter"@));
    lemma_find_absent(text, open_simple("parameter"@));
    if text.len() > 0 {
        assert(Seq::<char>::empty() + text =~= text);
    }
    assert(strip_xml(text, "invoke"@, "[tool call removed]"@) == text);
    assert(strip_xml(text, "parameter"@, Seq::empty()) == text);
}

} // verus!
verus! {

/// Format a final message with Telegram HTML: tool-call syntax is removed,
/// then the Markdown is converted.
pub fn format_final_message(text: &str) -> (r: String)
    ensures
        r@ == trim(render_events(markdown_events_of(sanitized(text@)))),
{
    let s = sanitize_tool_call_syntax(text);
    markdown_to_telegram_html(s.as_str())
}

/// With a non-empty replacement, what was already emitted only comes
/// first: stripping goes on the same whatever precedes it.
proof fn lemma_strip_from_acc(acc: Seq<char>, rest: Seq<char>, tag: Seq<char>, repl: Seq<char>)
    requires
        repl.len() > 0,
    ensures
        strip_from(acc, rest, tag, repl) == acc + strip_from(Seq::empty(), rest, tag, repl),
    decreases rest.len(),
{
    let e = Seq::<char>::empty();
    if rest.len() == 0 {
        assert(acc + e =~= acc);
    } else {
        match next_open(rest, tag) {
            None => {
                assert(e + rest =~= rest);
            },
            Some(p) => if !(0 <= p && p + open_start(tag).len() <= rest.len()) {
                assert(e + rest =~= rest);
            } else {
                let after = rest.subrange(p, rest.len() as int);
                match find(after, close_tag(tag)) {
                    Some(cp) => {
                        let skip = cp + close_tag(tag).len();
                        if !(0 <= cp && skip <= after.len()) {
                            assert(e + rest =~= rest);
                        } else {
                            let tail = after.subrange(skip, after.len() as int);
                            let x = rest.subrange(0, p) + repl;
                            lemma_strip_from_acc(acc + rest.subrange(0, p) + repl, tail, tag, repl);
                            lemma_strip_from_acc(e + rest.subrange(0, p) + repl, tail, tag, repl);
                            assert(acc + rest.subrange(0, p) + repl =~= acc + x);
                            assert(e + rest.subrange(0, p) + repl =~= x);
                            assert(acc + x + strip_from(e, tail, tag, repl) =~= acc + (x + strip_from(e, tail, tag, repl)));
                        }
                    },
                    None => {
                        let lit = rest.subrange(p, p + open_start(tag).len());
                        let r2 = rest.subrange(p + open_start(tag).len(), rest.len() as int);
                        let x = rest.subrange(0, p) + lit;
                        lemma_strip_from_acc(acc + rest.subrange(0, p) + lit, r2, tag, repl);
                        lemma_strip_from_acc(e + rest.subrange(0, p) + lit, r2, tag, repl);
                        assert(acc + rest.subrange(0, p) + lit =~= acc + x);
                        assert(e + rest.subrange(0, p) + lit =~= x);
                        assert(acc + x + strip_from(e, r2, tag, repl) =~= acc + (x + strip_from(e, r2, tag, repl)));
                    },
                }
            },
        }
    }
}

/// A pattern that starts with `<` does not occur where the text has no `<`.
proof fn lemma_no_match_without_lt(s: Seq<char>, pat: Seq<char>, j: int)
    requires
        pat.len() > 0,
        pat[0] == '<',
        0 <= j < s.len(),
        s[j] != '<',
    ensures
        !crate::text::matches_at(s, pat, j),
{
    if crate::text::matches_at(s, pat, j) {
        assert(s.subrange(j, j + pat.len())[0] == s[j]);
    }
}

/// Stripping removes every balanced block, not just the first: text without
/// `<`, then a block `<tag ...>...</tag>` whose content has no `<`, then any
/// text, strips to that first text, the replacement, and the rest stripped
/// in turn (for a non-empty replacement and a tag without `<` or `/`).
pub proof fn lemma_strip_block_then_rest(
    before: Seq<char>,
    attrs_and_body: Seq<char>,
    after: Seq<char>,
    tag: Seq<char>,
    repl: Seq<char>,
)
    requires
        repl.len() > 0,
        forall|i: int| 0 <= i < before.len() ==> before[i] != '<',
        forall|i: int| 0 <= i < attrs_and_body.len() ==> attrs_and_body[i] != '<',
        forall|i: int| 0 <= i < tag.len() ==> tag[i] != '<' && tag[i] != '/',
    ensures
        strip_xml(before + open_start(tag) + attrs_and_body + close_tag(tag) + after, tag, repl)
            == before + repl + strip_xml(after, tag, repl),
{
    let os = open_start(tag);
    let ct = close_tag(tag);
    let text = before + os + attrs_and_body + ct + after;
    let b: int = before.len() as int;
    let m: int = (os.len() + attrs_and_body.len()) as int;
    // The first `<tag ` is right after `before`.
    assert(text.subrange(b, b + os.len() as int) =~= os);
    assert forall|j: int| 0 <= j < b implies !crate::text::matches_at(text, os, j) by {
        assert(text[j] == before[j]);
        lemma_no_match_without_lt(text, os, j);
    }
    assert(crate::text::matches_at(text, os, b));
    lemma_find_result(text, os);
    if let Some(k) = find(text, os) {
        if k < b {
            assert(!crate::text::matches_at(text, os, k));
        }
    }
    assert(find(text, os) == Some(b));
    assert(next_open(text, tag) == Some(b));
    // The first `</tag>` after it closes the block.
    let rest_after = text.subrange(b, text.len() as int);
    assert(rest_after =~= os + attrs_and_body + ct + after);
    assert(rest_after.subrange(m, m + ct.len() as int) =~= ct);
    assert forall|j: int| 0 <= j < m implies !crate::text::matches_at(rest_after, ct, j) by {
        if j == 0 {
            if crate::text::matches_at(rest_after, ct, 0) {
                assert(rest_after.subrange(0, ct.len() as int)[1] == rest_after[1]);
                assert(ct[1] == '/');
                if tag.len() > 0 {
                    assert(rest_after[1] == tag[0]);
                } else {
                    assert(rest_after[1] == ' ');
                }
            }
        } else if j < os.len() {
            if j <= tag.len() {
                assert(rest_after[j] == tag[j - 1]);
            } else {
                assert(rest_after[j] == ' ');
            }
            lemma_no_match_without_lt(rest_after, ct, j);
        } else {
            assert(rest_after[j] == attrs_and_body[j - os.len()]);
            lemma_no_match_without_lt(rest_after, ct, j);
        }
    }
    assert(crate::text::matches_at(rest_after, ct, m));
    lemma_find_result(rest_after, ct);
    if let Some(k) = find(rest_after, ct) {
        if k < m {
            assert(!crate::text::matches_at(rest_after, ct, k));
        }
    }
    assert(find(rest_after, ct) == Some(m));
    let skip: int = m + ct.len();
    assert(rest_after.subrange(skip, rest_after.len() as int) =~= after);
    assert(text.subrange(0, b) =~= before);
    assert(Seq::<char>::empty() + before =~= before);
    lemma_strip_from_acc(before + repl, after, tag, repl);
}

} // verus!
