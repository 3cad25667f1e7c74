//! Attachments of a chat message: which ones are downloaded, under which
//! file names, and how the downloaded files are summarised for the agent.
//! Fetching and writing the files is the frontend's work.
use vstd::prelude::*;
use vstd::string::StringExecFns;
use crate::text::{chars_of, decimal, int_decimal, join, join_strings, lemma_views_push, push_int_decimal, push_str, string_of, views};

verus! {

/// Whether a character is alphanumeric (`char::is_alphanumeric`).
pub uninterp spec fn char_alphanumeric(c: char) -> bool;

/// `char::is_alphanumeric`; its Unicode tables are named, not described.
#[verifier::external_body]
fn is_alphanumeric(c: char) -> (r: bool)
    ensures
        r == char_alphanumeric(c),
{
    c.is_alphanumeric()
}

/// A character kept in a file name: alphanumeric, `.`, `-` or `_`.
pub open spec fn filename_char(c: char) -> char {
    if char_alphanumeric(c) || c == '.' || c == '-' || c == '_' { c } else { '_' }
}

/// A file name with every other character replaced by `_`.
pub open spec fn sanitized_filename(name: Seq<char>) -> Seq<char> {
    name.map_values(|c: char| filename_char(c))
}

/// Replace every character of `name` that is not alphanumeric, `.`, `-`
/// or `_` by `_`.
pub fn sanitize_filename(name: &str) -> (r: String)
    ensures
        r@ == sanitized_filename(name@),
{
    let cs = chars_of(name);
    let mut out: Vec<char> = Vec::new();
    let mut i: usize = 0;
    while i < cs.len()
        invariant
            i <= cs@.len(),
            cs@ == name@,
            out@ == cs@.subrange(0, i as int).map_values(|c: char| filename_char(c)),
        decreases cs@.len() - i,
    {
        let c = cs[i];
        let k = if is_alphanumeric(c) || c == '.' || c == '-' || c == '_' { c } else { '_' };
        out.push(k);
        assert(out@ =~= cs@.subrange(0, i + 1).map_values(|c: char| filename_char(c)));
        i = i + 1;
    }
    assert(cs@.subrange(0, cs@.len() as int) =~= cs@);
    string_of(&out)
}

/// The kinds of attachment that are downloaded.
#[derive(Debug, Clone, Copy, PartialEq, Eq, Structural)]
pub enum AttachmentKind {
    Photo,
    Document,
    Audio,
    Voice,
    Video,
}

/// An attachment of a message: for photos, the largest size.
#[derive(Debug, Clone)]
pub struct AttachmentInfo {
    pub kind: AttachmentKind,
    pub file_id: String,
    pub size: u64,
    pub file_name: Option<String>,
}

/// A download to make: the kind's name, the file id, and the file name to
/// save it under.
#[derive(Debug, Clone, PartialEq, Eq)]
pub struct PlannedDownload {
    pub kind: String,
    pub file_id: String,
    pub file_name: String,
}

/// The name of an attachment kind.
pub open spec fn kind_name(k: AttachmentKind) -> Seq<char> {
    match k {
        AttachmentKind::Photo => "photo"@,
        AttachmentKind::Document => "document"@,
        AttachmentKind::Audio => "audio"@,
        AttachmentKind::Voice => "voice"@,
        AttachmentKind::Video => "video"@,
    }
}

fn kind_name_exec(k: AttachmentKind) -> (r: &'static str)
    ensures
        r@ == kind_name(k),
{
    match k {
        AttachmentKind::Photo => "photo",
        AttachmentKind::Document => "document",
        AttachmentKind::Audio => "audio",
        AttachmentKind::Voice => "voice",
        AttachmentKind::Video => "video",
    }
}

/// The file name an attachment is saved under: photos and voice messages
/// are named after the message; other files keep their own name (or the
/// kind's name), sanitised, after the message id.
pub open spec fn download_file_name(message_id: int, a: AttachmentKind, name: Option<Seq<char>>) -> Seq<char> {
    match a {
        AttachmentKind::Photo => "photo_"@ + int_decimal(message_id) + ".jpg"@,
        AttachmentKind::Voice => "voice_"@ + int_decimal(message_id) + ".ogg"@,
        _ => int_decimal(message_id) + "_"@ + sanitized_filename(match name { Some(n) => n, None => kind_name(a) }),
    }
}

/// The largest file, in bytes, that is downloaded.
pub open spec fn max_download_bytes(max_file_size_mb: u64) -> int {
    max_file_size_mb * 1024 * 1024
}

/// The download of one attachment: its kind's name, its file id, and the
/// file name it is saved under.
pub open spec fn planned_entry(message_id: int, a: AttachmentInfo) -> (Seq<char>, Seq<char>, Seq<char>) {
    (kind_name(a.kind), a.file_id@,
        download_file_name(message_id, a.kind, match a.file_name { Some(n) => Some(n@), None => None }))
}

/// The downloads a message asks for: its attachments (in the order photo,
/// document, audio, voice, video) that are not larger than the limit.
pub open spec fn planned_downloads(message_id: int, attachments: Seq<AttachmentInfo>, max_file_size_mb: u64) -> Seq<(Seq<char>, Seq<char>, Seq<char>)>
    decreases attachments.len(),
{
    if attachments.len() == 0 {
        Seq::empty()
    } else {
        let rest = planned_downloads(message_id, attachments.drop_last(), max_file_size_mb);
        let a = attachments.last();
        if a.size <= max_download_bytes(max_file_size_mb) {
            rest.push(planned_entry(message_id, a))
        } else {
            rest
        }
    }
}

pub open spec fn planned_view(p: PlannedDownload) -> (Seq<char>, Seq<char>, Seq<char>) {
    (p.kind@, p.file_id@, p.file_name@)
}

/// The file name an attachment of message `message_id` is saved under.
pub fn download_name(message_id: i32, a: &AttachmentInfo) -> (r: String)
    ensures
        r@ == download_file_name(message_id as int, a.kind, match a.file_name { Some(n) => Some(n@), None => None }),
{
    match a.kind {
        AttachmentKind::Photo => {
            let mut r = String::from_str("photo_");
            push_int_decimal(&mut r, message_id as i64);
            push_str(&mut r, ".jpg");
            r
        },
        AttachmentKind::Voice => {
            let mut r = String::from_str("voice_");
            push_int_decimal(&mut r, message_id as i64);
            push_str(&mut r, ".ogg");
            r
        },
        _ => {
            let mut r = String::new();
            proof { reveal_strlit(""); }
            push_int_decimal(&mut r, message_id as i64);
            push_str(&mut r, "_");
            let name = match &a.file_name {
                Some(n) => sanitize_filename(n.as_str()),
                None => sanitize_filename(kind_name_exec(a.kind)),
            };
            push_str(&mut r, name.as_str());
            assert(r@ =~= download_file_name(message_id as int, a.kind, match a.file_name { Some(n) => Some(n@), None => None }));
            r
        },
    }
}

/// Plan the downloads of a message's attachments (see `planned_downloads`).
pub fn plan_downloads(message_id: i32, attachments: &[AttachmentInfo], max_file_size_mb: u64) -> (r: Vec<PlannedDownload>)
    requires
        max_file_size_mb * 1024 * 1024 <= u64::MAX,
    ensures
        r@.map_values(|p: PlannedDownload| planned_view(p)) == planned_downloads(message_id as int, attachments@, max_file_size_mb),
{
    let max_size: u64 = max_file_size_mb * 1024 * 1024;
    let mut out: Vec<PlannedDownload> = Vec::new();
    let mut i: usize = 0;
    while i < attachments.len()
        invariant
            i <= attachments@.len(),
            max_size == max_download_bytes(max_file_size_mb),
            out@.map_values(|p: PlannedDownload| planned_view(p)) == planned_downloads(message_id as int, attachments@.subrange(0, i as int), max_file_size_mb),
        decreases attachments@.len() - i,
    {
        let a = &attachments[i];
        assert(attachments@.subrange(0, i + 1).drop_last() =~= attachments@.subrange(0, i as int));
        if a.size <= max_size {
            let p = PlannedDownload {
                kind: String::from_str(kind_name_exec(a.kind)),
                file_id: a.file_id.clone(),
                file_name: download_name(message_id, a),
            };
            out.push(p);
        }
        assert(out@.map_values(|p: PlannedDownload| planned_view(p))
            =~= planned_downloads(message_id as int, attachments@.subrange(0, i + 1), max_file_size_mb));
        i = i + 1;
    }
    assert(attachments@.subrange(0, attachments@.len() as int) =~= attachments@);
    out
}

/// One line of the attachments summary.
pub open spec fn attachment_line(name: Option<Seq<char>>, kind: Seq<char>, size_label: Seq<char>) -> Seq<char> {
    "- "@ + match name { Some(n) => n, None => "unknown"@ } + " ("@ + kind + ", "@ + size_label + ")"@
}

/// The summary of downloaded attachments given to the agent: nothing when
/// there are none, else one line each inside `[Attachments: ... ]`.
pub open spec fn attachments_summary_text(lines: Seq<Seq<char>>) -> Seq<char> {
    if lines.len() == 0 { Seq::empty() } else { "[Attachments:\n"@ + join(lines, "\n"@) + "\n]"@ }
}

/// A downloaded file as the summary shows it: its file name (if the path
/// has one), its kind, and its size written out.
#[derive(Debug, Clone)]
pub struct DownloadedSummary {
    pub name: Option<String>,
    pub kind: String,
    pub size_label: String,
}

/// Summarise downloaded attachments (see `attachments_summary_text`).
pub fn summarize_attachments(files: &[DownloadedSummary]) -> (r: String)
    ensures
        r@ == attachments_summary_text(files@.map_values(|f: DownloadedSummary|
            attachment_line(match f.name { Some(n) => Some(n@), None => None }, f.kind@, f.size_label@))),
{
    let ghost want = files@.map_values(|f: DownloadedSummary|
        attachment_line(match f.name { Some(n) => Some(n@), None => None }, f.kind@, f.size_label@));
    if files.len() == 0 {
        proof { reveal_strlit(""); }
        return String::new();
    }
    let mut lines: Vec<String> = Vec::new();
    let mut i: usize = 0;
    while i < files.len()
        invariant
            i <= files@.len(),
            want == files@.map_values(|f: DownloadedSummary|
                attachment_line(match f.name { Some(n) => Some(n@), None => None }, f.kind@, f.size_label@)),
            views(lines@) == want.subrange(0, i as int),
        decreases files@.len() - i,
    {
        let f = &files[i];
        let mut line = String::from_str("- ");
        match &f.name {
            Some(n) => push_str(&mut line, n.as_str()),
            None => push_str(&mut line, "unknown"),
        }
        push_str(&mut line, " (");
        push_str(&mut line, f.kind.as_str());
        push_str(&mut line, ", ");
        push_str(&mut line, f.size_label.as_str());
        push_str(&mut line, ")");
        proof { lemma_views_push(lines@, line); }
        lines.push(line);
        assert(views(lines@) =~= want.subrange(0, i + 1));
        i = i + 1;
    }
    assert(want.subrange(0, files@.len() as int) =~= want);
    let mut r = String::from_str("[Attachments:\n");
    push_str(&mut r, join_strings(&lines, "\n").as_str());
    push_str(&mut r, "\n]");
    r
}


/// Whether `entry` is the download of attachment `a`, which is within the
/// size limit.
pub open spec fn planned_from(message_id: int, entry: (Seq<char>, Seq<char>, Seq<char>), a: AttachmentInfo, max_file_size_mb: u64) -> bool {
    a.size <= max_download_bytes(max_file_size_mb) && entry == planned_entry(message_id, a)
}

/// Whether `entry` is the download of one of `attachments` that is
/// within the size limit.
pub open spec fn has_source(
    message_id: int,
    entry: (Seq<char>, Seq<char>, Seq<char>),
    attachments: Seq<AttachmentInfo>,
    max_file_size_mb: u64,
) -> bool {
    exists|j: int| 0 <= j < attachments.len() && #[trigger] planned_from(message_id, entry, attachments[j], max_file_size_mb)
}

/// Every planned download is the download of one of the message's
/// attachments that is within the size limit; and when the attachments
/// are of distinct kinds, so are the planned downloads.
pub proof fn lemma_planned_downloads_within_limit(message_id: int, attachments: Seq<AttachmentInfo>, max_file_size_mb: u64)
    ensures
        ({
            let planned = planned_downloads(message_id, attachments, max_file_size_mb);
            &&& planned.len() <= attachments.len()
            &&& forall|i: int| 0 <= i < planned.len() ==> #[trigger] has_source(message_id, planned[i], attachments, max_file_size_mb)
            &&& (forall|a: int, b: int| 0 <= a < b < attachments.len() ==> attachments[a].kind != attachments[b].kind)
                ==> forall|a: int, b: int| 0 <= a < b < planned.len() ==> planned[a].0 != planned[b].0
        }),
    decreases attachments.len(),
{
    if attachments.len() > 0 {
        let pre = attachments.drop_last();
        lemma_planned_downloads_within_limit(message_id, pre, max_file_size_mb);
        let rest = planned_downloads(message_id, pre, max_file_size_mb);
        let planned = planned_downloads(message_id, attachments, max_file_size_mb);
        let last = attachments.last();
        assert forall|i: int| 0 <= i < planned.len() implies #[trigger] has_source(message_id, planned[i], attachments, max_file_size_mb) by {
            if i < rest.len() {
                assert(planned[i] == rest[i]);
                assert(has_source(message_id, rest[i], pre, max_file_size_mb));
                let j = choose|j: int| 0 <= j < pre.len()
                    && #[trigger] planned_from(message_id, rest[i], pre[j], max_file_size_mb);
                assert(attachments[j] == pre[j]);
                assert(planned_from(message_id, planned[i], attachments[j], max_file_size_mb));
            } else {
                let j = attachments.len() - 1;
                assert(planned_from(message_id, planned[i], attachments[j], max_file_size_mb));
            }
        }
        if forall|a: int, b: int| 0 <= a < b < attachments.len() ==> attachments[a].kind != attachments[b].kind {
            assert forall|a: int, b: int| 0 <= a < b < pre.len() implies pre[a].kind != pre[b].kind by {
                assert(pre[a] == attachments[a] && pre[b] == attachments[b]);
            }
            assert forall|a: int, b: int| 0 <= a < b < planned.len() implies planned[a].0 != planned[b].0 by {
                if b >= rest.len() {
                    assert(planned[b] == planned_entry(message_id, last));
                    assert(planned[a] == rest[a]);
                    assert(has_source(message_id, rest[a], pre, max_file_size_mb));
                    let j = choose|j: int| 0 <= j < pre.len()
                        && #[trigger] planned_from(message_id, rest[a], pre[j], max_file_size_mb);
                    assert(pre[j] == attachments[j]);
                    assert(attachments[j].kind != last.kind);
                    lemma_kind_names_differ(attachments[j].kind, last.kind);
                } else {
                    assert(planned[a] == rest[a] && planned[b] == rest[b]);
                }
            }
        }
    }
}

/// Different kinds have different names.
proof fn lemma_kind_names_differ(x: AttachmentKind, y: AttachmentKind)
    requires
        x != y,
    ensures
        kind_name(x) != kind_name(y),
{
    reveal_strlit("photo");
    reveal_strlit("document");
    reveal_strlit("audio");
    reveal_strlit("voice");
    reveal_strlit("video");
    if kind_name(x) == kind_name(y) {
        assert(kind_name(x).len() == kind_name(y).len());
        assert(kind_name(x)[0] == kind_name(y)[0]);
        assert(kind_name(x)[1] == kind_name(y)[1]);
        assert(kind_name(x)[2] == kind_name(y)[2]);
    }
}

} // verus!
