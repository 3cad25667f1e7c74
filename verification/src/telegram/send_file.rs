//! Sending workspace files to the chat: which attachment kind a file is
//! sent as, where it is in the workspace, and the checks before sending.
use vstd::prelude::*;
use vstd::string::StringExecFns;
use crate::sandbox::workspace::{
    canonicalize_path, components, resolve_relative, resolve_spec, strip_path_prefix, strip_prefix_spec,
};
use crate::text::{
    chars_of, debug_str, debug_string, decimal, join, lowercase_of, push_decimal, push_str, rfind_char,
    rfind_char_exec, slice_vec, string_of, to_lowercase,
};

use crate::tools::reply::{one_entry, string_entry, ToolReply};
use crate::tools::schema::{entries_view, json_view, lemma_entries_view, Json, JsonView};

verus! {

/// Which Telegram send method to use for a given file.
#[derive(Debug, Clone, Copy, PartialEq, Eq, Structural)]
pub enum SendMethod {
    Document,
    Photo,
    Audio,
    Video,
    Animation,
    Voice,
}

/// The last component of a path, unless it is `..` (as `Path::file_name`).
pub open spec fn file_name_of(path: Seq<char>) -> Option<Seq<char>> {
    let cs = components(path);
    if cs.len() == 0 || cs.last() == seq!['.', '.'] {
        None
    } else {
        Some(cs.last())
    }
}

/// The extension of a path: what follows the last `.` of its file name,
/// when that `.` does not start the name (as `Path::extension`).
pub open spec fn extension_of(path: Seq<char>) -> Option<Seq<char>> {
    match file_name_of(path) {
        None => None,
        Some(name) => match rfind_char(name, '.') {
            Some(k) => if k > 0 { Some(name.subrange(k + 1, name.len() as int)) } else { None },
            None => None,
        },
    }
}

pub(crate) fn file_name_exec(path: &str) -> (r: Option<String>)
    ensures
        match file_name_of(path@) {
            Some(n) => r matches Some(x) && x@ == n,
            None => r is None,
        },
{
    let cs = crate::sandbox::workspace::path_components(path);
    let ghost cv = cs@.map_values(|x: String| x@);
    if cs.len() == 0 {
        return None;
    }
    let last = cs[cs.len() - 1].clone();
    assert(cv.last() == last@);
    let dd = String::from_str("..");
    proof { reveal_strlit(".."); assert(".."@ =~= seq!['.', '.']); }
    if last == dd {
        None
    } else {
        Some(last)
    }
}

/// The extension of a path, if it has one.
pub fn path_extension(path: &str) -> (r: Option<String>)
    ensures
        match extension_of(path@) {
            Some(e) => r matches Some(x) && x@ == e,
            None => r is None,
        },
{
    match file_name_exec(path) {
        None => None,
        Some(name) => {
            let nc = chars_of(name.as_str());
            match rfind_char_exec(&nc, nc.len(), '.') {
                Some(k) => {
                    assert(nc@.subrange(0, nc@.len() as int) =~= nc@);
                    proof { crate::text::lemma_rfind_char_range(nc@, '.'); }
                    if k > 0 {
                        Some(string_of(&slice_vec(&nc, k + 1, nc.len())))
                    } else {
                        None
                    }
                },
                None => {
                    assert(nc@.subrange(0, nc@.len() as int) =~= nc@);
                    None
                },
            }
        },
    }
}

/// The send method for a file with the given extension (compared after
/// lowercasing): images as photos only when asked, else as documents.
pub open spec fn send_method_for(ext: Option<Seq<char>>, as_photo: bool) -> SendMethod {
    match ext {
        None => SendMethod::Document,
        Some(e) => {
            let l = lowercase_of(e);
            if l == "jpg"@ || l == "jpeg"@ || l == "png"@ || l == "webp"@ {
                if as_photo { SendMethod::Photo } else { SendMethod::Document }
            } else if l == "mp3"@ || l == "flac"@ || l == "m4a"@ || l == "wav"@ {
                SendMethod::Audio
            } else if l == "mp4"@ || l == "mov"@ || l == "webm"@ || l == "avi"@ || l == "mkv"@ {
                SendMethod::Video
            } else if l == "gif"@ {
                SendMethod::Animation
            } else if l == "ogg"@ {
                SendMethod::Voice
            } else {
                SendMethod::Document
            }
        },
    }
}

fn is_one_of(s: &String, options: &[&str]) -> (r: bool)
    ensures
        r == exists|i: int| 0 <= i < options@.len() && s@ == options@[i]@,
{
    let mut i: usize = 0;
    while i < options.len()
        invariant
            i <= options@.len(),
            forall|j: int| 0 <= j < i ==> s@ != options@[j]@,
        decreases options@.len() - i,
    {
        let o = String::from_str(options[i]);
        if *s == o {
            return true;
        }
        i = i + 1;
    }
    false
}

/// Determine the send method from the file's extension and the photo hint.
pub fn get_send_method(path: &str, as_photo: bool) -> (r: SendMethod)
    ensures
        r == send_method_for(extension_of(path@), as_photo),
{
    match path_extension(path) {
        None => SendMethod::Document,
        Some(e) => {
            let l = to_lowercase(e.as_str());
            let mut images: Vec<&str> = Vec::new();
            images.push("jpg");
            images.push("jpeg");
            images.push("png");
            images.push("webp");
            let mut audio: Vec<&str> = Vec::new();
            audio.push("mp3");
            audio.push("flac");
            audio.push("m4a");
            audio.push("wav");
            let mut video: Vec<&str> = Vec::new();
            video.push("mp4");
            video.push("mov");
            video.push("webm");
            video.push("avi");
            video.push("mkv");
            if is_one_of(&l, images.as_slice()) {
                proof {
                    let i = choose|i: int| 0 <= i < images@.len() && l@ == images@[i]@;
                    assert(i == 0 || i == 1 || i == 2 || i == 3);
                }
                if as_photo { SendMethod::Photo } else { SendMethod::Document }
            } else if is_one_of(&l, audio.as_slice()) {
                assert(!(l@ == "jpg"@ || l@ == "jpeg"@ || l@ == "png"@ || l@ == "webp"@)) by {
                    if l@ == "jpg"@ { assert(l@ == images@[0]@); }
                    if l@ == "jpeg"@ { assert(l@ == images@[1]@); }
                    if l@ == "png"@ { assert(l@ == images@[2]@); }
                    if l@ == "webp"@ { assert(l@ == images@[3]@); }
                }
                proof {
                    let i = choose|i: int| 0 <= i < audio@.len() && l@ == audio@[i]@;
                    assert(i == 0 || i == 1 || i == 2 || i == 3);
                }
                SendMethod::Audio
            } else {
                assert(!(l@ == "jpg"@ || l@ == "jpeg"@ || l@ == "png"@ || l@ == "webp"@)) by {
                    if l@ == "jpg"@ { assert(l@ == images@[0]@); }
                    if l@ == "jpeg"@ { assert(l@ == images@[1]@); }
                    if l@ == "png"@ { assert(l@ == images@[2]@); }
                    if l@ == "webp"@ { assert(l@ == images@[3]@); }
                }
                assert(!(l@ == "mp3"@ || l@ == "flac"@ || l@ == "m4a"@ || l@ == "wav"@)) by {
                    if l@ == "mp3"@ { assert(l@ == audio@[0]@); }
                    if l@ == "flac"@ { assert(l@ == audio@[1]@); }
                    if l@ == "m4a"@ { assert(l@ == audio@[2]@); }
                    if l@ == "wav"@ { assert(l@ == audio@[3]@); }
                }
                if is_one_of(&l, video.as_slice()) {
                    proof {
                        let i = choose|i: int| 0 <= i < video@.len() && l@ == video@[i]@;
                        assert(0 <= i < 5);
                    }
                    SendMethod::Video
                } else {
                    assert(!(l@ == "mp4"@ || l@ == "mov"@ || l@ == "webm"@ || l@ == "avi"@ || l@ == "mkv"@)) by {
                        if l@ == "mp4"@ { assert(l@ == video@[0]@); }
                        if l@ == "mov"@ { assert(l@ == video@[1]@); }
                        if l@ == "webm"@ { assert(l@ == video@[2]@); }
                        if l@ == "avi"@ { assert(l@ == video@[3]@); }
                        if l@ == "mkv"@ { assert(l@ == video@[4]@); }
                    }
                    let gif = String::from_str("gif");
                    let ogg = String::from_str("ogg");
                    if l == gif {
                        SendMethod::Animation
                    } else if l == ogg {
                        SendMethod::Voice
                    } else {
                        SendMethod::Document
                    }
                }
            }
        },
    }
}

/// Describe the send method as a human-readable name.
pub fn send_method_name(method: SendMethod) -> (r: &'static str)
    ensures
        r@ == match method {
            SendMethod::Document => "document"@,
            SendMethod::Photo => "photo"@,
            SendMethod::Audio => "audio"@,
            SendMethod::Video => "video"@,
            SendMethod::Animation => "animation"@,
            SendMethod::Voice => "voice"@,
        },
{
    match method {
        SendMethod::Document => "document",
        SendMethod::Photo => "photo",
        SendMethod::Audio => "audio",
        SendMethod::Video => "video",
        SendMethod::Animation => "animation",
        SendMethod::Voice => "voice",
    }
}

/// The message when a path cannot be placed in the workspace.
pub open spec fn escape_message(path: Seq<char>) -> Seq<char> {
    "path escapes workspace: "@ + path
}

/// Resolve `rel` inside the workspace, or fail with the message about `path`.
pub open spec fn resolve_or_escape(rel: Seq<char>, path: Seq<char>) -> Result<Seq<char>, Seq<char>> {
    match resolve_spec(rel) {
        Ok(p) => Ok(p),
        Err(_) => Err(escape_message(path)),
    }
}

/// Where a path given to `send_file` is in the workspace rooted at `root`:
/// a relative path resolves directly; an absolute one is tried with the root
/// stripped, then (when it canonicalizes to `canonical`) with the root
/// stripped from its canonical form, then with the sandbox mount point
/// `/workspace` stripped.
pub open spec fn send_path_outcome(root: Seq<char>, path: Seq<char>, canonical: Option<Seq<char>>)
    -> Result<Seq<char>, Seq<char>>
{
    if resolve_spec(path) is Ok {
        Ok(resolve_spec(path)->Ok_0)
    } else if !(path.len() > 0 && path[0] == '/') {
        Err(escape_message(path))
    } else if strip_prefix_spec(path, root) is Some {
        resolve_or_escape(strip_prefix_spec(path, root)->0, path)
    } else if canonical is Some && strip_prefix_spec(canonical->0, root) is Some {
        resolve_or_escape(strip_prefix_spec(canonical->0, root)->0, path)
    } else if strip_prefix_spec(path, "/workspace/"@) is Some {
        resolve_or_escape(strip_prefix_spec(path, "/workspace/"@)->0, path)
    } else if strip_prefix_spec(path, "/workspace"@) is Some {
        resolve_or_escape(strip_prefix_spec(path, "/workspace"@)->0, path)
    } else {
        Err(escape_message(path))
    }
}

fn resolve_or_escape_exec(rel: &str, path: &str) -> (r: Result<String, String>)
    ensures
        match resolve_or_escape(rel@, path@) {
            Ok(p) => r matches Ok(x) && x@ == p,
            Err(m) => r matches Err(x) && x@ == m,
        },
{
    match resolve_relative(rel) {
        Ok(p) => Ok(p),
        Err(_) => {
            let mut m = String::from_str("path escapes workspace: ");
            push_str(&mut m, path);
            Err(m)
        },
    }
}

/// Whether placing `path` in the workspace rooted at `root` needs the
/// path's canonical form: an absolute path that does not resolve directly
/// and does not start with the root.
pub open spec fn send_path_needs_lookup(root: Seq<char>, path: Seq<char>) -> bool {
    &&& resolve_spec(path) is Err
    &&& path.len() > 0 && path[0] == '/'
    &&& strip_prefix_spec(path, root) is None
}

/// Resolve a path (relative, or absolute on the host or in the sandbox)
/// within the workspace rooted at `root`, given what the canonical-form
/// lookup of the path returned (`None` when it failed or was not made).
pub fn send_path_with_canonical(root: &str, path: &str, canonical: Option<String>) -> (r: Result<String, String>)
    ensures
        match send_path_outcome(root@, path@, match canonical { Some(c) => Some(c@), None => None }) {
            Ok(p) => r matches Ok(x) && x@ == p,
            Err(m) => r matches Err(x) && x@ == m,
        },
{
    let ghost cv: Option<Seq<char>> = match &canonical { Some(c) => Some(c@), None => None };
    if let Ok(p) = resolve_relative(path) {
        return Ok(p);
    }
    let pc = chars_of(path);
    if !(pc.len() > 0 && pc[0] == '/') {
        let mut m = String::from_str("path escapes workspace: ");
        push_str(&mut m, path);
        assert(match send_path_outcome(root@, path@, cv) { Ok(_) => false, Err(q) => m@ == q });
        return Err(m);
    }
    if let Some(rel) = strip_path_prefix(path, root) {
        let r = resolve_or_escape_exec(rel.as_str(), path);
        assert(send_path_outcome(root@, path@, cv) == resolve_or_escape(rel@, path@));
        return r;
    }
    if let Some(c) = &canonical {
        if let Some(rel) = strip_path_prefix(c.as_str(), root) {
            let r = resolve_or_escape_exec(rel.as_str(), path);
            assert(send_path_outcome(root@, path@, cv) == resolve_or_escape(rel@, path@));
            return r;
        }
    }
    if let Some(rel) = strip_path_prefix(path, "/workspace/") {
        let r = resolve_or_escape_exec(rel.as_str(), path);
        assert(send_path_outcome(root@, path@, cv) == resolve_or_escape(rel@, path@));
        return r;
    }
    if let Some(rel) = strip_path_prefix(path, "/workspace") {
        let r = resolve_or_escape_exec(rel.as_str(), path);
        assert(send_path_outcome(root@, path@, cv) == resolve_or_escape(rel@, path@));
        return r;
    }
    let mut m = String::from_str("path escapes workspace: ");
    push_str(&mut m, path);
    assert(match send_path_outcome(root@, path@, cv) { Ok(_) => false, Err(q) => m@ == q });
    Err(m)
}

/// Resolve a path (relative, or absolute on the host or in the sandbox)
/// within the workspace rooted at `root`. The canonical form of the path is
/// looked up on the file system only when `send_path_needs_lookup`; the
/// result is the one `send_path_outcome` gives for what that lookup
/// returned (and for no lookup otherwise).
pub fn resolve_send_path(root: &str, path: &str) -> (r: Result<String, String>)
    ensures
        exists|canonical: Option<Seq<char>>| match #[trigger] send_path_outcome(root@, path@, canonical) {
            Ok(p) => r matches Ok(x) && x@ == p,
            Err(m) => r matches Err(x) && x@ == m,
        },
        !send_path_needs_lookup(root@, path@) ==> match send_path_outcome(root@, path@, None) {
            Ok(p) => r matches Ok(x) && x@ == p,
            Err(m) => r matches Err(x) && x@ == m,
        },
{
    let pc = chars_of(path);
    let needs = resolve_relative(path).is_err() && pc.len() > 0 && pc[0] == '/'
        && strip_path_prefix(path, root).is_none();
    let canonical = if needs { canonicalize_path(path) } else { None };
    let ghost cv: Option<Seq<char>> = match &canonical { Some(c) => Some(c@), None => None };
    let r = send_path_with_canonical(root, path, canonical);
    proof {
        if !needs {
            assert(cv == None::<Seq<char>>);
        }
        assert(match send_path_outcome(root@, path@, cv) {
            Ok(p) => r matches Ok(x) && x@ == p,
            Err(m) => r matches Err(x) && x@ == m,
        });
    }
    r
}

/// The `send_file` settings of the bot.
#[derive(Clone, Debug)]
pub struct SendFileConfig {
    /// Whether the tool may send at all.
    pub enabled: bool,
    /// Extensions allowed (each with its leading `.`, lowercase); empty
    /// allows any.
    pub allowed_extensions: Vec<String>,
    /// Largest file sent, in MiB.
    pub max_file_size_mb: u32,
}

/// The extension of a path as the allowlist spells it: `.` and the
/// lowercased extension, or nothing without one.
pub open spec fn allowlist_extension(path: Seq<char>) -> Seq<char> {
    match extension_of(path) {
        Some(e) => "."@ + lowercase_of(e),
        None => Seq::empty(),
    }
}

/// A list of texts as `{:?}` shows it.
pub open spec fn debug_list(items: Seq<Seq<char>>) -> Seq<char> {
    "["@ + join(items.map_values(|i: Seq<char>| debug_str(i)), ", "@) + "]"@
}

/// The checks on a resolved file before its size is known: the tool must
/// be enabled and the file's extension allowed.
pub open spec fn send_policy_error(config: SendFileConfig, resolved: Seq<char>) -> Option<Seq<char>> {
    let allowed = config.allowed_extensions@.map_values(|e: String| e@);
    if !config.enabled {
        Some("Error: send_file is disabled in bot configuration."@)
    } else if allowed.len() > 0 && !allowed.contains(allowlist_extension(resolved)) {
        Some("Error: file extension '"@ + allowlist_extension(resolved) + "' is not in the allowed list: "@
            + debug_list(allowed))
    } else {
        None
    }
}

/// Check that the tool is enabled and the file's extension allowed.
pub fn check_send_policy(config: &SendFileConfig, resolved: &str) -> (r: Result<(), String>)
    ensures
        match send_policy_error(*config, resolved@) {
            Some(m) => r matches Err(x) && x@ == m,
            None => r is Ok,
        },
{
    if !config.enabled {
        return Err(String::from_str("Error: send_file is disabled in bot configuration."));
    }
    let ghost allowed = config.allowed_extensions@.map_values(|e: String| e@);
    if config.allowed_extensions.len() == 0 {
        return Ok(());
    }
    let ext = match path_extension(resolved) {
        Some(e) => {
            let mut x = String::from_str(".");
            push_str(&mut x, to_lowercase(e.as_str()).as_str());
            x
        },
        None => String::new(),
    };
    assert(ext@ == allowlist_extension(resolved@));
    let mut i: usize = 0;
    while i < config.allowed_extensions.len()
        invariant
            i <= config.allowed_extensions@.len(),
            allowed == config.allowed_extensions@.map_values(|e: String| e@),
            config.enabled,
            allowed.len() > 0,
            ext@ == allowlist_extension(resolved@),
            forall|j: int| 0 <= j < i ==> allowed[j] != ext@,
        decreases config.allowed_extensions@.len() - i,
    {
        if config.allowed_extensions[i] == ext {
            assert(allowed[i as int] == ext@);
            return Ok(());
        }
        i = i + 1;
    }
    let mut m = String::from_str("Error: file extension '");
    push_str(&mut m, ext.as_str());
    push_str(&mut m, "' is not in the allowed list: ");
    push_str(&mut m, "[");
    let mut k: usize = 0;
    let ghost dbg = allowed.map_values(|i: Seq<char>| debug_str(i));
    let ghost start = m@;
    assert(!allowed.contains(ext@)) by {
        if allowed.contains(ext@) {
            let j = choose|j: int| 0 <= j < allowed.len() && allowed[j] == ext@;
            assert(allowed[j] != ext@);
        }
    }
    while k < config.allowed_extensions.len()
        invariant
            k <= config.allowed_extensions@.len(),
            allowed == config.allowed_extensions@.map_values(|e: String| e@),
            dbg == allowed.map_values(|i: Seq<char>| debug_str(i)),
            m@ == start + join(dbg.subrange(0, k as int), ", "@),
            start == "Error: file extension '"@ + ext@ + "' is not in the allowed list: "@ + "["@,
            config.enabled,
            allowed.len() > 0,
            ext@ == allowlist_extension(resolved@),
            !allowed.contains(ext@),
        decreases config.allowed_extensions@.len() - k,
    {
        let ghost before = dbg.subrange(0, k as int);
        assert(dbg.subrange(0, k + 1).drop_last() =~= before);
        if k > 0 {
            push_str(&mut m, ", ");
        }
        push_str(&mut m, debug_string(config.allowed_extensions[k].as_str()).as_str());
        proof {
            if k == 0 {
                assert(m@ =~= start + dbg.subrange(0, 1)[0]);
            } else {
                assert(m@ =~= start + (join(before, ", "@) + ", "@ + dbg.subrange(0, k + 1).last()));
            }
        }
        k = k + 1;
    }
    assert(dbg.subrange(0, dbg.len() as int) =~= dbg);
    push_str(&mut m, "]");
    assert(m@ =~= "Error: file extension '"@ + allowlist_extension(resolved@) + "' is not in the allowed list: "@
        + debug_list(allowed));
    Err(m)
}

/// The size check: a file larger than the limit is refused.
pub open spec fn send_size_error(config: SendFileConfig, file_size: u64) -> Option<Seq<char>> {
    if file_size > config.max_file_size_mb * 1024 * 1024 {
        Some("Error: file too large ("@ + decimal(file_size as nat) + " bytes, max "@
            + decimal(config.max_file_size_mb as nat) + " MB)"@)
    } else {
        None
    }
}

/// Check a file's size against the limit.
pub fn check_send_size(config: &SendFileConfig, file_size: u64) -> (r: Result<(), String>)
    ensures
        match send_size_error(*config, file_size) {
            Some(m) => r matches Err(x) && x@ == m,
            None => r is Ok,
        },
{
    let max_bytes: u64 = (config.max_file_size_mb as u64) * 1024 * 1024;
    if file_size > max_bytes {
        let mut m = String::from_str("Error: file too large (");
        push_decimal(&mut m, file_size);
        push_str(&mut m, " bytes, max ");
        push_decimal(&mut m, config.max_file_size_mb as u64);
        push_str(&mut m, " MB)");
        Err(m)
    } else {
        Ok(())
    }
}

/// A caption within Telegram's limit of 1024 characters: a longer one
/// keeps its first 1021 characters and ends with an ellipsis.
pub open spec fn caption_text(c: Seq<char>) -> Seq<char> {
    if c.len() > 1024 {
        c.subrange(0, 1021) + "\u{2026}"@
    } else {
        c
    }
}

/// Fit a caption to Telegram's limit.
pub fn fit_caption(c: &str) -> (r: String)
    ensures
        r@ == caption_text(c@),
{
    let cs = chars_of(c);
    if cs.len() > 1024 {
        let mut r = string_of(&slice_vec(&cs, 0, 1021));
        push_str(&mut r, "\u{2026}");
        r
    } else {
        String::from_str(c)
    }
}

} // verus!

verus! {

/// How a send-file call is refused before anything is sent, checking in
/// order: the path stays in the workspace (`resolved`), names a file, is
/// allowed by the configuration, and is not too large. Each refusal is the
/// reply's text and its metadata.
pub open spec fn send_refusal(
    config: SendFileConfig,
    path: Seq<char>,
    resolved: Result<Seq<char>, Seq<char>>,
    is_file: bool,
    file_size: u64,
) -> Option<(Seq<char>, JsonView)> {
    match resolved {
        Err(m) => Some(("Error: "@ + m, one_entry("error"@, "path_escapes_workspace"@))),
        Ok(p) => if !is_file {
            Some(("Error: file not found: "@ + path, one_entry("error"@, "file_not_found"@)))
        } else {
            match send_policy_error(config, p) {
                Some(m) => Some((m, one_entry("error"@, if !config.enabled { "disabled"@ } else { "extension_not_allowed"@ }))),
                None => match send_size_error(config, file_size) {
                    Some(m) => Some((m, JsonView::Object(seq![
                        ("error"@, JsonView::Str("file_too_large"@)),
                        ("file_size"@, JsonView::Number(decimal(file_size as nat))),
                    ]))),
                    None => None,
                },
            }
        },
    }
}

/// The failure reply of a send-file call refused before sending (see
/// `send_refusal`), given where the path resolved to, whether it is a file
/// and its size; none when the file may be sent.
pub fn send_refusal_reply(
    config: &SendFileConfig,
    path: &str,
    resolved: &Result<String, String>,
    is_file: bool,
    file_size: u64,
) -> (r: Option<ToolReply>)
    ensures
        match send_refusal(*config, path@, match resolved { Ok(p) => Ok(p@), Err(m) => Err(m@) }, is_file, file_size) {
            Some((text, meta)) => r matches Some(x) && !x.success && x.output@ == text && json_view(x.metadata) == meta,
            None => r is None,
        },
{
    let p = match resolved {
        Err(m) => {
            let mut o = String::from_str("Error: ");
            push_str(&mut o, m.as_str());
            return Some(ToolReply { success: false, output: o, metadata: string_entry("error", "path_escapes_workspace") });
        },
        Ok(p) => p,
    };
    if !is_file {
        let mut o = String::from_str("Error: file not found: ");
        push_str(&mut o, path);
        return Some(ToolReply { success: false, output: o, metadata: string_entry("error", "file_not_found") });
    }
    match check_send_policy(config, p.as_str()) {
        Err(m) => {
            let code = if !config.enabled { "disabled" } else { "extension_not_allowed" };
            return Some(ToolReply { success: false, output: m, metadata: string_entry("error", code) });
        },
        Ok(()) => {},
    }
    match check_send_size(config, file_size) {
        Err(m) => {
            let mut n = String::new();
            proof { reveal_strlit(""); }
            push_decimal(&mut n, file_size);
            let mut es: Vec<(String, Json)> = Vec::new();
            es.push((String::from_str("error"), Json::Str(String::from_str("file_too_large"))));
            es.push((String::from_str("file_size"), Json::Number(n)));
            proof {
                lemma_entries_view(es@);
                assert(entries_view(es@) =~= seq![
                    ("error"@, JsonView::Str("file_too_large"@)),
                    ("file_size"@, JsonView::Number(decimal(file_size as nat))),
                ]);
            }
            Some(ToolReply { success: false, output: m, metadata: Json::Object(es) })
        },
        Ok(()) => None,
    }
}

} // verus!
verus! {

/// A send-file call goes ahead exactly when nothing refuses it: the path
/// resolves to a regular workspace file, the tool is enabled, the file's
/// lowercased extension is allowed (or no list is set), and the file is not
/// larger than the limit; then no refusal reply is made. Any other outcome
/// of these checks is refused.
pub proof fn lemma_send_goes_ahead(
    config: SendFileConfig,
    path: Seq<char>,
    resolved: Result<Seq<char>, Seq<char>>,
    is_file: bool,
    file_size: u64,
)
    ensures
        send_refusal(config, path, resolved, is_file, file_size) is None <==> (
            resolved is Ok && is_file && config.enabled
            && (config.allowed_extensions@.len() == 0
                || config.allowed_extensions@.map_values(|e: String| e@).contains(allowlist_extension(resolved->Ok_0)))
            && file_size <= config.max_file_size_mb * 1024 * 1024),
{
}

/// A caption sent with a file is at most 1024 characters: a longer one
/// keeps its first 1021 characters and ends with an ellipsis; a shorter one
/// is sent as it is.
pub proof fn lemma_caption_fits(c: Seq<char>)
    ensures
        caption_text(c).len() <= 1024,
        c.len() <= 1024 ==> caption_text(c) == c,
        c.len() > 1024 ==> caption_text(c) == c.subrange(0, 1021) + "\u{2026}"@,
{
    reveal_strlit("\u{2026}");
}

} // verus!
