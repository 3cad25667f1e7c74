//! Rich messages: the body of a rich message, and how a reply of the Bot
//! API is read.
use vstd::prelude::*;
use vstd::string::StringExecFns;

verus! {

/// Describes a rich message to be sent. Exactly one of `html` and
/// `markdown` is set by the constructors.
#[derive(Debug, Clone)]
pub struct InputRichMessage {
    pub html: Option<String>,
    pub markdown: Option<String>,
    pub is_rtl: Option<bool>,
    pub skip_entity_detection: Option<bool>,
}

impl InputRichMessage {
    /// A rich message written in Markdown.
    pub fn markdown(text: &str) -> (r: Self)
        ensures
            r.markdown matches Some(m) && m@ == text@,
            r.html is None,
            r.is_rtl is None,
            r.skip_entity_detection is None,
    {
        InputRichMessage { markdown: Some(String::from_str(text)), html: None, is_rtl: None, skip_entity_detection: None }
    }

    /// A rich message written in HTML.
    pub fn html(text: &str) -> (r: Self)
        ensures
            r.html matches Some(h) && h@ == text@,
            r.markdown is None,
            r.is_rtl is None,
            r.skip_entity_detection is None,
    {
        InputRichMessage { html: Some(String::from_str(text)), markdown: None, is_rtl: None, skip_entity_detection: None }
    }
}

/// The error a Bot API reply stands for: none when its `ok` field is
/// `true`, else its `description`, or "unknown error" without one.
pub open spec fn reply_error(ok: Option<bool>, description: Option<Seq<char>>) -> Option<Seq<char>> {
    if ok == Some(true) {
        None
    } else {
        match description {
            Some(d) => Some(d),
            None => Some("unknown error"@),
        }
    }
}

/// Read the `ok` and `description` fields of a Bot API reply: `None` when
/// the call succeeded, else the error to report.
pub fn api_reply_error(ok: Option<bool>, description: Option<&str>) -> (r: Option<String>)
    ensures
        match reply_error(ok, match description { Some(d) => Some(d@), None => None }) {
            Some(e) => r matches Some(x) && x@ == e,
            None => r is None,
        },
{
    if ok == Some(true) {
        None
    } else {
        match description {
            Some(d) => Some(String::from_str(d)),
            None => {
                proof { reveal_strlit("unknown error"); }
                Some(String::from_str("unknown error"))
            },
        }
    }
}

} // verus!
