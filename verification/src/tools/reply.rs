//! What a tool call answers: whether it succeeded, the text the model
//! reads, and metadata for the frontend.
use vstd::prelude::*;
use vstd::string::StringExecFns;
use crate::tools::schema::{entries_view, json_view, Json, JsonView};

verus! {

/// A tool's answer to a call.
#[derive(Debug)]
pub struct ToolReply {
    pub success: bool,
    pub output: String,
    pub metadata: Json,
}

/// An object with one string entry.
pub open spec fn one_entry(key: Seq<char>, value: Seq<char>) -> JsonView {
    JsonView::Object(seq![(key, JsonView::Str(value))])
}

/// The object `{key: value}` for a string value.
pub fn string_entry(key: &str, value: &str) -> (r: Json)
    ensures
        json_view(r) == one_entry(key@, value@),
{
    let mut es: Vec<(String, Json)> = Vec::new();
    es.push((String::from_str(key), Json::Str(String::from_str(value))));
    proof { lemma_entries_view_one(es@); }
    Json::Object(es)
}

pub proof fn lemma_entries_view_one(es: Seq<(String, Json)>)
    requires
        es.len() == 1,
    ensures
        entries_view(es) == seq![(es[0].0@, json_view(es[0].1))],
{
    assert(es.drop_last() =~= Seq::<(String, Json)>::empty());
    assert(entries_view(es.drop_last()) =~= Seq::<(Seq<char>, JsonView)>::empty());
    assert(es.last() == es[0]);
    assert(entries_view(es) =~= seq![(es[0].0@, json_view(es[0].1))]);
}

} // verus!
