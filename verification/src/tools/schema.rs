//! Argument schemas of tools: JSON values, the clean-up a generated schema
//! gets (no `$schema` or `title`, objects closed to unknown properties and
//! open to a `label`), the compact JSON text of a value, and how rejected
//! arguments are reported. Checking a value against a schema is the
//! `jsonschema` crate's work; generating a schema from a type is left to
//! the frontend.
use vstd::prelude::*;
use vstd::string::StringExecFns;
use crate::text::{chars_of, join, join_strings, lemma_views_push, push_char, push_str, views};

verus! {

/// A JSON value; an object keeps its entries in order, each key once.
#[derive(Debug)]
pub enum Json {
    Null,
    Bool(bool),
    /// A number, as written.
    Number(String),
    Str(String),
    Array(Vec<Json>),
    Object(Vec<(String, Json)>),
}

/// The JSON type name of a value.
pub open spec fn json_type_name_of(j: Json) -> Seq<char> {
    match j {
        Json::Null => "null"@,
        Json::Bool(_) => "boolean"@,
        Json::Number(_) => "number"@,
        Json::Str(_) => "string"@,
        Json::Array(_) => "array"@,
        Json::Object(_) => "object"@,
    }
}

/// The JSON type name of a value.
pub fn json_type_name(value: &Json) -> (r: &'static str)
    ensures
        r@ == json_type_name_of(*value),
{
    match value {
        Json::Null => "null",
        Json::Bool(_) => "boolean",
        Json::Number(_) => "number",
        Json::Str(_) => "string",
        Json::Array(_) => "array",
        Json::Object(_) => "object",
    }
}

} // verus!

verus! {

/// A JSON value as plain values.
pub enum JsonView {
    Null,
    Bool(bool),
    Number(Seq<char>),
    Str(Seq<char>),
    Array(Seq<JsonView>),
    Object(Seq<(Seq<char>, JsonView)>),
}

pub open spec fn json_view(j: Json) -> JsonView
    decreases j, 0nat,
{
    match j {
        Json::Null => JsonView::Null,
        Json::Bool(b) => JsonView::Bool(b),
        Json::Number(n) => JsonView::Number(n@),
        Json::Str(s) => JsonView::Str(s@),
        Json::Array(v) => JsonView::Array(items_view(v@)),
        Json::Object(es) => JsonView::Object(entries_view(es@)),
    }
}

pub open spec fn items_view(s: Seq<Json>) -> Seq<JsonView>
    decreases s, s.len(),
{
    if s.len() == 0 {
        Seq::empty()
    } else {
        items_view(s.drop_last()).push(json_view(s.last()))
    }
}

pub open spec fn entries_view(s: Seq<(String, Json)>) -> Seq<(Seq<char>, JsonView)>
    decreases s, s.len(),
{
    if s.len() == 0 {
        Seq::empty()
    } else {
        entries_view(s.drop_last()).push((s.last().0@, json_view(s.last().1)))
    }
}

} // verus!

verus! {

/// Whether entries have key `k`.
pub open spec fn view_has_key(es: Seq<(Seq<char>, JsonView)>, k: Seq<char>) -> bool {
    exists|i: int| 0 <= i < es.len() && #[trigger] es[i].0 == k
}

/// The index of the first entry with key `k`.
pub open spec fn first_key_index(es: Seq<(Seq<char>, JsonView)>, k: Seq<char>) -> Option<int>
    decreases es.len(),
{
    if es.len() == 0 {
        None
    } else if es.last().0 == k && first_key_index(es.drop_last(), k) is None {
        Some(es.len() - 1)
    } else {
        first_key_index(es.drop_last(), k)
    }
}

/// The value of the first entry with key `k`.
pub open spec fn view_key_value(es: Seq<(Seq<char>, JsonView)>, k: Seq<char>) -> Option<JsonView> {
    match first_key_index(es, k) {
        Some(i) => Some(es[i].1),
        None => None,
    }
}

/// Whether a key is dropped from a schema object.
pub open spec fn dropped_key(k: Seq<char>) -> bool {
    k == "$schema"@ || k == "title"@
}

/// The description every tool's `label` argument gets.
pub open spec fn label_description() -> Seq<char> {
    "Brief human-readable description of what this step does (shown to user)"@
}

/// The schema of the `label` argument.
pub open spec fn label_schema() -> JsonView {
    JsonView::Object(seq![("type"@, JsonView::Str("string"@)), ("description"@, JsonView::Str(label_description()))])
}

/// Whether an object's entries (its own, then extra ones) make it a schema
/// of an object: its type is "object" or it has properties. (The keys that
/// cleaning drops are none of those looked at here.)
pub open spec fn is_object_schema(all: Seq<(Seq<char>, JsonView)>) -> bool {
    view_key_value(all, "type"@) == Some(JsonView::Str("object"@)) || view_has_key(all, "properties"@)
}

/// The defaults an object schema gets, after its entries: its type, and no
/// other properties than those listed.
pub open spec fn missing_defaults(all: Seq<(Seq<char>, JsonView)>) -> Seq<(Seq<char>, JsonView)> {
    let t = if view_has_key(all, "type"@) { Seq::empty() } else { seq![("type"@, JsonView::Str("object"@))] };
    let a = if view_has_key(all + t, "additionalProperties"@) { Seq::empty() } else { seq![("additionalProperties"@, JsonView::Bool(false))] };
    t + a
}

/// A schema, cleaned: objects lose `$schema` and `title`; an object
/// schema gets `type: object` and `additionalProperties: false` when it
/// lacks them, and its first `properties` object gets a `label` string
/// property when it lacks one; all this at every depth. `extra` are entries
/// already clean that follow the object's own (the added `label`).
pub open spec fn sanitized_object(es: Seq<(String, Json)>, extra: Seq<(Seq<char>, JsonView)>) -> Seq<(Seq<char>, JsonView)>
    decreases es, es.len() + 1,
{
    let all = entries_view(es) + extra;
    if is_object_schema(all) {
        sanitized_entries(es, first_key_index(entries_view(es), "properties"@)) + extra + missing_defaults(all)
    } else {
        sanitized_entries(es, None) + extra
    }
}

/// The entries without the dropped keys, each value cleaned; the entry at
/// `label_at`, when its value is an object without `label`, gets the
/// `label` property added.
pub open spec fn sanitized_entries(es: Seq<(String, Json)>, label_at: Option<int>) -> Seq<(Seq<char>, JsonView)>
    decreases es, es.len(),
{
    if es.len() == 0 {
        Seq::empty()
    } else if dropped_key(es.last().0@) {
        sanitized_entries(es.drop_last(), label_at)
    } else {
        let i = es.len() - 1;
        let v = es.last().1;
        let cleaned = match v {
            Json::Object(p) => if label_at == Some(i) && !view_has_key(entries_view(p@), "label"@) {
                JsonView::Object(sanitized_object(p@, seq![("label"@, label_schema())]))
            } else {
                sanitized_json(v)
            },
            _ => sanitized_json(v),
        };
        sanitized_entries(es.drop_last(), label_at).push((es.last().0@, cleaned))
    }
}

/// A value, cleaned (see `sanitized_object`).
pub open spec fn sanitized_json(j: Json) -> JsonView
    decreases j, 0nat,
{
    match j {
        Json::Object(es) => JsonView::Object(sanitized_object(es@, Seq::empty())),
        Json::Array(v) => JsonView::Array(sanitized_items(v@)),
        _ => json_view(j),
    }
}

/// The items, each cleaned.
pub open spec fn sanitized_items(s: Seq<Json>) -> Seq<JsonView>
    decreases s, s.len(),
{
    if s.len() == 0 {
        Seq::empty()
    } else {
        sanitized_items(s.drop_last()).push(sanitized_json(s.last()))
    }
}

} // verus!
verus! {

pub proof fn lemma_entries_view(s: Seq<(String, Json)>)
    ensures
        entries_view(s).len() == s.len(),
        forall|i: int| 0 <= i < s.len() ==> #[trigger] entries_view(s)[i] == (s[i].0@, json_view(s[i].1)),
    decreases s.len(),
{
    if s.len() > 0 {
        lemma_entries_view(s.drop_last());
    }
}

proof fn lemma_items_view(s: Seq<Json>)
    ensures
        items_view(s).len() == s.len(),
        forall|i: int| 0 <= i < s.len() ==> #[trigger] items_view(s)[i] == json_view(s[i]),
    decreases s.len(),
{
    if s.len() > 0 {
        lemma_items_view(s.drop_last());
    }
}

proof fn lemma_entries_view_concat(a: Seq<(String, Json)>, b: Seq<(String, Json)>)
    ensures
        entries_view(a + b) == entries_view(a) + entries_view(b),
{
    lemma_entries_view(a);
    lemma_entries_view(b);
    lemma_entries_view(a + b);
    assert(entries_view(a + b) =~= entries_view(a) + entries_view(b));
}

proof fn lemma_first_key_index(es: Seq<(Seq<char>, JsonView)>, k: Seq<char>)
    ensures
        first_key_index(es, k) matches Some(i) ==> 0 <= i < es.len() && es[i].0 == k
            && forall|j: int| 0 <= j < i ==> es[j].0 != k,
        first_key_index(es, k) is None ==> forall|j: int| 0 <= j < es.len() ==> es[j].0 != k,
    decreases es.len(),
{
    if es.len() > 0 {
        lemma_first_key_index(es.drop_last(), k);
        assert forall|j: int| 0 <= j < es.len() - 1 implies es[j] == es.drop_last()[j] by {}
    }
}

proof fn lemma_first_key_is(es: Seq<(Seq<char>, JsonView)>, k: Seq<char>, i: int)
    requires
        0 <= i < es.len(),
        es[i].0 == k,
        forall|j: int| 0 <= j < i ==> es[j].0 != k,
    ensures
        first_key_index(es, k) == Some(i),
        view_has_key(es, k),
{
    lemma_first_key_index(es, k);
    match first_key_index(es, k) {
        Some(i2) => {
            if i2 < i {
                assert(es[i2].0 != k);
            } else if i < i2 {
                assert(es[i].0 != k);
            }
        },
        None => {
            assert(es[i].0 != k);
        },
    }
}

proof fn lemma_first_key_none(es: Seq<(Seq<char>, JsonView)>, k: Seq<char>)
    requires
        forall|j: int| 0 <= j < es.len() ==> es[j].0 != k,
    ensures
        first_key_index(es, k) is None,
        !view_has_key(es, k),
{
    lemma_first_key_index(es, k);
    if first_key_index(es, k) is Some {
        let i = first_key_index(es, k)->0;
        assert(es[i].0 == k);
    }
}

proof fn lemma_has_key_concat(a: Seq<(Seq<char>, JsonView)>, b: Seq<(Seq<char>, JsonView)>, k: Seq<char>)
    ensures
        view_has_key(a + b, k) == (view_has_key(a, k) || view_has_key(b, k)),
{
    if view_has_key(a + b, k) {
        let i = choose|i: int| 0 <= i < (a + b).len() && #[trigger] (a + b)[i].0 == k;
        if i < a.len() {
            assert(a[i].0 == k);
        } else {
            assert(b[i - a.len()].0 == k);
        }
    }
    if view_has_key(a, k) {
        let i = choose|i: int| 0 <= i < a.len() && #[trigger] a[i].0 == k;
        assert((a + b)[i].0 == k);
    }
    if view_has_key(b, k) {
        let i = choose|i: int| 0 <= i < b.len() && #[trigger] b[i].0 == k;
        assert((a + b)[a.len() + i].0 == k);
    }
}

proof fn lemma_key_value_concat(a: Seq<(Seq<char>, JsonView)>, b: Seq<(Seq<char>, JsonView)>, k: Seq<char>)
    ensures
        view_key_value(a + b, k) == if view_has_key(a, k) { view_key_value(a, k) } else { view_key_value(b, k) },
{
    lemma_first_key_index(a, k);
    lemma_first_key_index(b, k);
    match first_key_index(a, k) {
        Some(i) => {
            lemma_first_key_is(a + b, k, i);
            lemma_first_key_is(a, k, i);
        },
        None => {
            lemma_first_key_none(a, k);
            match first_key_index(b, k) {
                Some(j) => {
                    assert forall|x: int| 0 <= x < a.len() + j implies (a + b)[x].0 != k by {
                        if x >= a.len() {
                            assert((a + b)[x] == b[x - a.len()]);
                        }
                    }
                    lemma_first_key_is(a + b, k, a.len() + j);
                },
                None => {
                    assert forall|x: int| 0 <= x < (a + b).len() implies (a + b)[x].0 != k by {
                        if x >= a.len() {
                            assert((a + b)[x] == b[x - a.len()]);
                        }
                    }
                    lemma_first_key_none(a + b, k);
                },
            }
        },
    }
}

/// The index of the first entry under `key`.
fn find_key(es: &Vec<(String, Json)>, key: &str) -> (r: Option<usize>)
    ensures
        r matches Some(i) ==> i < es@.len() && es@[i as int].0@ == key@
            && first_key_index(entries_view(es@), key@) == Some(i as int)
            && view_has_key(entries_view(es@), key@),
        r is None ==> first_key_index(entries_view(es@), key@) is None
            && !view_has_key(entries_view(es@), key@),
{
    proof { lemma_entries_view(es@); }
    let k = String::from_str(key);
    let mut i: usize = 0;
    while i < es.len()
        invariant
            i <= es@.len(),
            k@ == key@,
            entries_view(es@).len() == es@.len(),
            forall|j: int| 0 <= j < es@.len() ==> #[trigger] entries_view(es@)[j] == (es@[j].0@, json_view(es@[j].1)),
            forall|j: int| 0 <= j < i ==> entries_view(es@)[j].0 != key@,
        decreases es@.len() - i,
    {
        if es[i].0 == k {
            proof { lemma_first_key_is(entries_view(es@), key@, i as int); }
            return Some(i);
        }
        i = i + 1;
    }
    proof { lemma_first_key_none(entries_view(es@), key@); }
    None
}

} // verus!
verus! {

/// Whether a value is the string `lit`.
fn is_str(v: &Json, lit: &str) -> (b: bool)
    ensures
        b == (json_view(*v) == JsonView::Str(lit@)),
{
    match v {
        Json::Str(s) => {
            let o = String::from_str(lit);
            *s == o
        },
        _ => false,
    }
}

/// Whether a key is one that cleaning drops.
fn is_dropped_key(k: &String) -> (b: bool)
    ensures
        b == dropped_key(k@),
{
    *k == String::from_str("$schema") || *k == String::from_str("title")
}

/// The `label` property every object schema with properties accepts.
fn label_entry() -> (r: (String, Json))
    ensures
        r.0@ == "label"@,
        json_view(r.1) == label_schema(),
{
    let mut p: Vec<(String, Json)> = Vec::new();
    p.push((String::from_str("type"), Json::Str(String::from_str("string"))));
    p.push((
        String::from_str("description"),
        Json::Str(String::from_str("Brief human-readable description of what this step does (shown to user)")),
    ));
    proof {
        lemma_entries_view(p@);
        assert(entries_view(p@) =~= seq![("type"@, JsonView::Str("string"@)), ("description"@, JsonView::Str(label_description()))]);
    }
    (String::from_str("label"), Json::Object(p))
}

/// Whether the entries of an object, then `extra`, say that the type is
/// "object".
fn type_is_object(es: &Vec<(String, Json)>, extra: &Vec<(String, Json)>) -> (b: bool)
    ensures
        b == (view_key_value(entries_view(es@) + entries_view(extra@), "type"@) == Some(JsonView::Str("object"@))),
{
    proof {
        lemma_entries_view(es@);
        lemma_entries_view(extra@);
        lemma_key_value_concat(entries_view(es@), entries_view(extra@), "type"@);
    }
    match find_key(es, "type") {
        Some(i) => is_str(&es[i].1, "object"),
        None => match find_key(extra, "type") {
            Some(i) => is_str(&extra[i].1, "object"),
            None => false,
        },
    }
}

} // verus!
verus! {

/// A copy of a value with every schema object in it cleaned.
fn sanitize_value(j: &Json) -> (r: Json)
    ensures
        json_view(r) == sanitized_json(*j),
    decreases *j,
{
    match j {
        Json::Null => Json::Null,
        Json::Bool(b) => Json::Bool(*b),
        Json::Number(n) => Json::Number(n.clone()),
        Json::Str(s) => Json::Str(s.clone()),
        Json::Array(v) => Json::Array(sanitize_items(v)),
        Json::Object(es) => {
            let none: Vec<(String, Json)> = Vec::new();
            proof { assert(entries_view(none@) =~= Seq::empty()); }
            let r = sanitize_object(es, none);
            Json::Object(r)
        },
    }
}

/// The items of an array, each cleaned.
fn sanitize_items(v: &Vec<Json>) -> (r: Vec<Json>)
    ensures
        items_view(r@) == sanitized_items(v@),
    decreases *v,
{
    let mut r: Vec<Json> = Vec::new();
    let mut i: usize = 0;
    while i < v.len()
        invariant
            i <= v@.len(),
            items_view(r@) == sanitized_items(v@.take(i as int)),
        decreases v@.len() - i,
    {
        proof {
            assert(decreases_to!(*v => v@));
            assert(decreases_to!(v@ => v@[i as int]));
        }
        let x = sanitize_value(&v[i]);
        proof {
            assert(v@.take(i + 1).drop_last() =~= v@.take(i as int));
            assert(r@.push(x).drop_last() =~= r@);
        }
        r.push(x);
        i = i + 1;
    }
    proof { assert(v@.take(v@.len() as int) =~= v@); }
    r
}

/// The cleaned entries of a schema object, then `extra` (entries already
/// clean), then the defaults the object lacks.
fn sanitize_object(es: &Vec<(String, Json)>, extra: Vec<(String, Json)>) -> (r: Vec<(String, Json)>)
    ensures
        entries_view(r@) == sanitized_object(es@, entries_view(extra@)),
    decreases *es,
{
    let ghost ev = entries_view(extra@);
    let ghost all = entries_view(es@) + ev;
    proof {
        lemma_has_key_concat(entries_view(es@), ev, "properties"@);
        lemma_has_key_concat(entries_view(es@), ev, "type"@);
        lemma_has_key_concat(entries_view(es@), ev, "additionalProperties"@);
    }
    let typed = type_is_object(es, &extra);
    let own_props = find_key(es, "properties");
    let has_props = own_props.is_some() || find_key(&extra, "properties").is_some();
    let is_obj = typed || has_props;
    assert(is_obj == is_object_schema(all));
    let label_at: Option<usize> = if is_obj { own_props } else { None };
    let ghost lab: Option<int> = if is_obj { first_key_index(entries_view(es@), "properties"@) } else { None };
    let mut r: Vec<(String, Json)> = Vec::new();
    let mut i: usize = 0;
    while i < es.len()
        invariant
            i <= es@.len(),
            label_at matches Some(l) ==> lab == Some(l as int),
            label_at is None ==> lab is None,
            entries_view(r@) == sanitized_entries(es@.take(i as int), lab),
        decreases es@.len() - i,
    {
        let ghost prefix = es@.take(i + 1);
        proof {
            assert(prefix.drop_last() =~= es@.take(i as int));
            assert(prefix.last() == es@[i as int]);
        }
        if !is_dropped_key(&es[i].0) {
            let v = &es[i].1;
            let at_label = match label_at {
                Some(l) => l == i,
                None => false,
            };
            let cleaned = match v {
                Json::Object(p) => {
                    if at_label && find_key(p, "label").is_none() {
                        let mut ex: Vec<(String, Json)> = Vec::new();
                        ex.push(label_entry());
                        proof {
                            lemma_entries_view(ex@);
                            assert(entries_view(ex@) =~= seq![("label"@, label_schema())]);
                        }
                        Json::Object(sanitize_object(p, ex))
                    } else {
                        sanitize_value(v)
                    }
                },
                _ => sanitize_value(v),
            };
            let key = es[i].0.clone();
            proof { assert(r@.push((key, cleaned)).drop_last() =~= r@); }
            r.push((key, cleaned));
        }
        i = i + 1;
    }
    proof { assert(es@.take(es@.len() as int) =~= es@); }
    let has_type = find_key(es, "type").is_some() || find_key(&extra, "type").is_some();
    let has_additional = find_key(es, "additionalProperties").is_some()
        || find_key(&extra, "additionalProperties").is_some();
    let ghost body = r@;
    let ghost extra_entries = extra@;
    let mut extra = extra;
    r.append(&mut extra);
    proof { lemma_entries_view_concat(body, extra_entries); }
    if is_obj {
        let ghost t: Seq<(Seq<char>, JsonView)> = if has_type { Seq::empty() } else { seq![("type"@, JsonView::Str("object"@))] };
        proof {
            reveal_strlit("type");
            reveal_strlit("additionalProperties");
            lemma_has_key_concat(all, t, "additionalProperties"@);
            if !has_type {
                assert(!view_has_key(t, "additionalProperties"@)) by {
                    assert("type"@.len() == 4);
                    assert("additionalProperties"@.len() == 20);
                    assert(t.len() == 1);
                    assert(t[0].0 != "additionalProperties"@);
                }
            }
        }
        let ghost head = entries_view(r@);
        assert(head == sanitized_entries(es@, lab) + ev);
        if !has_type {
            let d = (String::from_str("type"), Json::Str(String::from_str("object")));
            let ghost before = r@;
            let ghost dg = d;
            r.push(d);
            proof {
                assert(r@.drop_last() =~= before);
                assert(r@.last() == dg);
                assert((dg.0@, json_view(dg.1)) == ("type"@, JsonView::Str("object"@)));
                assert(entries_view(r@) == entries_view(before).push(("type"@, JsonView::Str("object"@))));
            }
        }
        assert(entries_view(r@) =~= head + t);
        let ghost mid = entries_view(r@);
        let ghost a: Seq<(Seq<char>, JsonView)> = if has_additional { Seq::empty() } else { seq![("additionalProperties"@, JsonView::Bool(false))] };
        if !has_additional {
            let d = (String::from_str("additionalProperties"), Json::Bool(false));
            let ghost before = r@;
            let ghost dg = d;
            r.push(d);
            proof {
                assert(r@.drop_last() =~= before);
                assert(r@.last() == dg);
                assert((dg.0@, json_view(dg.1)) == ("additionalProperties"@, JsonView::Bool(false)));
                assert(entries_view(r@) == entries_view(before).push(("additionalProperties"@, JsonView::Bool(false))));
            }
        }
        assert(entries_view(r@) =~= mid + a);
        proof {
            assert(missing_defaults(all) =~= t + a);
            assert(entries_view(r@) =~= sanitized_entries(es@, lab) + ev + missing_defaults(all));
        }
    }
    r
}

} // verus!
verus! {

/// The lowercase hexadecimal digit for `d`.
pub open spec fn hex_digit(d: nat) -> char {
    seq!['0', '1', '2', '3', '4', '5', '6', '7', '8', '9', 'a', 'b', 'c', 'd', 'e', 'f'][d as int]
}

/// A character as it stands inside a JSON string: quote and backslash
/// escaped, control characters by their short escape or as `\u00XX`.
pub open spec fn escaped_char(c: char) -> Seq<char> {
    if c == '"' {
        seq!['\\', '"']
    } else if c == '\\' {
        seq!['\\', '\\']
    } else if c == '\n' {
        seq!['\\', 'n']
    } else if c == '\r' {
        seq!['\\', 'r']
    } else if c == '\t' {
        seq!['\\', 't']
    } else if c == '\u{8}' {
        seq!['\\', 'b']
    } else if c == '\u{c}' {
        seq!['\\', 'f']
    } else if (c as u32) < 0x20 {
        seq!['\\', 'u', '0', '0', hex_digit((c as u32 / 16) as nat), hex_digit((c as u32 % 16) as nat)]
    } else {
        seq![c]
    }
}

/// The characters of a string, each escaped.
pub open spec fn escaped(s: Seq<char>) -> Seq<char>
    decreases s.len(),
{
    if s.len() == 0 {
        Seq::empty()
    } else {
        escaped(s.drop_last()) + escaped_char(s.last())
    }
}

/// A JSON string literal.
pub open spec fn string_text(s: Seq<char>) -> Seq<char> {
    seq!['"'] + escaped(s) + seq!['"']
}

/// The compact JSON text of a value: no spaces, entries in order.
pub open spec fn json_text(v: JsonView) -> Seq<char>
    decreases v, 0nat,
{
    match v {
        JsonView::Null => seq!['n', 'u', 'l', 'l'],
        JsonView::Bool(b) => if b { seq!['t', 'r', 'u', 'e'] } else { seq!['f', 'a', 'l', 's', 'e'] },
        JsonView::Number(n) => n,
        JsonView::Str(s) => string_text(s),
        JsonView::Array(items) => seq!['['] + items_text(items) + seq![']'],
        JsonView::Object(es) => seq!['{'] + entries_text(es) + seq!['}'],
    }
}

/// Array items, comma-separated.
pub open spec fn items_text(s: Seq<JsonView>) -> Seq<char>
    decreases s, s.len(),
{
    if s.len() == 0 {
        Seq::empty()
    } else {
        let sep = if s.len() > 1 { seq![','] } else { Seq::empty() };
        items_text(s.drop_last()) + sep + json_text(s.last())
    }
}

/// Object entries, comma-separated, each a key, a colon and a value.
pub open spec fn entries_text(s: Seq<(Seq<char>, JsonView)>) -> Seq<char>
    decreases s, s.len(),
{
    if s.len() == 0 {
        Seq::empty()
    } else {
        let sep = if s.len() > 1 { seq![','] } else { Seq::empty() };
        entries_text(s.drop_last()) + sep + string_text(s.last().0) + seq![':'] + json_text(s.last().1)
    }
}

fn hex_char(d: u32) -> (c: char)
    requires
        d < 16,
    ensures
        c == hex_digit(d as nat),
{
    let digits = ['0', '1', '2', '3', '4', '5', '6', '7', '8', '9', 'a', 'b', 'c', 'd', 'e', 'f'];
    proof {
        assert(digits@ =~= seq!['0', '1', '2', '3', '4', '5', '6', '7', '8', '9', 'a', 'b', 'c', 'd', 'e', 'f']);
    }
    digits[d as usize]
}

fn push_escaped_char(out: &mut String, c: char)
    ensures
        final(out)@ == old(out)@ + escaped_char(c),
{
    let ghost start = out@;
    if c == '"' {
        push_char(out, '\\');
        push_char(out, '"');
    } else if c == '\\' {
        push_char(out, '\\');
        push_char(out, '\\');
    } else if c == '\n' {
        push_char(out, '\\');
        push_char(out, 'n');
    } else if c == '\r' {
        push_char(out, '\\');
        push_char(out, 'r');
    } else if c == '\t' {
        push_char(out, '\\');
        push_char(out, 't');
    } else if c == '\u{8}' {
        push_char(out, '\\');
        push_char(out, 'b');
    } else if c == '\u{c}' {
        push_char(out, '\\');
        push_char(out, 'f');
    } else if (c as u32) < 0x20 {
        let n = c as u32;
        push_char(out, '\\');
        push_char(out, 'u');
        push_char(out, '0');
        push_char(out, '0');
        push_char(out, hex_char(n / 16));
        push_char(out, hex_char(n % 16));
    } else {
        push_char(out, c);
    }
    assert(out@ =~= start + escaped_char(c));
}

/// Appends a JSON string literal.
fn push_string_text(out: &mut String, s: &str)
    ensures
        final(out)@ == old(out)@ + string_text(s@),
{
    let ghost start = out@;
    let cs = chars_of(s);
    push_char(out, '"');
    let mut i: usize = 0;
    while i < cs.len()
        invariant
            i <= cs@.len(),
            out@ == start + seq!['"'] + escaped(cs@.take(i as int)),
        decreases cs@.len() - i,
    {
        proof { assert(cs@.take(i + 1).drop_last() =~= cs@.take(i as int)); }
        push_escaped_char(out, cs[i]);
        i = i + 1;
        assert(out@ =~= start + seq!['"'] + escaped(cs@.take(i as int)));
    }
    proof { assert(cs@.take(cs@.len() as int) =~= s@); }
    push_char(out, '"');
    assert(out@ =~= start + string_text(s@));
}

} // verus!
verus! {

/// Appends the compact JSON text of a value.
fn push_json_text(out: &mut String, j: &Json)
    ensures
        final(out)@ == old(out)@ + json_text(json_view(*j)),
    decreases *j,
{
    let ghost start = out@;
    match j {
        Json::Null => push_str(out, "null"),
        Json::Bool(b) => if *b { push_str(out, "true") } else { push_str(out, "false") },
        Json::Number(n) => push_str(out, n.as_str()),
        Json::Str(s) => push_string_text(out, s.as_str()),
        Json::Array(v) => {
            push_char(out, '[');
            push_items_text(out, v);
            push_char(out, ']');
        },
        Json::Object(es) => {
            push_char(out, '{');
            push_entries_text(out, es);
            push_char(out, '}');
        },
    }
    proof {
        reveal_strlit("null");
        reveal_strlit("true");
        reveal_strlit("false");
    }
    assert(out@ =~= start + json_text(json_view(*j)));
}

fn push_items_text(out: &mut String, v: &Vec<Json>)
    ensures
        final(out)@ == old(out)@ + items_text(items_view(v@)),
    decreases *v,
{
    let ghost start = out@;
    let mut i: usize = 0;
    while i < v.len()
        invariant
            i <= v@.len(),
            out@ == start + items_text(items_view(v@.take(i as int))),
        decreases v@.len() - i,
    {
        proof {
            assert(decreases_to!(*v => v@));
            assert(decreases_to!(v@ => v@[i as int]));
            assert(v@.take(i + 1).drop_last() =~= v@.take(i as int));
            lemma_items_view(v@.take(i + 1));
            lemma_items_view(v@.take(i as int));
            assert(items_view(v@.take(i + 1)).drop_last() =~= items_view(v@.take(i as int)));
        }
        if i > 0 {
            push_char(out, ',');
        }
        push_json_text(out, &v[i]);
        i = i + 1;
        assert(out@ =~= start + items_text(items_view(v@.take(i as int))));
    }
    proof { assert(v@.take(v@.len() as int) =~= v@); }
}

fn push_entries_text(out: &mut String, es: &Vec<(String, Json)>)
    ensures
        final(out)@ == old(out)@ + entries_text(entries_view(es@)),
    decreases *es,
{
    let ghost start = out@;
    let mut i: usize = 0;
    while i < es.len()
        invariant
            i <= es@.len(),
            out@ == start + entries_text(entries_view(es@.take(i as int))),
        decreases es@.len() - i,
    {
        proof {
            assert(es@.take(i + 1).drop_last() =~= es@.take(i as int));
            lemma_entries_view(es@.take(i + 1));
            lemma_entries_view(es@.take(i as int));
            assert(entries_view(es@.take(i + 1)).drop_last() =~= entries_view(es@.take(i as int)));
        }
        if i > 0 {
            push_char(out, ',');
        }
        push_string_text(out, es[i].0.as_str());
        push_char(out, ':');
        push_json_text(out, &es[i].1);
        i = i + 1;
        assert(out@ =~= start + entries_text(entries_view(es@.take(i as int))));
    }
    proof { assert(es@.take(es@.len() as int) =~= es@); }
}

} // verus!
verus! {

impl Json {
    /// The compact JSON text of the value.
    pub fn to_text(&self) -> (r: String)
        ensures
            r@ == json_text(json_view(*self)),
    {
        let mut out = String::new();
        push_json_text(&mut out, self);
        r_of(out)
    }

    /// The value under `key`, when this is an object that has it.
    pub fn get(&self, key: &str) -> (r: Option<&Json>)
        ensures
            match json_view(*self) {
                JsonView::Object(es) => match view_key_value(es, key@) {
                    Some(v) => (r matches Some(x) && json_view(*x) == v),
                    None => r is None,
                },
                _ => r is None,
            },
    {
        match self {
            Json::Object(es) => {
                proof { lemma_entries_view(es@); }
                match find_key(es, key) {
                    Some(i) => Some(&es[i].1),
                    None => None,
                }
            },
            _ => None,
        }
    }

    /// Whether the value is an object.
    pub fn is_object(&self) -> (r: bool)
        ensures
            r == (json_view(*self) is Object),
    {
        match self {
            Json::Object(_) => true,
            _ => false,
        }
    }
}

fn r_of(s: String) -> (r: String)
    ensures
        r == s,
{
    s
}

/// What the `jsonschema` crate reports for `instance` against `schema`,
/// both given as JSON text: each error's instance path and message, in the
/// order the crate reports them; or the one message of a text that does not
/// parse or a schema that does not compile.
pub uninterp spec fn schema_check_of(schema: Seq<char>, instance: Seq<char>) -> Result<Seq<(Seq<char>, Seq<char>)>, Seq<char>>;

/// Parses both texts with `serde_json::from_str`, compiles the schema with
/// `jsonschema::Validator::new` and lists `iter_errors` on the instance,
/// each error as its instance path and its message (both by `Display`); a
/// text that does not parse, or a schema that does not compile, gives that
/// error's message. The contract names the result and says nothing else of
/// it.
#[verifier::external_body]
fn schema_check(schema: &str, instance: &str) -> (r: Result<Vec<(String, String)>, String>)
    ensures
        match (r, schema_check_of(schema@, instance@)) {
            (Ok(got), Ok(want)) => got@.map_values(|e: (String, String)| (e.0@, e.1@)) == want,
            (Err(got), Err(want)) => got@ == want,
            _ => false,
        },
{
    let schema: serde_json::Value = match serde_json::from_str(schema) { Ok(v) => v, Err(e) => return Err(e.to_string()) };
    let instance: serde_json::Value = match serde_json::from_str(instance) { Ok(v) => v, Err(e) => return Err(e.to_string()) };
    let validator = match jsonschema::Validator::new(&schema) { Ok(v) => v, Err(e) => return Err(e.to_string()) };
    let mut errors = Vec::new();
    for e in validator.iter_errors(&instance) {
        errors.push((e.instance_path().to_string(), e.to_string()));
    }
    Ok(errors)
}

/// One reported error: its instance path, a colon and its message.
pub open spec fn error_line(path: Seq<char>, message: Seq<char>) -> Seq<char> {
    path + ": "@ + message
}

/// The errors of a check, one text each: the one message of a check that
/// could not run, else each error as `error_line`.
pub open spec fn check_errors(check: Result<Seq<(Seq<char>, Seq<char>)>, Seq<char>>) -> Seq<Seq<char>> {
    match check {
        Err(m) => seq![m],
        Ok(es) => Seq::new(es.len(), |i: int| error_line(es[i].0, es[i].1)),
    }
}

/// What validating `instance` against `schema` gives: the errors that the
/// validator reports, in order; none means success.
pub open spec fn schema_validation(schema: JsonView, instance: JsonView) -> Result<(), Seq<Seq<char>>> {
    let errors = check_errors(schema_check_of(json_text(schema), json_text(instance)));
    if errors.len() == 0 {
        Ok(())
    } else {
        Err(errors)
    }
}

/// The errors of a check as texts (see `check_errors`).
pub fn error_lines(check: Result<Vec<(String, String)>, String>) -> (r: Vec<String>)
    ensures
        views(r@) == check_errors(match check {
            Ok(es) => Ok(es@.map_values(|e: (String, String)| (e.0@, e.1@))),
            Err(m) => Err(m@),
        }),
{
    match check {
        Err(m) => {
            let mut r: Vec<String> = Vec::new();
            proof { lemma_views_push(r@, m); }
            r.push(m);
            assert(views(r@) =~= seq![m@]);
            r
        },
        Ok(es) => {
            let ghost ev = es@.map_values(|e: (String, String)| (e.0@, e.1@));
            let mut r: Vec<String> = Vec::new();
            let mut i: usize = 0;
            while i < es.len()
                invariant
                    i <= es@.len(),
                    ev == es@.map_values(|e: (String, String)| (e.0@, e.1@)),
                    views(r@) == Seq::new(i as nat, |k: int| error_line(ev[k].0, ev[k].1)),
                decreases es@.len() - i,
            {
                let mut line = es[i].0.clone();
                push_str(&mut line, ": ");
                push_str(&mut line, es[i].1.as_str());
                proof { lemma_views_push(r@, line); }
                r.push(line);
                i = i + 1;
                assert(views(r@) =~= Seq::new(i as nat, |k: int| error_line(ev[k].0, ev[k].1)));
            }
            r
        },
    }
}

/// Validates `instance` against `schema`.
pub fn validate_schema(schema: &Json, instance: &Json) -> (r: Result<(), Vec<String>>)
    ensures
        match (r, schema_validation(json_view(*schema), json_view(*instance))) {
            (Ok(()), Ok(())) => true,
            (Err(got), Err(want)) => views(got@) == want,
            _ => false,
        },
{
    let errors = error_lines(schema_check(schema.to_text().as_str(), instance.to_text().as_str()));
    if errors.len() == 0 {
        Ok(())
    } else {
        Err(errors)
    }
}

/// The message for arguments that are not an object.
pub open spec fn not_object_message(kind: Seq<char>) -> Seq<char> {
    "Tool arguments must be a JSON object, got "@ + kind
}

/// The message for arguments that the schema rejects: a header, then one
/// line per error.
pub open spec fn schema_failure_message(errors: Seq<Seq<char>>) -> Seq<char> {
    "Schema validation failed:\n"@ + join(Seq::new(errors.len(), |i: int| "- "@ + errors[i]), "\n"@)
}

/// The message for arguments that the schema rejects.
pub fn schema_failure_text(errors: &[String]) -> (r: String)
    ensures
        r@ == schema_failure_message(views(errors@)),
{
    let mut lines: Vec<String> = Vec::new();
    let mut i: usize = 0;
    while i < errors.len()
        invariant
            i <= errors@.len(),
            views(lines@) == Seq::new(i as nat, |k: int| "- "@ + errors@[k]@),
        decreases errors@.len() - i,
    {
        let mut line = String::new();
        push_str(&mut line, "- ");
        push_str(&mut line, errors[i].as_str());
        proof { lemma_views_push(lines@, line); }
        lines.push(line);
        i = i + 1;
        assert(views(lines@) =~= Seq::new(i as nat, |k: int| "- "@ + errors@[k]@));
    }
    let body = join_strings(&lines, "\n");
    let mut r = String::new();
    push_str(&mut r, "Schema validation failed:\n");
    push_str(&mut r, body.as_str());
    assert(Seq::new(views(errors@).len(), |k: int| "- "@ + views(errors@)[k]) =~= views(lines@));
    r
}

/// Checks tool arguments: they must be an object, and the schema must
/// accept them.
pub fn validate_tool_args(schema: &Json, raw_args: &Json) -> (r: Result<(), String>)
    ensures
        !(json_view(*raw_args) is Object) ==> (r matches Err(m) && m@ == not_object_message(json_type_name_of(*raw_args))),
        json_view(*raw_args) is Object ==> match (r, schema_validation(json_view(*schema), json_view(*raw_args))) {
            (Ok(()), Ok(())) => true,
            (Err(m), Err(errors)) => m@ == schema_failure_message(errors),
            _ => false,
        },
{
    if !raw_args.is_object() {
        let mut m = String::new();
        push_str(&mut m, "Tool arguments must be a JSON object, got ");
        push_str(&mut m, json_type_name(raw_args));
        return Err(m);
    }
    match validate_schema(schema, raw_args) {
        Ok(()) => Ok(()),
        Err(errors) => Err(schema_failure_text(&errors)),
    }
}

/// Cleans a schema in place (see `sanitized_json`).
pub fn sanitize_schema(schema: &mut Json)
    ensures
        json_view(*final(schema)) == sanitized_json(*old(schema)),
{
    let cleaned = sanitize_value(schema);
    *schema = cleaned;
}

} // verus!
verus! {

proof fn lemma_sanitized_entries_keys(es: Seq<(String, Json)>, lab: Option<int>, k: Seq<char>)
    ensures
        dropped_key(k) ==> !view_has_key(sanitized_entries(es, lab), k),
        !dropped_key(k) && view_has_key(entries_view(es), k) ==> view_has_key(sanitized_entries(es, lab), k),
    decreases es.len(),
{
    if es.len() > 0 {
        let rest = es.drop_last();
        lemma_sanitized_entries_keys(rest, lab, k);
        lemma_entries_view(es);
        lemma_entries_view(rest);
        let r = sanitized_entries(es, lab);
        let rr = sanitized_entries(rest, lab);
        if !dropped_key(es.last().0@) {
            assert(r == rr.push((es.last().0@, r.last().1)));
            lemma_has_key_concat(rr, seq![r.last()], k);
            assert(rr.push(r.last()) =~= rr + seq![r.last()]);
        } else {
            assert(r == rr);
        }
        if !dropped_key(k) && view_has_key(entries_view(es), k) {
            let i = choose|i: int| 0 <= i < entries_view(es).len() && #[trigger] entries_view(es)[i].0 == k;
            if i < es.len() - 1 {
                assert(entries_view(rest)[i].0 == k);
            } else {
                assert(seq![r.last()][0].0 == k);
            }
        }
    }
}

/// A cleaned schema object has no `$schema` and no `title`; when it is the
/// schema of an object, it states its type and whether other properties
/// are allowed.
pub proof fn lemma_sanitized_schema_is_strict(j: Json)
    requires
        j is Object,
    ensures
        match sanitized_json(j) {
            JsonView::Object(es) => !view_has_key(es, "$schema"@) && !view_has_key(es, "title"@)
                && (is_object_schema(entries_view(j->Object_0@)) ==> view_has_key(es, "type"@)
                    && view_has_key(es, "additionalProperties"@)),
            _ => false,
        },
{
    let es = j->Object_0@;
    let all = entries_view(es) + Seq::<(Seq<char>, JsonView)>::empty();
    assert(all =~= entries_view(es));
    let lab = if is_object_schema(all) { first_key_index(entries_view(es), "properties"@) } else { None };
    let body = sanitized_entries(es, lab);
    reveal_strlit("$schema");
    reveal_strlit("title");
    reveal_strlit("type");
    reveal_strlit("additionalProperties");
    assert("$schema"@ != "type"@) by { assert("$schema"@.len() != "type"@.len()); }
    assert("$schema"@ != "additionalProperties"@) by { assert("$schema"@.len() != "additionalProperties"@.len()); }
    assert("title"@ != "type"@) by { assert("title"@.len() != "type"@.len()); }
    assert("title"@ != "additionalProperties"@) by { assert("title"@.len() != "additionalProperties"@.len()); }
    assert("type"@ != "additionalProperties"@) by { assert("type"@.len() != "additionalProperties"@.len()); }
    assert(dropped_key("$schema"@));
    assert(dropped_key("title"@));
    assert(!dropped_key("type"@)) by {
        assert("type"@ != "$schema"@);
        assert("type"@ != "title"@);
    }
    assert(!dropped_key("additionalProperties"@)) by {
        assert("additionalProperties"@ != "$schema"@);
        assert("additionalProperties"@ != "title"@);
    }
    lemma_sanitized_entries_keys(es, lab, "$schema"@);
    lemma_sanitized_entries_keys(es, lab, "title"@);
    lemma_sanitized_entries_keys(es, lab, "type"@);
    lemma_sanitized_entries_keys(es, lab, "additionalProperties"@);
    let head = body + Seq::<(Seq<char>, JsonView)>::empty();
    assert(head =~= body);
    if is_object_schema(all) {
        let d = missing_defaults(all);
        let t: Seq<(Seq<char>, JsonView)> = if view_has_key(all, "type"@) { Seq::empty() } else { seq![("type"@, JsonView::Str("object"@))] };
        let a: Seq<(Seq<char>, JsonView)> = if view_has_key(all + t, "additionalProperties"@) { Seq::empty() } else { seq![("additionalProperties"@, JsonView::Bool(false))] };
        assert(d == t + a);
        lemma_has_key_concat(body, d, "$schema"@);
        lemma_has_key_concat(body, d, "title"@);
        lemma_has_key_concat(body, d, "type"@);
        lemma_has_key_concat(body, d, "additionalProperties"@);
        lemma_has_key_concat(t, a, "$schema"@);
        lemma_has_key_concat(t, a, "title"@);
        lemma_has_key_concat(t, a, "type"@);
        lemma_has_key_concat(t, a, "additionalProperties"@);
        lemma_has_key_concat(all, t, "additionalProperties"@);
        if !view_has_key(all, "type"@) {
            assert(t[0].0 == "type"@);
        }
        if !view_has_key(all + t, "additionalProperties"@) {
            assert(a[0].0 == "additionalProperties"@);
        }
        assert(!view_has_key(t, "$schema"@));
        assert(!view_has_key(t, "title"@));
        assert(!view_has_key(a, "$schema"@));
        assert(!view_has_key(a, "title"@));
        assert(!view_has_key(t, "additionalProperties"@));
    }
}

} // verus!
