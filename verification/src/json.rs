//! A one-level view of a JSON document: scalars hold their value; arrays and
//! objects hold their own compact rendering and the source text of each
//! member, which is decoded when the logic descends into it.

use std::collections::BTreeMap;

use serde_json::value::RawValue;
use serde_json::{from_str, Value};
use vstd::prelude::*;

use crate::text::str_eq;

verus! {

/// What a decoded JSON text is, one level deep.
pub enum JsonView {
    Null,
    Bool(bool),
    /// The number as `serde_json` renders it.
    Number(Seq<char>),
    Str(Seq<char>),
    /// The array's compact rendering, and the source text of each element,
    /// in order.
    Array(Seq<char>, Seq<Seq<char>>),
    /// The object's compact rendering, and each member's name with the
    /// source text of its value, by name (the last of repeated names).
    Object(Seq<char>, Seq<(Seq<char>, Seq<char>)>),
}

/// A decoded JSON text, one level deep.
pub enum JsonNode {
    Null,
    Bool(bool),
    Number(String),
    Str(String),
    Array(String, Vec<String>),
    Object(String, Vec<(String, String)>),
}

/// Names and member texts of an object's fields.
pub open spec fn fields_view(fields: Seq<(String, String)>) -> Seq<(Seq<char>, Seq<char>)> {
    fields.map_values(|f: (String, String)| (f.0@, f.1@))
}

/// Texts of an array's elements.
pub open spec fn items_view(items: Seq<String>) -> Seq<Seq<char>> {
    items.map_values(|t: String| t@)
}

impl View for JsonNode {
    type V = JsonView;

    open spec fn view(&self) -> JsonView {
        match self {
            JsonNode::Null => JsonView::Null,
            JsonNode::Bool(b) => JsonView::Bool(*b),
            JsonNode::Number(n) => JsonView::Number(n@),
            JsonNode::Str(s) => JsonView::Str(s@),
            JsonNode::Array(r, items) => JsonView::Array(r@, items_view(items@)),
            JsonNode::Object(r, fields) => JsonView::Object(r@, fields_view(fields@)),
        }
    }
}

/// The view of an optional string.
pub open spec fn opt_chars(o: Option<String>) -> Option<Seq<char>> {
    match o {
        Some(s) => Some(s@),
        None => None,
    }
}

/// The view of an optional node.
pub open spec fn opt_node(o: Option<JsonNode>) -> Option<JsonView> {
    match o {
        Some(n) => Some(n@),
        None => None,
    }
}

/// What `serde_json` makes of a text, one level deep (`None` where it
/// reports an error).
pub uninterp spec fn json_decode(text: Seq<char>) -> Option<JsonView>;

/// Decodes a JSON text with `serde_json::from_str::<serde_json::Value>`;
/// an array or object is rendered with `Value`'s `Display` and its members
/// are read again from the same text as `RawValue`s, which hand out each
/// member's source text. The contract claims that the result is
/// `json_decode` of the text, which makes the result a function of the
/// text alone. Nothing is claimed of which texts decode.
#[verifier::external_body]
pub(crate) fn decode_json(text: &str) -> (r: Option<JsonNode>)
    ensures
        opt_node(r) == json_decode(text@),
{
    Some(match from_str(text).ok()? {
        Value::Null => JsonNode::Null,
        Value::Bool(b) => JsonNode::Bool(b),
        Value::Number(n) => JsonNode::Number(n.to_string()),
        Value::String(s) => JsonNode::Str(s),
        v @ Value::Array(_) => JsonNode::Array(v.to_string(),
            from_str::<Vec<&RawValue>>(text).ok()?.iter().map(|m| m.to_string()).collect()),
        v @ Value::Object(_) => JsonNode::Object(v.to_string(),
            from_str::<BTreeMap<String, &RawValue>>(text).ok()?.into_iter()
                .map(|(k, m)| (k, m.to_string())).collect()),
    })
}

/// The text of the first member named `key`.
pub open spec fn lookup(fields: Seq<(Seq<char>, Seq<char>)>, key: Seq<char>) -> Option<Seq<char>>
    decreases fields.len(),
{
    if fields.len() == 0 {
        None
    } else if fields[0].0 == key {
        Some(fields[0].1)
    } else {
        lookup(fields.drop_first(), key)
    }
}

/// `Value::get(key)` as text: the member `key` of an object, `None` for
/// anything else.
pub open spec fn child(node: JsonView, key: Seq<char>) -> Option<Seq<char>> {
    match node {
        JsonView::Object(_, fields) => lookup(fields, key),
        _ => None,
    }
}

/// The member `key` of an object, decoded.
pub open spec fn child_node(node: JsonView, key: Seq<char>) -> Option<JsonView> {
    match child(node, key) {
        Some(t) => json_decode(t),
        None => None,
    }
}

/// `value.get(key)?.as_str()`: the member `key` when it is a string.
pub open spec fn string_field(node: JsonView, key: Seq<char>) -> Option<Seq<char>> {
    match child_node(node, key) {
        Some(JsonView::Str(s)) => Some(s),
        _ => None,
    }
}

proof fn lemma_lookup_found(fields: Seq<(Seq<char>, Seq<char>)>, key: Seq<char>, k: int)
    requires
        0 <= k < fields.len(),
        fields[k].0 == key,
        forall|m: int| 0 <= m < k ==> fields[m].0 != key,
    ensures
        lookup(fields, key) == Some(fields[k].1),
    decreases k,
{
    if k > 0 {
        lemma_lookup_found(fields.drop_first(), key, k - 1);
    }
}

proof fn lemma_lookup_missing(fields: Seq<(Seq<char>, Seq<char>)>, key: Seq<char>)
    requires
        forall|m: int| 0 <= m < fields.len() ==> fields[m].0 != key,
    ensures
        lookup(fields, key) is None,
    decreases fields.len(),
{
    if fields.len() > 0 {
        lemma_lookup_missing(fields.drop_first(), key);
    }
}

/// The text of the member `key` of an object node.
pub fn field_text(node: &JsonNode, key: &str) -> (r: Option<String>)
    ensures
        opt_chars(r) == child(node@, key@),
{
    match node {
        JsonNode::Object(r, fields) => {
            let ghost fv = fields_view(fields@);
            let mut k: usize = 0;
            while k < fields.len()
                invariant
                    k <= fields@.len(),
                    fv == fields_view(fields@),
                    node@ == JsonView::Object(r@, fv),
                    forall|m: int| 0 <= m < k ==> fv[m].0 != key@,
                decreases fields.len() - k,
            {
                assert(fv[k as int] == (fields@[k as int].0@, fields@[k as int].1@));
                if str_eq(fields[k].0.as_str(), key) {
                    proof {
                        lemma_lookup_found(fv, key@, k as int);
                    }
                    return Some(fields[k].1.clone());
                }
                k = k + 1;
            }
            proof {
                lemma_lookup_missing(fv, key@);
            }
            None
        },
        _ => None,
    }
}

/// The member `key` of an object node, decoded.
pub fn field_node(node: &JsonNode, key: &str) -> (r: Option<JsonNode>)
    ensures
        opt_node(r) == child_node(node@, key@),
{
    match field_text(node, key) {
        Some(t) => decode_json(t.as_str()),
        None => None,
    }
}

/// The member `key` of an object node when it is a string.
pub fn field_string(node: &JsonNode, key: &str) -> (r: Option<String>)
    ensures
        opt_chars(r) == string_field(node@, key@),
{
    match field_node(node, key) {
        Some(JsonNode::Str(s)) => Some(s),
        _ => None,
    }
}

} // verus!
