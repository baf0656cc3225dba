//! Reading JSON: the text is parsed by the JSON crate, and what it holds becomes a
//! plain document.
use vstd::prelude::*;

use crate::json::{
    entries_view, items_view, lemma_entries_view, lemma_items_view, Json, JsonEntry, JsonNumber,
    JsonView,
};
use crate::json_map::{is_map, keys_in_order, lemma_item_maps_from_all, lemma_maps_from_all};

verus! {

/// A value of the JSON crate.
#[verifier::external_type_specification]
#[verifier::external_body]
pub struct ExValue(serde_json::Value);

/// The document that a value of the JSON crate holds. Of a number with a fraction or
/// an exponent it holds the text that the crate prints for it.
pub uninterp spec fn value_document(value: serde_json::Value) -> JsonView;

/// The document that a text holds, or what is wrong with the text.
pub uninterp spec fn json_document(text: Seq<char>) -> Result<JsonView, Seq<char>>;

/// The document that bytes hold, or what is wrong with the bytes.
pub uninterp spec fn json_of_bytes(bytes: Seq<u8>) -> Result<JsonView, Seq<char>>;

/// The documents of values.
pub open spec fn value_documents(values: Seq<serde_json::Value>) -> Seq<JsonView> {
    Seq::new(values.len(), |i: int| value_document(values[i]))
}

/// The keys of an object, each with the document under it.
pub open spec fn entry_documents(entries: Seq<(&String, &serde_json::Value)>) -> Seq<
    (Seq<char>, JsonView),
> {
    Seq::new(entries.len(), |i: int| (entries[i].0@, value_document(*entries[i].1)))
}

/// What a value of the JSON crate is made of.
enum Node<'a> {
    Null,
    Bool(bool),
    Number(JsonNumber),
    Text(&'a String),
    Array(&'a Vec<serde_json::Value>),
    Object(Vec<(&'a String, &'a serde_json::Value)>),
}

/// `serde_json::from_str` into a `serde_json::Value`: the value, or the text of the
/// error, depends on the text alone.
#[verifier::external_body]
fn value_of_text(text: &str) -> (r: Result<serde_json::Value, String>)
    ensures
        match r {
            Ok(value) => json_document(text@) == Ok::<JsonView, Seq<char>>(value_document(value)),
            Err(e) => json_document(text@) == Err::<JsonView, Seq<char>>(e@),
        },
{
    serde_json::from_str::<serde_json::Value>(text).map_err(|error| error.to_string())
}

/// `serde_json::from_slice` into a `serde_json::Value`: the value, or the text of the
/// error, depends on the bytes alone.
#[verifier::external_body]
fn value_of_bytes(bytes: &[u8]) -> (r: Result<serde_json::Value, String>)
    ensures
        match r {
            Ok(value) => json_of_bytes(bytes@) == Ok::<JsonView, Seq<char>>(value_document(value)),
            Err(e) => json_of_bytes(bytes@) == Err::<JsonView, Seq<char>>(e@),
        },
{
    serde_json::from_slice::<serde_json::Value>(bytes).map_err(|error| error.to_string())
}

/// The variants of `serde_json::Value`, told apart: a value holds what its variant
/// holds. A number is an unsigned or else a signed integer (`as_u64`, `as_i64`), or
/// else has the text that the crate prints. The entries of an object come out in the
/// order of their keys, each key once: `serde_json::Map` is a `BTreeMap`.
#[verifier::external_body]
fn open_value<'a>(value: &'a serde_json::Value) -> (r: Node<'a>)
    ensures
        match r {
            Node::Null => value_document(*value) == JsonView::Null,
            Node::Bool(b) => value_document(*value) == JsonView::Bool(b),
            Node::Number(n) => value_document(*value) == JsonView::Number(n@),
            Node::Text(text) => value_document(*value) == JsonView::Text(text@),
            Node::Array(items) => value_document(*value) == JsonView::Array(
                value_documents(items@),
            ),
            Node::Object(entries) => value_document(*value) == JsonView::Object(
                entry_documents(entries@),
            ) && keys_in_order(entry_documents(entries@)),
        },
{
    match value {
        serde_json::Value::Null => Node::Null,
        serde_json::Value::Bool(b) => Node::Bool(*b),
        serde_json::Value::Number(n) => Node::Number(match (n.as_u64(), n.as_i64()) {
            (Some(n), _) => JsonNumber::PosInt(n),
            (None, Some(n)) => JsonNumber::NegInt(n),
            (None, None) => JsonNumber::Float(n.to_string()),
        }),
        serde_json::Value::String(text) => Node::Text(text),
        serde_json::Value::Array(items) => Node::Array(items),
        serde_json::Value::Object(entries) => Node::Object(entries.iter().collect()),
    }
}

/// The document that a value of the JSON crate holds.
fn document_of(value: &serde_json::Value) -> (r: Json)
    ensures
        r@ == value_document(*value),
        is_map(r@),
    decreases value_document(*value),
{
    match open_value(value) {
        Node::Null => Json::Null,
        Node::Bool(b) => Json::Bool(b),
        Node::Number(n) => Json::Number(n),
        Node::Text(text) => Json::Text(text.clone()),
        Node::Array(items) => {
            let ghost held = value_documents(items@);
            let mut out: Vec<Json> = Vec::new();
            let mut i: usize = 0;
            while i < items.len()
                invariant
                    i <= items@.len(),
                    out@.len() == i,
                    held == value_documents(items@),
                    value_document(*value) == JsonView::Array(held),
                    forall|k: int|
                        0 <= k < i ==> (#[trigger] out@[k])@ == held[k] && is_map(held[k]),
                decreases items@.len() - i,
            {
                assert(held[i as int] == value_document(items@[i as int]));
                assert(decreases_to!(value_document(*value) => value_document(*value)->Array_0));
                assert(decreases_to!(held => held[i as int]));
                out.push(document_of(&items[i]));
                i += 1;
            }
            proof {
                lemma_items_view(out@);
                assert(items_view(out@) =~= held);
                assert forall|k: int| 0 <= k < held.len() implies is_map(#[trigger] held[k]) by {
                    assert(out@[k]@ == held[k]);
                }
                lemma_item_maps_from_all(held);
            }
            Json::Array(out)
        },
        Node::Object(entries) => {
            let ghost held = entry_documents(entries@);
            let mut out: Vec<JsonEntry> = Vec::new();
            let mut i: usize = 0;
            while i < entries.len()
                invariant
                    i <= entries@.len(),
                    out@.len() == i,
                    held == entry_documents(entries@),
                    value_document(*value) == JsonView::Object(held),
                    forall|k: int|
                        0 <= k < i ==> ((#[trigger] out@[k]).key@, out@[k].value@) == held[k]
                            && is_map(held[k].1),
                decreases entries@.len() - i,
            {
                assert(held[i as int] == (
                    entries@[i as int].0@,
                    value_document(*entries@[i as int].1),
                ));
                assert(decreases_to!(value_document(*value) => value_document(*value)->Object_0));
                assert(decreases_to!(held => held[i as int]));
                assert(decreases_to!(held[i as int] => held[i as int].1));
                let item = document_of(entries[i].1);
                out.push(JsonEntry { key: entries[i].0.clone(), value: item });
                i += 1;
            }
            proof {
                lemma_entries_view(out@);
                assert(entries_view(out@) =~= held);
                assert forall|k: int| 0 <= k < held.len() implies is_map(
                    (#[trigger] held[k]).1,
                ) by {
                    assert((out@[k].key@, out@[k].value@) == held[k]);
                }
                lemma_maps_from_all(held);
            }
            Json::Object(out)
        },
    }
}

/// Reads the document that a text holds.
pub fn read_json(text: &str) -> (r: Result<Json, String>)
    ensures
        match r {
            Ok(value) => json_document(text@) == Ok::<JsonView, Seq<char>>(value@) && is_map(
                value@,
            ),
            Err(e) => json_document(text@) == Err::<JsonView, Seq<char>>(e@),
        },
{
    match value_of_text(text) {
        Ok(value) => Ok(document_of(&value)),
        Err(e) => Err(e),
    }
}

/// Reads the document that bytes hold.
pub fn read_json_bytes(bytes: &[u8]) -> (r: Result<Json, String>)
    ensures
        match r {
            Ok(value) => json_of_bytes(bytes@) == Ok::<JsonView, Seq<char>>(value@) && is_map(
                value@,
            ),
            Err(e) => json_of_bytes(bytes@) == Err::<JsonView, Seq<char>>(e@),
        },
{
    match value_of_bytes(bytes) {
        Ok(value) => Ok(document_of(&value)),
        Err(e) => Err(e),
    }
}

} // verus!
