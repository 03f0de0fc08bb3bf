//! JSON documents as trees of plain values.

use vstd::prelude::*;

verus! {

broadcast use vstd::std_specs::vec::group_vec_axioms;

/// A parsed JSON document.
///
/// A number keeps its value where it is an integer that fits `i64` or
/// `u64`; any other number keeps none. An object keeps its members in the
/// order in which `serde_json` hands them out: sorted by name, unless it is
/// built to keep the order of the text.
#[derive(Debug)]
pub enum JsonValue {
    Null,
    Bool(bool),
    Number(Option<i64>, Option<u64>),
    Text(String),
    List(Vec<JsonValue>),
    Object(Vec<(String, JsonValue)>),
}

/// The mathematical content of a `JsonValue`.
pub ghost enum JsonModel {
    Null,
    Bool(bool),
    Number(Option<int>),
    Text(Seq<char>),
    List(Seq<JsonModel>),
    Object(Seq<(Seq<char>, JsonModel)>),
}

/// The integer that a number stands for, if it is one.
pub open spec fn integer_of(signed: Option<i64>, unsigned: Option<u64>) -> Option<int> {
    match signed {
        Some(i) => Some(i as int),
        None => match unsigned {
            Some(u) => Some(u as int),
            None => None,
        },
    }
}

impl View for JsonValue {
    type V = JsonModel;

    open spec fn view(&self) -> JsonModel
        decreases self,
    {
        match self {
            JsonValue::Null => JsonModel::Null,
            JsonValue::Bool(b) => JsonModel::Bool(*b),
            JsonValue::Number(signed, unsigned) => JsonModel::Number(integer_of(*signed, *unsigned)),
            JsonValue::Text(s) => JsonModel::Text(s@),
            JsonValue::List(items) => JsonModel::List(
                Seq::new(
                    items.len() as nat,
                    |i: int|
                        if 0 <= i < items.len() {
                            items[i]@
                        } else {
                            JsonModel::Null
                        },
                ),
            ),
            JsonValue::Object(members) => JsonModel::Object(
                Seq::new(
                    members.len() as nat,
                    |i: int|
                        if 0 <= i < members.len() {
                            (members[i].0@, members[i].1@)
                        } else {
                            (Seq::empty(), JsonModel::Null)
                        },
                ),
            ),
        }
    }
}

/// The views of the items of a list, in order.
pub open spec fn items_of(items: Seq<JsonValue>) -> Seq<JsonModel> {
    items.map_values(|item: JsonValue| item@)
}

/// The views of the members of an object, in order.
pub open spec fn members_of(members: Seq<(String, JsonValue)>) -> Seq<(Seq<char>, JsonModel)> {
    members.map_values(|m: (String, JsonValue)| (m.0@, m.1@))
}

/// The view of a list is the list of its items' views.
pub proof fn lemma_list_view(items: Vec<JsonValue>)
    ensures
        JsonValue::List(items)@ == JsonModel::List(items_of(items@)),
{
    reveal_with_fuel(<JsonValue as View>::view, 2);
    assert(JsonValue::List(items)@->List_0 =~= items_of(items@));
}

/// The view of an object is the list of its members' views.
pub proof fn lemma_object_view(members: Vec<(String, JsonValue)>)
    ensures
        JsonValue::Object(members)@ == JsonModel::Object(members_of(members@)),
{
    reveal_with_fuel(<JsonValue as View>::view, 2);
    assert(JsonValue::Object(members)@->Object_0 =~= members_of(members@));
}

/// `serde_json::Value`, the parser's own form of a document; nothing of it
/// is read here but through `tree_of`.
#[verifier::external_type_specification]
#[verifier::external_body]
pub struct ExValue(serde_json::Value);

/// The document that a text denotes, or `None` where the text is not one
/// JSON document.
pub uninterp spec fn json_document(text: Seq<char>) -> Option<JsonModel>;

/// Copies a `serde_json::Value` into a tree, variant by variant; a number
/// through `Number::as_i64` and `Number::as_u64`, the members of an object
/// in the order of `Map::into_iter`.
#[verifier::external_body]
fn tree_of(value: serde_json::Value) -> JsonValue {
    match value {
        serde_json::Value::Null => JsonValue::Null,
        serde_json::Value::Bool(b) => JsonValue::Bool(b),
        serde_json::Value::Number(n) => JsonValue::Number(n.as_i64(), n.as_u64()),
        serde_json::Value::String(s) => JsonValue::Text(s),
        serde_json::Value::Array(items) => JsonValue::List(items.into_iter().map(tree_of).collect()),
        serde_json::Value::Object(members) => JsonValue::Object(
            members.into_iter().map(|(key, item)| (key, tree_of(item))).collect(),
        ),
    }
}

/// `serde_json::from_str` at the type `serde_json::Value`. Trusted: whether
/// the text is a JSON document, and which, depends on the text alone.
#[verifier::external_body]
pub(crate) fn read_document(text: &str) -> (doc: Option<JsonValue>)
    ensures
        match doc {
            Some(tree) => json_document(text@) == Some(tree@),
            None => json_document(text@) is None,
        },
{
    match serde_json::from_str::<serde_json::Value>(text) {
        Ok(value) => Some(tree_of(value)),
        Err(_) => None,
    }
}

} // verus!
