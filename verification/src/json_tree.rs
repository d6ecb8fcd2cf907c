//! JSON values, as the `json` crate builds and prints them.
//!
//! A `JsonValue` is opaque here. What the library knows of one is its model:
//! the tree of texts, lists and records that it holds. The functions of this
//! module build values and say what each step does to the model.

use json::JsonValue;
use vstd::prelude::*;

verus! {

/// A JSON value of the `json` crate.
#[verifier::external_type_specification]
#[verifier::external_body]
pub struct ExJsonValue(JsonValue);

/// The error of the `json` crate.
#[verifier::external_type_specification]
#[verifier::external_body]
pub struct ExJsonError(json::Error);

/// What a JSON value holds.
pub enum JsonModel {
    /// A string.
    Text(Seq<char>),
    /// An array, with its items in their order.
    List(Seq<JsonModel>),
    /// An object, with its members in the order in which their keys came in.
    Record(Seq<(Seq<char>, JsonModel)>),
    /// Any other value, held by the text that it is printed as.
    Other(Seq<char>),
}

/// The model of a JSON value.
pub uninterp spec fn json_model(value: &JsonValue) -> JsonModel;

/// The text that a JSON value with the given model is printed as.
pub uninterp spec fn json_text(model: JsonModel) -> Seq<char>;

/// Whether one of the members has the key.
pub open spec fn has_key(members: Seq<(Seq<char>, JsonModel)>, key: Seq<char>) -> bool {
    exists|i: int| 0 <= i < members.len() && (#[trigger] members[i]).0 == key
}

/// The members after `key` is set to `value`: a member with that key keeps
/// its place and gets the value; without one, the new member goes to the end.
pub open spec fn with_member(
    members: Seq<(Seq<char>, JsonModel)>,
    key: Seq<char>,
    value: JsonModel,
) -> Seq<(Seq<char>, JsonModel)> {
    if has_key(members, key) {
        let i = choose|i: int| 0 <= i < members.len() && (#[trigger] members[i]).0 == key;
        members.update(i, (key, value))
    } else {
        members.push((key, value))
    }
}

/// `JsonValue::new_object` of `json`: an object without members.
#[verifier::external_body]
pub(crate) fn new_object() -> (value: JsonValue)
    ensures
        json_model(&value) == JsonModel::Record(Seq::empty()),
{
    JsonValue::new_object()
}

/// `JsonValue::new_array` of `json`: an array without items.
#[verifier::external_body]
pub(crate) fn new_array() -> (value: JsonValue)
    ensures
        json_model(&value) == JsonModel::List(Seq::empty()),
{
    JsonValue::new_array()
}

/// `JsonValue::from` of `json`, on a string: the string as a JSON value.
#[verifier::external_body]
pub(crate) fn text_value(text: String) -> (value: JsonValue)
    ensures
        json_model(&value) == JsonModel::Text(text@),
{
    JsonValue::from(text)
}

/// `JsonValue::insert` of `json`: on an object, sets the key to the value and
/// succeeds; on any other value, fails and changes nothing.
#[verifier::external_body]
pub(crate) fn insert(object: &mut JsonValue, key: &str, value: JsonValue) -> (r: Result<
    (),
    json::Error,
>)
    ensures
        match json_model(old(object)) {
            JsonModel::Record(members) => r is Ok && json_model(final(object))
                == JsonModel::Record(with_member(members, key@, json_model(&value))),
            _ => r is Err && json_model(final(object)) == json_model(old(object)),
        },
{
    object.insert(key, value)
}

/// `JsonValue::push` of `json`: on an array, appends the value and succeeds;
/// on any other value, fails and changes nothing.
#[verifier::external_body]
pub(crate) fn push(array: &mut JsonValue, value: JsonValue) -> (r: Result<(), json::Error>)
    ensures
        match json_model(old(array)) {
            JsonModel::List(items) => r is Ok && json_model(final(array)) == JsonModel::List(
                items.push(json_model(&value)),
            ),
            _ => r is Err && json_model(final(array)) == json_model(old(array)),
        },
{
    array.push(value)
}

/// `JsonValue::dump` of `json`: the value printed as JSON, without white
/// space between its parts. The contract gives the text a name.
#[verifier::external_body]
pub(crate) fn dump(value: &JsonValue) -> (text: String)
    ensures
        text@ == json_text(json_model(value)),
{
    value.dump()
}

} // verus!
