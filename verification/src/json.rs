//! JSON values, as `serde_json` holds and parses them.
//!
//! `serde_json::Value` and `serde_json::Map` are opaque here. What they hold is named by
//! [`json_model`] and [`json_members`], and the accessors that the library calls are
//! described over those names. These descriptions are believed, not proved.

use vstd::prelude::*;

verus! {

/// What a JSON value holds.
pub enum JsonModel {
    Null,
    Bool(bool),
    /// A number, with its value where that is a `u64`.
    Number(Option<u64>),
    Text(Seq<char>),
    Array(Seq<JsonModel>),
    Object(Map<Seq<char>, JsonModel>),
}

impl JsonModel {
    /// The text that a value is, if it is one.
    pub open spec fn text(self) -> Option<Seq<char>> {
        match self {
            JsonModel::Text(text) => Some(text),
            _ => None,
        }
    }

    /// The `u64` that a value is, if it is one.
    pub open spec fn number(self) -> Option<u64> {
        match self {
            JsonModel::Number(number) => number,
            _ => None,
        }
    }

    /// The items of an array; none for any other value.
    pub open spec fn items(self) -> Seq<JsonModel> {
        match self {
            JsonModel::Array(items) => items,
            _ => Seq::empty(),
        }
    }

    /// The member `key` of an object; null where there is no such member or no object.
    pub open spec fn member(self, key: Seq<char>) -> JsonModel {
        match self {
            JsonModel::Object(members) if members.contains_key(key) => members[key],
            _ => JsonModel::Null,
        }
    }
}

/// `serde_json::Value`, an opaque JSON value.
#[verifier::external_type_specification]
#[verifier::external_body]
pub struct ExValue(serde_json::Value);

/// `serde_json::Map`, the opaque members of a JSON object.
#[verifier::external_type_specification]
#[verifier::external_body]
#[verifier::reject_recursive_types(K)]
#[verifier::reject_recursive_types(V)]
pub struct ExMap<K, V>(serde_json::Map<K, V>);

/// What a `serde_json::Value` holds.
pub uninterp spec fn json_model(value: serde_json::Value) -> JsonModel;

/// What a `serde_json::Map` holds, by key.
pub uninterp spec fn json_members(
    members: serde_json::Map<String, serde_json::Value>,
) -> Map<Seq<char>, JsonModel>;

/// What `serde_json::from_str` makes of a text: the value that it denotes, or the message
/// that the error displays.
pub uninterp spec fn parsed_json(text: Seq<char>) -> Result<JsonModel, Seq<char>>;

/// `serde_json::Value::as_str`: the text that the value is, if it is one.
pub assume_specification[ serde_json::Value::as_str ](value: &serde_json::Value) -> (text: Option<
    &str,
>)
    ensures
        match text {
            Some(text) => json_model(*value).text() == Some(text@),
            None => json_model(*value).text() is None,
        },
;

/// `serde_json::Value::as_u64`: the `u64` that the value is, if it is one.
pub assume_specification[ serde_json::Value::as_u64 ](value: &serde_json::Value) -> (number: Option<
    u64,
>)
    ensures
        number == json_model(*value).number(),
;

/// `serde_json::Value::as_array`: the items of the value, in order, if it is an array.
pub assume_specification[ serde_json::Value::as_array ](value: &serde_json::Value) -> (items:
    Option<&Vec<serde_json::Value>>)
    ensures
        match items {
            Some(items) => json_model(*value) == JsonModel::Array(
                items@.map_values(|item: serde_json::Value| json_model(item)),
            ),
            None => !(json_model(*value) is Array),
        },
;

/// Indexing of a `serde_json::Value` by a key: the member of that name, and null where the
/// value has none or is no object.
#[verifier::external_body]
pub(crate) fn member<'a>(value: &'a serde_json::Value, key: &str) -> (found: &'a serde_json::Value)
    ensures
        json_model(*found) == json_model(*value).member(key@),
{
    &value[key]
}

/// `serde_json::Map::get`: the value under `key`, if there is one.
#[verifier::external_body]
pub(crate) fn lookup<'a>(
    members: &'a serde_json::Map<String, serde_json::Value>,
    key: &str,
) -> (found: Option<&'a serde_json::Value>)
    ensures
        match found {
            Some(value) => json_members(*members).contains_key(key@) && json_model(*value)
                == json_members(*members)[key@],
            None => !json_members(*members).contains_key(key@),
        },
{
    members.get(key)
}

/// `serde_json::from_str` for a value: what it makes of a text depends on the text alone. An
/// error is handed on as the message that it displays.
#[verifier::external_body]
pub(crate) fn parse(text: &str) -> (outcome: Result<serde_json::Value, String>)
    ensures
        match outcome {
            Ok(value) => parsed_json(text@) == Ok::<JsonModel, Seq<char>>(json_model(value)),
            Err(message) => parsed_json(text@) == Err::<JsonModel, Seq<char>>(message@),
        },
{
    serde_json::from_str(text).map_err(|error| error.to_string())
}

/// The text under `key` in a set of members, if there is one.
pub open spec fn text_under(members: Map<Seq<char>, JsonModel>, key: Seq<char>) -> Option<
    Seq<char>,
> {
    if members.contains_key(key) {
        members[key].text()
    } else {
        None
    }
}

/// The `u64` under `key` in a set of members, if there is one.
pub open spec fn number_under(members: Map<Seq<char>, JsonModel>, key: Seq<char>) -> Option<u64> {
    if members.contains_key(key) {
        members[key].number()
    } else {
        None
    }
}

/// A copy of the text that `value` is, if it is one.
pub fn text_of(value: &serde_json::Value) -> (text: Option<String>)
    ensures
        crate::text::opt_text(text) == json_model(*value).text(),
{
    match value.as_str() {
        Some(text) => Some(text.to_owned()),
        None => None,
    }
}

/// A copy of the text under `key`, if there is one.
pub fn text_at(
    members: &serde_json::Map<String, serde_json::Value>,
    key: &str,
) -> (text: Option<String>)
    ensures
        crate::text::opt_text(text) == text_under(json_members(*members), key@),
{
    match lookup(members, key) {
        Some(value) => text_of(value),
        None => None,
    }
}

/// The `u64` under `key`, if there is one.
pub fn number_at(
    members: &serde_json::Map<String, serde_json::Value>,
    key: &str,
) -> (number: Option<u64>)
    ensures
        number == number_under(json_members(*members), key@),
{
    match lookup(members, key) {
        Some(value) => value.as_u64(),
        None => None,
    }
}

} // verus!
