//! JSON values as `serde_json` holds them, and what this library relies on
//! when it builds and prints one.
//!
//! The executable functions of this file are not proved. Each of them makes
//! one call into `serde_json`, and its contract says what that crate's source
//! and documentation show of the call.

use vstd::prelude::*;

verus! {

/// `serde_json::Value`, carried through without looking inside.
#[verifier::external_type_specification]
#[verifier::external_body]
pub struct ExValue(serde_json::Value);

/// `serde_json::Map`, carried through without looking inside.
#[verifier::external_type_specification]
#[verifier::external_body]
#[verifier::reject_recursive_types(K)]
#[verifier::reject_recursive_types(V)]
pub struct ExMap<K, V>(serde_json::Map<K, V>);

/// A JSON value as far as this library tells values apart: a string, an
/// object with its members by key, or anything else.
pub enum Json {
    Text(Seq<char>),
    Object(Map<Seq<char>, Json>),
    Other,
}

/// The value that a `serde_json::Value` holds.
pub uninterp spec fn json_of(value: serde_json::Value) -> Json;

/// The members that a `serde_json::Map` holds, each under its key.
pub uninterp spec fn members_of(map: serde_json::Map<String, serde_json::Value>) -> Map<
    Seq<char>,
    Json,
>;

/// The compact text that `serde_json` writes for a value.
pub uninterp spec fn json_text(json: Json) -> Seq<char>;

/// An object without members.
pub open spec fn no_members() -> Map<Seq<char>, Json> {
    Map::empty()
}

/// `members` with one more member, if there is one to add.
pub open spec fn with_member(members: Map<Seq<char>, Json>, key: Seq<char>, value: Option<Json>) -> Map<
    Seq<char>,
    Json,
> {
    match value {
        Some(json) => members.insert(key, json),
        None => members,
    }
}

/// Holds of a value that is made of strings and objects alone.
pub open spec fn is_plain(json: Json) -> bool
    decreases json,
{
    match json {
        Json::Text(_) => true,
        Json::Object(members) => forall|key: Seq<char>|
            members.dom().contains(key) ==> is_plain(#[trigger] members[key]),
        Json::Other => false,
    }
}

/// `serde_json::Map::new`: the new map has no members.
#[verifier::external_body]
pub(crate) fn new_members() -> (made: serde_json::Map<String, serde_json::Value>)
    ensures
        members_of(made) == no_members(),
{
    serde_json::Map::new()
}

/// `serde_json::Map::insert`: afterwards the map holds `value` under `key`,
/// in place of what it held there before, and its other members as they were.
#[verifier::external_body]
pub(crate) fn insert_member(
    map: &mut serde_json::Map<String, serde_json::Value>,
    key: String,
    value: serde_json::Value,
)
    ensures
        members_of(*final(map)) == members_of(*old(map)).insert(key@, json_of(value)),
{
    map.insert(key, value);
}

/// `serde_json::Value::String`: a value that is the given string.
#[verifier::external_body]
pub(crate) fn text_value(text: String) -> (value: serde_json::Value)
    ensures
        json_of(value) == Json::Text(text@),
{
    serde_json::Value::String(text)
}

/// `serde_json::Value::Object`: a value that is an object with the map's
/// members.
#[verifier::external_body]
pub(crate) fn object_value(map: serde_json::Map<String, serde_json::Value>) -> (value:
    serde_json::Value)
    ensures
        json_of(value) == Json::Object(members_of(map)),
{
    serde_json::Value::Object(map)
}

/// `serde_json::Value::is_object`: whether the value is an object.
#[verifier::external_body]
pub(crate) fn is_object(value: &serde_json::Value) -> (yes: bool)
    ensures
        yes == (json_of(*value) is Object),
{
    value.is_object()
}

/// `serde_json::Value::as_object_mut`: for an object, its map of members,
/// which the object holds again once the borrow ends; for any other value,
/// nothing, and the value stays as it is.
#[verifier::external_body]
pub(crate) fn as_object_mut(value: &mut serde_json::Value) -> (found: Option<
    &mut serde_json::Map<String, serde_json::Value>,
>)
    ensures
        match json_of(*old(value)) {
            Json::Object(members) => found is Some && members_of(*found.unwrap()) == members
                && json_of(*final(value)) == Json::Object(members_of(*final(found.unwrap()))),
            _ => found is None && *final(value) == *old(value),
        },
{
    value.as_object_mut()
}

/// `to_string` on a `serde_json::Value`, which writes it through its
/// `Display`: the compact JSON text of the value. Asked only of values made
/// of strings and objects, for which that text depends on nothing but the
/// strings, the keys and the members under them.
#[verifier::external_body]
pub(crate) fn to_text(value: &serde_json::Value) -> (text: String)
    requires
        is_plain(json_of(*value)),
    ensures
        text@ == json_text(json_of(*value)),
{
    value.to_string()
}

} // verus!
