//! JSON values, by the `serde_json` crate.

use vstd::prelude::*;

verus! {

/// A `serde_json::Value`, carried without being looked into.
#[verifier::external_type_specification]
#[verifier::external_body]
pub struct ExValue(serde_json::Value);

/// A `serde_json::Map`: the members of a JSON object.
#[verifier::external_type_specification]
#[verifier::external_body]
#[verifier::reject_recursive_types(K)]
#[verifier::reject_recursive_types(V)]
pub struct ExMap<K, V>(serde_json::Map<K, V>);

/// A JSON value as a mathematical tree. Null and the numbers that are no unsigned
/// 64-bit integers are not told apart.
pub enum Json {
    Text(Seq<char>),
    Unsigned(u64),
    Bool(bool),
    List(Seq<Json>),
    Object(Map<Seq<char>, Json>),
    Other,
}

/// What a `serde_json::Value` holds.
pub uninterp spec fn json(value: serde_json::Value) -> Json;

/// The members that a `serde_json::Map` holds.
pub uninterp spec fn members(map: serde_json::Map<String, serde_json::Value>) -> Map<
    Seq<char>,
    Json,
>;

/// The member of an object under a key, if it is a text.
pub open spec fn text_member(value: Json, key: Seq<char>) -> Option<Seq<char>> {
    match value {
        Json::Object(members) => if members.contains_key(key) {
            match members[key] {
                Json::Text(text) => Some(text),
                _ => None,
            }
        } else {
            None
        },
        _ => None,
    }
}

/// `Value::get` with a string index: the member under that key, if the value is an
/// object and has one.
#[verifier::external_body]
pub(crate) fn get<'a>(value: &'a serde_json::Value, key: &str) -> (member: Option<
    &'a serde_json::Value,
>)
    ensures
        match member {
            Some(member) => {
                &&& json(*value) is Object
                &&& json(*value)->Object_0.contains_key(key@)
                &&& json(*member) == json(*value)->Object_0[key@]
            },
            None => json(*value) is Object ==> !json(*value)->Object_0.contains_key(key@),
        },
{
    value.get(key)
}

/// `Value::as_str`: the text of a JSON string, and nothing for any other value.
#[verifier::external_body]
pub(crate) fn as_str<'a>(value: &'a serde_json::Value) -> (text: Option<&'a str>)
    ensures
        match text {
            Some(text) => json(*value) == Json::Text(text@),
            None => !(json(*value) is Text),
        },
{
    value.as_str()
}

/// `Value::from` on a text: a JSON string.
#[verifier::external_body]
pub(crate) fn from_text(text: &str) -> (value: serde_json::Value)
    ensures
        json(value) == Json::Text(text@),
{
    serde_json::Value::from(text)
}

/// `Value::from` on an unsigned integer: a JSON number.
#[verifier::external_body]
pub(crate) fn from_unsigned(n: u64) -> (value: serde_json::Value)
    ensures
        json(value) == Json::Unsigned(n),
{
    serde_json::Value::from(n)
}

/// `Value::from` on a truth value.
#[verifier::external_body]
pub(crate) fn from_bool(b: bool) -> (value: serde_json::Value)
    ensures
        json(value) == Json::Bool(b),
{
    serde_json::Value::from(b)
}

/// `Value::Array`: a JSON array of the given values, in their order.
#[verifier::external_body]
pub(crate) fn from_list(items: Vec<serde_json::Value>) -> (value: serde_json::Value)
    ensures
        json(value) == Json::List(items@.map_values(|item: serde_json::Value| json(item))),
{
    serde_json::Value::Array(items)
}

/// `Value::Object`: a JSON object with the given members.
#[verifier::external_body]
pub(crate) fn from_members(map: serde_json::Map<String, serde_json::Value>) -> (value:
    serde_json::Value)
    ensures
        json(value) == Json::Object(members(map)),
{
    serde_json::Value::Object(map)
}

/// `Map::new`: no members.
#[verifier::external_body]
pub(crate) fn no_members() -> (map: serde_json::Map<String, serde_json::Value>)
    ensures
        (members(map) == Map::<Seq<char>, Json>::empty()),
{
    serde_json::Map::new()
}

/// `Map::insert`: sets one member and leaves the others as they are.
#[verifier::external_body]
pub(crate) fn insert(
    map: &mut serde_json::Map<String, serde_json::Value>,
    key: &str,
    value: serde_json::Value,
)
    ensures
        members(*final(map)) == members(*old(map)).insert(key@, json(value)),
{
    map.insert(key.to_owned(), value);
}

/// The member of an object under a key, if it is a text.
pub fn text_of_member<'a>(value: &'a serde_json::Value, key: &str) -> (text: Option<&'a str>)
    ensures
        match text {
            Some(text) => text_member(json(*value), key@) == Some(text@),
            None => text_member(json(*value), key@) is None,
        },
{
    match get(value, key) {
        Some(member) => as_str(member),
        None => None,
    }
}

/// An object has a text under a key exactly if its member under that key is that
/// text, and nothing but an object has one.
pub proof fn law_text_member_is_the_member(value: Json, key: Seq<char>, text: Seq<char>)
    ensures
        text_member(value, key) == Some(text) <==> (value matches Json::Object(members)
            && members.contains_key(key) && members[key] == Json::Text(text)),
{
}


} // verus!
