//! JSON documents, as the `serde_json` crate holds them, and their TOML and JSON text.

use serde_json::Value;
use vstd::prelude::*;

verus! {

/// What a JSON document says. A number is an integer, or else a float, given by its bits.
pub enum Json {
    Null,
    Bool(bool),
    Int(int),
    Float(u64),
    Text(Seq<char>),
    Array(Seq<Json>),
    Object(Map<Seq<char>, Json>),
}

/// `serde_json::Value`: a JSON document.
#[verifier::external_type_specification]
#[verifier::external_body]
pub struct ExValue(serde_json::Value);

/// `serde_json::Map`: the members of a JSON object.
#[verifier::external_type_specification]
#[verifier::external_body]
#[verifier::reject_recursive_types(K)]
#[verifier::reject_recursive_types(V)]
pub struct ExMap<K, V>(serde_json::Map<K, V>);

/// What a document holds.
pub uninterp spec fn json_of(value: Value) -> Json;

/// What the members of an object hold.
pub uninterp spec fn members_of(members: serde_json::Map<String, Value>) -> Map<Seq<char>, Json>;

/// The compact JSON text of a document, with the members of an object in the order of their names.
pub uninterp spec fn json_text(json: Json) -> Seq<char>;

/// What a TOML text says, as a JSON document, or why it is not TOML.
pub uninterp spec fn toml_parsed(text: Seq<char>) -> Result<Json, Seq<char>>;

/// A document as TOML text, or why it cannot be written so.
pub uninterp spec fn toml_rendered(json: Json) -> Result<Seq<char>, Seq<char>>;

/// `Map::new`: no members.
pub assume_specification[ serde_json::Map::<String, Value>::new ]() -> (members: serde_json::Map<
    String,
    Value,
>)
    ensures
        members_of(members) == (Map::<Seq<char>, Json>::empty()),
;

/// `Map::insert`: the member of that name is now this one; what it was before is returned.
pub assume_specification[ serde_json::Map::<String, Value>::insert ](
    members: &mut serde_json::Map<String, Value>,
    k: String,
    v: Value,
) -> (before: Option<Value>)
    ensures
        members_of(*final(members)) == members_of(*old(members)).insert(k@, json_of(v)),
        match before {
            Some(value) => {
                &&& members_of(*old(members)).contains_key(k@)
                &&& members_of(*old(members))[k@] == json_of(value)
            },
            None => !members_of(*old(members)).contains_key(k@),
        },
;

/// `Map::remove`: there is no member of that name any more.
#[verifier::external_body]
pub(crate) fn remove_member(members: &mut serde_json::Map<String, Value>, name: &str)
    ensures
        members_of(*final(members)) == members_of(*old(members)).remove(name@),
{
    members.remove(name);
}

/// `Value::as_object_mut`: the members of an object, to be changed in place; nothing for any other
/// document, which stays what it is.
pub assume_specification[ Value::as_object_mut ](value: &mut Value) -> (members: Option<
    &mut serde_json::Map<String, Value>,
>)
    ensures
        match members {
            Some(members) => {
                &&& json_of(*old(value)) == Json::Object(members_of(*members))
                &&& json_of(*final(value)) == Json::Object(members_of(*final(members)))
            },
            None => {
                &&& !(json_of(*old(value)) is Object)
                &&& *final(value) == *old(value)
            },
        },
;

/// `Value::Object`: an object with these members.
#[verifier::external_body]
pub(crate) fn object(members: serde_json::Map<String, Value>) -> (value: Value)
    ensures
        json_of(value) == Json::Object(members_of(members)),
{
    Value::Object(members)
}

/// `Value::Array` of no items.
#[verifier::external_body]
pub(crate) fn empty_array() -> (value: Value)
    ensures
        json_of(value) == Json::Array(Seq::empty()),
{
    Value::Array(Vec::new())
}

/// `Value::from` a string slice.
#[verifier::external_body]
pub(crate) fn text(s: &str) -> (value: Value)
    ensures
        json_of(value) == Json::Text(s@),
{
    Value::from(s)
}

/// `Value::from` a truth value.
#[verifier::external_body]
pub(crate) fn truth(b: bool) -> (value: Value)
    ensures
        json_of(value) == Json::Bool(b),
{
    Value::from(b)
}

/// `Value::from` an unsigned number.
#[verifier::external_body]
pub(crate) fn unsigned(n: u64) -> (value: Value)
    ensures
        json_of(value) == Json::Int(n as int),
{
    Value::from(n)
}

/// `Value::from` a signed number.
#[verifier::external_body]
pub(crate) fn signed(n: i32) -> (value: Value)
    ensures
        json_of(value) == Json::Int(n as int),
{
    Value::from(n)
}

/// `Value::to_string`: the compact JSON text is a function of what the document holds.
#[verifier::external_body]
pub(crate) fn to_json_text(value: &Value) -> (text: String)
    ensures
        text@ == json_text(json_of(*value)),
{
    value.to_string()
}

/// `toml::from_str`: the document, or the text of the error, is a function of the text.
#[verifier::external_body]
pub(crate) fn parse_toml(text: &str) -> (parsed: Result<Value, String>)
    ensures
        match parsed {
            Ok(value) => toml_parsed(text@) == Ok::<Json, Seq<char>>(json_of(value)),
            Err(e) => toml_parsed(text@) == Err::<Json, Seq<char>>(e@),
        },
{
    match toml::from_str::<Value>(text) {
        Ok(value) => Ok(value),
        Err(e) => Err(e.to_string()),
    }
}

/// `toml::to_string_pretty`: the TOML text, or the text of the error, is a function of what the
/// document holds.
///
/// It is not said that the text reads back as the document: the parser gives up on arrays that are
/// nested too deep, and the writer does not.
#[verifier::external_body]
pub(crate) fn render_toml(value: &Value) -> (rendered: Result<String, String>)
    ensures
        match rendered {
            Ok(text) => toml_rendered(json_of(*value)) == Ok::<Seq<char>, Seq<char>>(text@),
            Err(e) => toml_rendered(json_of(*value)) == Err::<Seq<char>, Seq<char>>(e@),
        },
{
    match toml::to_string_pretty(value) {
        Ok(text) => Ok(text),
        Err(e) => Err(e.to_string()),
    }
}

} // verus!
