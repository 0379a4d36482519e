//! JSON values and objects of `serde_json`: what they hold, and the operations on them
//! that notifications need.
use crate::json_layout::{is_layout_text, json_written};
use crate::text::{hex_text, trim, trimmed, views};
use serde_json::Value;
use vstd::prelude::*;

verus! {

/// The contents of a JSON value.
pub enum Json {
    Null,
    Bool(bool),
    /// A number that is an integer.
    Int(int),
    /// Any other number.
    Real,
    Text(Seq<char>),
    Array(Seq<Json>),
    Object(Map<Seq<char>, Json>),
}

/// A JSON value.
#[verifier::external_type_specification]
#[verifier::external_body]
pub struct ExValue(Value);

/// A JSON object: keys and their values.
#[verifier::external_type_specification]
#[verifier::external_body]
#[verifier::reject_recursive_types(K)]
#[verifier::reject_recursive_types(V)]
pub struct ExObject<K, V>(serde_json::Map<K, V>);

/// What a JSON value holds.
pub uninterp spec fn json_of(value: Value) -> Json;

/// What a JSON object holds.
pub uninterp spec fn entries_of(object: serde_json::Map<String, Value>) -> Map<Seq<char>, Json>;

/// An object without entries.
pub open spec fn no_entries() -> Map<Seq<char>, Json> {
    Map::empty()
}

/// The value under a key, where there is one.
pub open spec fn json_field(json: Json, key: Seq<char>) -> Option<Json> {
    match json {
        Json::Object(entries) => if entries.contains_key(key) {
            Some(entries[key])
        } else {
            None
        },
        _ => None,
    }
}

/// A value as a Boolean, where it is one.
pub open spec fn json_bool(json: Json) -> Option<bool> {
    match json {
        Json::Bool(b) => Some(b),
        _ => None,
    }
}

/// A value as a 64-bit integer, where it is one.
pub open spec fn json_i64(json: Json) -> Option<i64> {
    match json {
        Json::Int(n) => if i64::MIN <= n <= i64::MAX {
            Some(n as i64)
        } else {
            None
        },
        _ => None,
    }
}

/// A value as a text, where it is one.
pub open spec fn json_str(json: Json) -> Option<Seq<char>> {
    match json {
        Json::Text(text) => Some(text),
        _ => None,
    }
}

/// An object with one text under one key.
pub open spec fn one_text(key: Seq<char>, text: Seq<char>) -> Json {
    Json::Object(no_entries().insert(key, Json::Text(text)))
}

/// How a character is written inside a JSON string.
pub open spec fn quoted_char(c: char) -> Seq<char> {
    let code = c as u32;
    if c == '"' {
        seq!['\\', '"']
    } else if c == '\\' {
        seq!['\\', '\\']
    } else if code == 0x8 {
        seq!['\\', 'b']
    } else if code == 0x9 {
        seq!['\\', 't']
    } else if code == 0xA {
        seq!['\\', 'n']
    } else if code == 0xC {
        seq!['\\', 'f']
    } else if code == 0xD {
        seq!['\\', 'r']
    } else if code < 0x20 {
        seq!['\\', 'u'] + hex_text(code as nat, 4)
    } else {
        seq![c]
    }
}

/// The characters of a text as they are written inside a JSON string.
pub open spec fn quoted_chars(text: Seq<char>) -> Seq<char>
    decreases text.len(),
{
    if text.len() == 0 {
        seq![]
    } else {
        quoted_char(text[0]) + quoted_chars(text.skip(1))
    }
}

/// A text as a JSON string.
pub open spec fn quoted(text: Seq<char>) -> Seq<char> {
    seq!['"'] + quoted_chars(text) + seq!['"']
}

/// What `serde_json` reads from a text: nothing where the text is not JSON.
pub uninterp spec fn parsed_json(text: Seq<char>) -> Option<Json>;

/// The reading of a text, given what `serde_json` makes of it: a JSON text of objects and
/// strings is read as the value that it writes.
pub open spec fn json_reading(text: Seq<char>, json: Option<Json>) -> Option<Json> {
    if is_layout_text(text) {
        Some(json_written(text))
    } else {
        json
    }
}

/// The reading of a text as JSON.
pub open spec fn read_json(text: Seq<char>) -> Option<Json> {
    json_reading(text, parsed_json(text))
}

/// `serde_json::from_str` into a `Value`: whether the text is JSON, and what value it
/// writes, the text alone decides. Stated is the value of a text that writes objects and
/// strings, objects with members, no more than 127 inside each other, and strings in which
/// quotes, backslashes and control characters are escaped, as `serde_json` writes them. Which
/// way it fails is not told apart.
#[verifier::external_body]
pub(crate) fn parse_json(text: &str) -> (result: Option<Value>)
    ensures
        (match result {
            Some(value) => Some(json_of(value)),
            None => None,
        }) == json_reading(text@, parsed_json(text@)),
{
    serde_json::from_str::<Value>(text).ok()
}

/// `Value::get` with a text: the value under the key of an object, and nothing of any
/// other value.
#[verifier::external_body]
pub(crate) fn get<'a>(value: &'a Value, key: &str) -> (result: Option<&'a Value>)
    ensures
        (match result {
            Some(field) => Some(json_of(*field)),
            None => None,
        }) == json_field(json_of(*value), key@),
{
    value.get(key)
}

/// `Value::as_bool`: the Boolean that the value is.
#[verifier::external_body]
pub(crate) fn as_bool(value: &Value) -> (result: Option<bool>)
    ensures
        result == json_bool(json_of(*value)),
{
    value.as_bool()
}

/// `Value::as_i64`: the integer that the value is, where 64 bits with a sign hold it.
#[verifier::external_body]
pub(crate) fn as_i64(value: &Value) -> (result: Option<i64>)
    ensures
        result == json_i64(json_of(*value)),
{
    value.as_i64()
}

/// `Value::as_str`: the text that the value is.
#[verifier::external_body]
pub(crate) fn as_str(value: &Value) -> (result: Option<&str>)
    ensures
        (match result {
            Some(text) => Some(text@),
            None => None,
        }) == json_str(json_of(*value)),
{
    value.as_str()
}

/// `Value::clone`: a value that holds the same.
#[verifier::external_body]
pub(crate) fn copy(value: &Value) -> (result: Value)
    ensures
        json_of(result) == json_of(*value),
{
    value.clone()
}

/// `Value::to_string`: compact JSON. Stated is the text of an object with one text in
/// it, which has no spaces, and the control characters, quotes and backslashes of its
/// key and text escaped; the texts of other values are left unsaid.
#[verifier::external_body]
pub(crate) fn json_to_string(value: &Value) -> (result: String)
    ensures
        forall|key: Seq<char>, text: Seq<char>|
            json_of(*value) == #[trigger] one_text(key, text) ==> result@ == seq!['{'] + quoted(key)
                + seq![':'] + quoted(text) + seq!['}'],
{
    value.to_string()
}

/// `Value::from` a `&str`: a JSON string.
#[verifier::external_body]
pub(crate) fn text_value(text: &str) -> (value: Value)
    ensures
        json_of(value) == Json::Text(text@),
{
    Value::from(text)
}

/// `Value::from` a `bool`: a JSON Boolean.
#[verifier::external_body]
pub(crate) fn bool_value(b: bool) -> (value: Value)
    ensures
        json_of(value) == Json::Bool(b),
{
    Value::from(b)
}

/// `Value::from` an `i64`: a JSON number.
#[verifier::external_body]
pub(crate) fn int_value(n: i64) -> (value: Value)
    ensures
        json_of(value) == Json::Int(n as int),
{
    Value::from(n)
}

/// The JSON strings of some texts.
pub open spec fn text_items(texts: Seq<Seq<char>>) -> Seq<Json> {
    texts.map_values(|text: Seq<char>| Json::Text(text))
}

/// `Value::from` a `Vec<String>`: a JSON array of strings.
#[verifier::external_body]
pub(crate) fn texts_value(texts: Vec<String>) -> (value: Value)
    ensures
        json_of(value) == Json::Array(text_items(views(texts@))),
{
    Value::from(texts)
}

/// `Value::from` a `Map`: a JSON object.
#[verifier::external_body]
pub(crate) fn object_value(object: serde_json::Map<String, Value>) -> (value: Value)
    ensures
        json_of(value) == Json::Object(entries_of(object)),
{
    Value::from(object)
}

/// `Map::new`: an object without entries.
#[verifier::external_body]
pub(crate) fn new_object() -> (object: serde_json::Map<String, Value>)
    ensures
        entries_of(object) == no_entries(),
{
    serde_json::Map::new()
}

/// `Map::insert`: the key has the value afterwards, and the other keys keep theirs. The
/// value that the key had is not handed on.
#[verifier::external_body]
pub(crate) fn insert(object: &mut serde_json::Map<String, Value>, key: &str, value: Value)
    ensures
        entries_of(*final(object)) == entries_of(*old(object)).insert(key@, json_of(value)),
{
    object.insert(key.to_string(), value);
}

/// The entries after a text is put under a key, unless the text is blank.
pub open spec fn with_non_empty(
    entries: Map<Seq<char>, Json>,
    key: Seq<char>,
    text: Seq<char>,
) -> Map<Seq<char>, Json> {
    if trimmed(text).len() == 0 {
        entries
    } else {
        entries.insert(key, Json::Text(trimmed(text)))
    }
}

/// Puts a trimmed text under a key, unless nothing is left of it.
pub fn insert_non_empty(payload: &mut serde_json::Map<String, Value>, key: &str, value: &str)
    ensures
        entries_of(*final(payload)) == with_non_empty(entries_of(*old(payload)), key@, value@),
{
    let value = trim(value);
    if !value.is_empty() {
        insert(payload, key, text_value(value));
    }
}

/// An object with one text under one key.
pub fn one_text_object(key: &str, text: &str) -> (value: Value)
    ensures
        json_of(value) == one_text(key@, text@),
{
    let mut object = new_object();
    insert(&mut object, key, text_value(text));
    object_value(object)
}

} // verus!
