//! JSON through `serde_json`, with a value standing for itself as its JSON text.
use crate::text::{opt_view, views};
use vstd::prelude::*;

verus! {

/// The JSON text of the member `key` of the object that `text` spells.
pub uninterp spec fn json_member(text: Seq<char>, key: Seq<char>) -> Option<Seq<char>>;

/// The JSON text of the element `index` of the array that `text` spells.
pub uninterp spec fn json_element(text: Seq<char>, index: usize) -> Option<Seq<char>>;

/// The string that `text` spells.
pub uninterp spec fn json_string(text: Seq<char>) -> Option<Seq<char>>;

/// The unsigned integer that `text` spells.
pub uninterp spec fn json_unsigned(text: Seq<char>) -> Option<u64>;

/// The boolean that `text` spells.
pub uninterp spec fn json_boolean(text: Seq<char>) -> Option<bool>;

/// The JSON text of the string `s`.
pub uninterp spec fn json_quoted(s: Seq<char>) -> Seq<char>;

/// The JSON text of an array, from the JSON texts of its elements.
pub uninterp spec fn json_array(items: Seq<Seq<char>>) -> Seq<char>;

/// The JSON text of an object, from the keys and JSON texts of its members.
pub uninterp spec fn json_object(members: Seq<(Seq<char>, Seq<char>)>) -> Seq<char>;

/// The keys and texts of a list of members.
pub open spec fn member_views(v: Seq<(String, String)>) -> Seq<(Seq<char>, Seq<char>)> {
    v.map_values(|m: (String, String)| (m.0@, m.1@))
}

/// `serde_json::Value::get` with a string: the member `key` of the object that `text` spells, as
/// compact JSON text; nothing where `text` is no JSON, is no object or has no such member. The
/// contract says that the outcome is a function of the text and the key.
#[verifier::external_body]
pub(crate) fn member(text: &str, key: &str) -> (r: Option<String>)
    ensures
        opt_view(r) == json_member(text@, key@),
{
    serde_json::from_str::<serde_json::Value>(text).ok()?.get(key).map(|v| v.to_string())
}

/// `serde_json::Value::get` with an index: the element `index` of the array that `text` spells,
/// as compact JSON text; nothing where `text` is no JSON, is no array or is too short. The
/// contract says that the outcome is a function of the text and the index.
#[verifier::external_body]
pub(crate) fn element(text: &str, index: usize) -> (r: Option<String>)
    ensures
        opt_view(r) == json_element(text@, index),
{
    serde_json::from_str::<serde_json::Value>(text).ok()?.get(index).map(|v| v.to_string())
}

/// `serde_json::Value::as_str`: the string that `text` spells, or nothing where it spells no
/// string. The contract says that the outcome is a function of the text.
#[verifier::external_body]
pub(crate) fn string(text: &str) -> (r: Option<String>)
    ensures
        opt_view(r) == json_string(text@),
{
    serde_json::from_str::<serde_json::Value>(text).ok()?.as_str().map(String::from)
}

/// `serde_json::Value::as_u64`: the integer that `text` spells, or nothing where it spells none
/// that fits. The contract says that the outcome is a function of the text.
#[verifier::external_body]
pub(crate) fn unsigned(text: &str) -> (r: Option<u64>)
    ensures
        r == json_unsigned(text@),
{
    serde_json::from_str::<serde_json::Value>(text).ok()?.as_u64()
}

/// `serde_json::Value::as_bool`: the boolean that `text` spells, or nothing where it spells none.
/// The contract says that the outcome is a function of the text.
#[verifier::external_body]
pub(crate) fn boolean(text: &str) -> (r: Option<bool>)
    ensures
        r == json_boolean(text@),
{
    serde_json::from_str::<serde_json::Value>(text).ok()?.as_bool()
}

/// `serde_json::Value::from` a string, displayed: the string as a JSON literal. The contract says
/// that the literal is a function of the string, and that reading it gives the string back.
#[verifier::external_body]
pub(crate) fn quote(s: &str) -> (r: String)
    ensures
        r@ == json_quoted(s@),
        json_string(r@) == Some(s@),
{
    serde_json::Value::from(s).to_string()
}

/// `serde_json::Value::Array`, displayed: a compact JSON array of the items, each given by its
/// JSON text (a text that is no JSON stands for null). The contract says that the result is a
/// function of the items.
#[verifier::external_body]
pub(crate) fn array(items: &Vec<String>) -> (r: String)
    ensures
        r@ == json_array(views(items@)),
{
    let values = items.iter().map(|t| serde_json::from_str(t).unwrap_or_default()).collect();
    serde_json::Value::Array(values).to_string()
}

/// `serde_json::Value::Object`, displayed: a compact JSON object of the members, each given by
/// its key and its JSON text (a text that is no JSON stands for null). The contract says that the
/// result is a function of the members.
#[verifier::external_body]
pub(crate) fn object(members: &Vec<(String, String)>) -> (r: String)
    ensures
        r@ == json_object(member_views(members@)),
{
    let value = |t: &String| serde_json::from_str(t).unwrap_or_default();
    let map = members.iter().map(|(k, t)| (k.clone(), value(t))).collect();
    serde_json::Value::Object(map).to_string()
}

/// The string at a path of members, where each step finds one.
pub open spec fn string_member(text: Seq<char>, key: Seq<char>) -> Option<Seq<char>> {
    match json_member(text, key) {
        Some(t) => json_string(t),
        None => None,
    }
}

/// The string in the member `key` of an object.
pub(crate) fn member_string(text: &str, key: &str) -> (r: Option<String>)
    ensures
        opt_view(r) == string_member(text@, key@),
{
    match member(text, key) {
        Some(t) => string(t.as_str()),
        None => None,
    }
}

/// The string in the member `key` of an object, or no text at all.
pub open spec fn string_or_empty(text: Seq<char>, key: Seq<char>) -> Seq<char> {
    match string_member(text, key) {
        Some(s) => s,
        None => Seq::empty(),
    }
}

pub(crate) fn member_string_or_empty(text: &str, key: &str) -> (r: String)
    ensures
        r@ == string_or_empty(text@, key@),
{
    match member_string(text, key) {
        Some(s) => s,
        None => String::new(),
    }
}

pub open spec fn bool_text(b: bool) -> Seq<char> {
    if b {
        "true"@
    } else {
        "false"@
    }
}

/// The JSON text of a boolean.
pub(crate) fn bool_json(b: bool) -> (r: String)
    ensures
        r@ == bool_text(b),
{
    if b {
        "true".to_owned()
    } else {
        "false".to_owned()
    }
}

} // verus!
