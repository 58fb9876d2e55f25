//! JSON values as the model servers send them, read with serde_json, and
//! the reads of their fields.

use vstd::prelude::*;
use serde_json::Value;
use crate::text::{owned, same_text};

verus! {

#[verifier::external_type_specification]
#[verifier::external_body]
pub struct ExJsonValue(Value);

/// A JSON value. A number is kept as its value as an unsigned integer,
/// where it is one; an object as its entries in the order serde_json keeps
/// them.
#[derive(Debug)]
pub enum Json {
    Null,
    Bool(bool),
    Number(Option<u64>),
    Str(String),
    Array(Vec<Json>),
    Object(Vec<(String, Json)>),
}

/// The value `serde_json::from_str` reads from `text` into a `Value`, taken
/// as a `Json`; nothing when the text is not JSON. It depends on the text
/// alone.
pub uninterp spec fn json_of(text: Seq<char>) -> Option<Json>;

/// Reads `text` with `serde_json::from_str` and takes the `Value` as a
/// `Json`.
#[verifier::external_body]
pub(crate) fn parse_json(text: &str) -> (r: Option<Json>)
    ensures
        r == json_of(text@),
{
    serde_json::from_str::<Value>(text).ok().map(|v| json_value(&v))
}

/// A `Value` taken as a `Json`, variant for variant, for `parse_json`: a
/// number by `Number::as_u64`.
#[verifier::external_body]
fn json_value(v: &Value) -> Json {
    match v {
        Value::Null => Json::Null,
        Value::Bool(b) => Json::Bool(*b),
        Value::Number(n) => Json::Number(n.as_u64()),
        Value::String(s) => Json::Str(s.clone()),
        Value::Array(a) => Json::Array(a.iter().map(json_value).collect()),
        Value::Object(m) => Json::Object(m.iter().map(|(k, x)| (k.clone(), json_value(x))).collect()),
    }
}

/// The value of the first entry with key `key` among `es` from the `k`th
/// on.
pub open spec fn entry_value(es: Seq<(String, Json)>, key: Seq<char>, k: int) -> Option<Json>
    decreases es.len() - k,
{
    if k < 0 || k >= es.len() {
        None
    } else if es[k].0@ == key {
        Some(es[k].1)
    } else {
        entry_value(es, key, k + 1)
    }
}

/// The value at `key` of an object (`Value::get` with a key); nothing for
/// other values.
pub open spec fn field(v: Option<Json>, key: Seq<char>) -> Option<Json> {
    match v {
        Some(Json::Object(es)) => entry_value(es@, key, 0),
        _ => None,
    }
}

/// The text of a string value (`Value::as_str`).
pub open spec fn str_of(v: Option<Json>) -> Option<Seq<char>> {
    match v {
        Some(Json::Str(s)) => Some(s@),
        _ => None,
    }
}

/// The flag of a boolean value (`Value::as_bool`).
pub open spec fn bool_of(v: Option<Json>) -> Option<bool> {
    match v {
        Some(Json::Bool(b)) => Some(b),
        _ => None,
    }
}

/// The value of a number that is an unsigned integer (`Value::as_u64`).
pub open spec fn u64_of(v: Option<Json>) -> Option<u64> {
    match v {
        Some(Json::Number(n)) => n,
        _ => None,
    }
}

/// The items of an array (`Value::as_array`).
pub open spec fn items_of(v: Option<Json>) -> Option<Seq<Json>> {
    match v {
        Some(Json::Array(a)) => Some(a@),
        _ => None,
    }
}

/// The value a reference points to, if any.
pub open spec fn json_opt(v: Option<&Json>) -> Option<Json> {
    match v {
        Some(j) => Some(*j),
        None => None,
    }
}

/// The value at `key` of an object.
pub fn get_field<'a>(v: Option<&'a Json>, key: &str) -> (r: Option<&'a Json>)
    ensures
        match r {
            Some(x) => field(json_opt(v), key@) == Some(*x),
            None => field(json_opt(v), key@) is None,
        },
{
    let es = match v {
        Some(Json::Object(es)) => es,
        _ => return None,
    };
    let mut k: usize = 0;
    while k < es.len()
        invariant
            k <= es@.len(),
            v == Some(&Json::Object(*es)),
            entry_value(es@, key@, 0) == entry_value(es@, key@, k as int),
        decreases es@.len() - k,
    {
        if same_text(es[k].0.as_str(), key) {
            return Some(&es[k].1);
        }
        k = k + 1;
    }
    None
}

/// The text of a string value.
pub fn get_str(v: Option<&Json>) -> (r: Option<String>)
    ensures
        match r {
            Some(s) => str_of(json_opt(v)) == Some(s@),
            None => str_of(json_opt(v)) is None,
        },
{
    match v {
        Some(Json::Str(s)) => Some(owned(s.as_str())),
        _ => None,
    }
}

/// The flag of a boolean value.
pub fn get_bool(v: Option<&Json>) -> (r: Option<bool>)
    ensures
        r == bool_of(json_opt(v)),
{
    match v {
        Some(Json::Bool(b)) => Some(*b),
        _ => None,
    }
}

/// The value of a number that is an unsigned integer.
pub fn get_u64(v: Option<&Json>) -> (r: Option<u64>)
    ensures
        r == u64_of(json_opt(v)),
{
    match v {
        Some(Json::Number(n)) => *n,
        _ => None,
    }
}

/// The items of an array.
pub fn get_items(v: Option<&Json>) -> (r: Option<&Vec<Json>>)
    ensures
        match r {
            Some(a) => items_of(json_opt(v)) == Some(a@),
            None => items_of(json_opt(v)) is None,
        },
{
    match v {
        Some(Json::Array(a)) => Some(a),
        _ => None,
    }
}

} // verus!
