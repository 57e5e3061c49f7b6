//! The boundary to `serde_json`: JSON values stay `serde_json::Value`, and
//! every contract in this crate speaks of them through `json_model`.
//!
//! Nothing in this file is proved. Each function states what the named
//! `serde_json` item does, as its source shows it.

use vstd::prelude::*;
use serde_json::Value;

verus! {

#[verifier::external_type_specification]
#[verifier::external_body]
pub struct ExValue(serde_json::Value);

/// A JSON number as `serde_json` holds it (without `arbitrary_precision`).
pub enum NumberModel {
    /// An integer that is not negative.
    PosInt(u64),
    /// An integer below zero.
    NegInt(i64),
    /// A number written with a fraction or an exponent, given by the bit
    /// pattern of its double.
    Float(u64),
}

/// A JSON value as a mathematical tree.
pub enum JsonModel {
    Null,
    Bool(bool),
    Number(NumberModel),
    String(Seq<char>),
    Array(Seq<JsonModel>),
    Object(Map<Seq<char>, JsonModel>),
}

/// The tree that a `serde_json::Value` holds.
pub uninterp spec fn json_model(v: Value) -> JsonModel;

/// What `serde_json::from_str::<Value>` makes of a text: the tree, or `None`
/// where it reports an error.
pub uninterp spec fn parsed_json(text: Seq<char>) -> Option<JsonModel>;

/// The compact JSON text that `Value`'s `Display` writes for a tree.
pub uninterp spec fn json_text(m: JsonModel) -> Seq<char>;

/// An object without members.
pub open spec fn no_members() -> JsonModel {
    JsonModel::Object(Map::empty())
}

/// The trees of a sequence of values.
pub open spec fn models(vs: Seq<Value>) -> Seq<JsonModel> {
    vs.map_values(|v: Value| json_model(v))
}

/// The member `key` of an object; `None` for a missing key and for anything
/// that is not an object.
pub open spec fn member(m: JsonModel, key: Seq<char>) -> Option<JsonModel> {
    match m {
        JsonModel::Object(fields) => if fields.contains_key(key) {
            Some(fields[key])
        } else {
            None
        },
        _ => None,
    }
}

/// The text of a JSON string.
pub open spec fn str_of(m: JsonModel) -> Option<Seq<char>> {
    match m {
        JsonModel::String(s) => Some(s),
        _ => None,
    }
}

/// A number as `u64`: only an integer that is not negative.
pub open spec fn u64_of(m: JsonModel) -> Option<u64> {
    match m {
        JsonModel::Number(NumberModel::PosInt(n)) => Some(n),
        _ => None,
    }
}

/// A number as `i64`: an integer between `i64::MIN` and `i64::MAX`.
pub open spec fn i64_of(m: JsonModel) -> Option<i64> {
    match m {
        JsonModel::Number(NumberModel::PosInt(n)) => if n <= i64::MAX {
            Some(n as i64)
        } else {
            None
        },
        JsonModel::Number(NumberModel::NegInt(n)) => Some(n),
        _ => None,
    }
}

/// The items of a JSON array.
pub open spec fn items_of(m: JsonModel) -> Option<Seq<JsonModel>> {
    match m {
        JsonModel::Array(items) => Some(items),
        _ => None,
    }
}

/// `serde_json::from_str::<Value>`: parses `text`. The result is a function of
/// the text alone, named `parsed_json`; the message of a failure is
/// `serde_json::Error`'s own and nothing is claimed of it.
#[verifier::external_body]
pub(crate) fn parse(text: &str) -> (r: Result<Value, String>)
    ensures
        match r {
            Ok(v) => parsed_json(text@) == Some(json_model(v)),
            Err(_) => parsed_json(text@) is None,
        },
{
    serde_json::from_str::<Value>(text).map_err(|e| e.to_string())
}

/// `Value::get` with a string index: the member of an object under `key`,
/// `None` where `v` is not an object or has no such key.
#[verifier::external_body]
pub(crate) fn get<'a>(v: &'a Value, key: &str) -> (r: Option<&'a Value>)
    ensures
        match r {
            Some(x) => member(json_model(*v), key@) == Some(json_model(*x)),
            None => member(json_model(*v), key@) is None,
        },
{
    v.get(key)
}

/// `Value::as_str`: the text of a JSON string, `None` for any other value.
#[verifier::external_body]
pub(crate) fn as_str<'a>(v: &'a Value) -> (r: Option<&'a str>)
    ensures
        match r {
            Some(s) => str_of(json_model(*v)) == Some(s@),
            None => str_of(json_model(*v)) is None,
        },
{
    v.as_str()
}

/// `Value::as_u64`: the number where it is an integer that is not negative.
#[verifier::external_body]
pub(crate) fn as_u64(v: &Value) -> (r: Option<u64>)
    ensures
        r == u64_of(json_model(*v)),
{
    v.as_u64()
}

/// `Value::as_i64`: the number where it is an integer that fits `i64`.
#[verifier::external_body]
pub(crate) fn as_i64(v: &Value) -> (r: Option<i64>)
    ensures
        r == i64_of(json_model(*v)),
{
    v.as_i64()
}

/// `Value::as_array`: the items of a JSON array, `None` for any other value.
#[verifier::external_body]
pub(crate) fn as_array<'a>(v: &'a Value) -> (r: Option<&'a Vec<Value>>)
    ensures
        match r {
            Some(items) => items_of(json_model(*v)) == Some(models(items@)),
            None => items_of(json_model(*v)) is None,
        },
{
    v.as_array()
}

/// `Value::is_object`.
#[verifier::external_body]
pub(crate) fn is_object(v: &Value) -> (r: bool)
    ensures
        r == (json_model(*v) is Object),
{
    v.is_object()
}

/// `Value::is_number`.
#[verifier::external_body]
pub(crate) fn is_number(v: &Value) -> (r: bool)
    ensures
        r == (json_model(*v) is Number),
{
    v.is_number()
}

/// `Value::clone` keeps the tree.
pub assume_specification[ <Value as Clone>::clone ](v: &Value) -> (r: Value)
    ensures
        json_model(r) == json_model(*v),
;

/// The variant `Value::Null`.
#[verifier::external_body]
pub(crate) fn null() -> (r: Value)
    ensures
        json_model(r) == JsonModel::Null,
{
    Value::Null
}

/// The variant `Value::Object` around `serde_json::Map::new()`: an object
/// without members.
#[verifier::external_body]
pub(crate) fn empty_object() -> (r: Value)
    ensures
        json_model(r) == no_members(),
{
    Value::Object(serde_json::Map::new())
}

/// The variant `Value::String` around a copy of `s`.
#[verifier::external_body]
pub(crate) fn string(s: &str) -> (r: Value)
    ensures
        json_model(r) == JsonModel::String(s@),
{
    Value::String(s.to_string())
}

/// `Value`'s `Display` through `to_string`: the compact JSON text of the
/// value, a function of the tree alone, named `json_text`.
#[verifier::external_body]
pub(crate) fn to_text(v: &Value) -> (r: String)
    ensures
        r@ == json_text(json_model(*v)),
{
    v.to_string()
}

} // verus!
