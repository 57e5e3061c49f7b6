//! Reading members out of JSON records. Every read has a stated answer for a
//! missing member and for one of the wrong shape.

use vstd::prelude::*;
use serde_json::Value;
use vstd::string::*;
use crate::json::{self, i64_of, items_of, json_model, member, models, str_of, u64_of, JsonModel};
use crate::model::opt_text;

verus! {

/// The tree behind an optional reference to a value.
pub open spec fn opt_model(v: Option<&Value>) -> Option<JsonModel> {
    match v {
        Some(x) => Some(json_model(*x)),
        None => None,
    }
}

/// The member `first` where the record has one, else the member `second`.
pub open spec fn either_member(m: JsonModel, first: Seq<char>, second: Seq<char>) -> Option<
    JsonModel,
> {
    match member(m, first) {
        Some(x) => Some(x),
        None => member(m, second),
    }
}

/// The text of `m` where it is a JSON string.
pub open spec fn opt_str(m: Option<JsonModel>) -> Option<Seq<char>> {
    match m {
        Some(x) => str_of(x),
        None => None,
    }
}

/// The text of `m` where it is a JSON string, else `default`.
pub open spec fn str_or(m: Option<JsonModel>, default: Seq<char>) -> Seq<char> {
    match opt_str(m) {
        Some(s) => s,
        None => default,
    }
}

/// The number `m` as `u64`, where it is one.
pub open spec fn opt_u64(m: Option<JsonModel>) -> Option<u64> {
    match m {
        Some(x) => u64_of(x),
        None => None,
    }
}

/// The number `m` as `i64`, where it is one.
pub open spec fn opt_i64(m: Option<JsonModel>) -> Option<i64> {
    match m {
        Some(x) => i64_of(x),
        None => None,
    }
}

/// The items of `m` where it is a JSON array.
pub open spec fn opt_items(m: Option<JsonModel>) -> Option<Seq<JsonModel>> {
    match m {
        Some(x) => items_of(x),
        None => None,
    }
}

/// The items of `m` where it is a JSON array, else no items.
pub open spec fn items_or_none(m: Option<JsonModel>) -> Seq<JsonModel> {
    match opt_items(m) {
        Some(items) => items,
        None => Seq::empty(),
    }
}

/// A token count: the number `m` where it is an integer from 0 to
/// `u32::MAX`. A count that does not fit is not read.
pub open spec fn opt_count(m: Option<JsonModel>) -> Option<u32> {
    match opt_u64(m) {
        Some(n) => if n <= u32::MAX {
            Some(n as u32)
        } else {
            None
        },
        None => None,
    }
}

/// The member `first` where the record has one, else the member `second`.
pub fn get_either<'a>(v: &'a Value, first: &str, second: &str) -> (r: Option<&'a Value>)
    ensures
        opt_model(r) == either_member(json_model(*v), first@, second@),
{
    match json::get(v, first) {
        Some(x) => Some(x),
        None => json::get(v, second),
    }
}

/// The text of an optional value where it is a JSON string.
pub fn text_of<'a>(v: Option<&'a Value>) -> (r: Option<&'a str>)
    ensures
        match r {
            Some(s) => opt_str(opt_model(v)) == Some(s@),
            None => opt_str(opt_model(v)) is None,
        },
{
    match v {
        Some(x) => json::as_str(x),
        None => None,
    }
}

/// The text of an optional value where it is a JSON string, else `default`.
pub fn text_or<'a>(v: Option<&'a Value>, default: &'a str) -> (r: &'a str)
    ensures
        r@ == str_or(opt_model(v), default@),
{
    match text_of(v) {
        Some(s) => s,
        None => default,
    }
}

/// The number of an optional value as `u64`, where it is one.
pub fn u64_at(v: Option<&Value>) -> (r: Option<u64>)
    ensures
        r == opt_u64(opt_model(v)),
{
    match v {
        Some(x) => json::as_u64(x),
        None => None,
    }
}

/// The number of an optional value as `i64`, where it is one.
pub fn i64_at(v: Option<&Value>) -> (r: Option<i64>)
    ensures
        r == opt_i64(opt_model(v)),
{
    match v {
        Some(x) => json::as_i64(x),
        None => None,
    }
}

/// The items of an optional value where it is a JSON array.
pub fn items_at<'a>(v: Option<&'a Value>) -> (r: Option<&'a Vec<Value>>)
    ensures
        match r {
            Some(items) => opt_items(opt_model(v)) == Some(models(items@)),
            None => opt_items(opt_model(v)) is None,
        },
{
    match v {
        Some(x) => json::as_array(x),
        None => None,
    }
}

/// A copy of the text of an optional value where it is a JSON string.
pub fn string_at(v: Option<&Value>) -> (r: Option<String>)
    ensures
        opt_text(r) == opt_str(opt_model(v)),
{
    match text_of(v) {
        Some(s) => Some(String::from_str(s)),
        None => None,
    }
}

/// A token count out of an optional value.
pub fn count_of(v: Option<&Value>) -> (r: Option<u32>)
    ensures
        r == opt_count(opt_model(v)),
{
    match v {
        Some(x) => match json::as_u64(x) {
            Some(n) => if n <= u32::MAX as u64 {
                Some(n as u32)
            } else {
                None
            },
            None => None,
        },
        None => None,
    }
}

} // verus!
