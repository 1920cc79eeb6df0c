//! JSON documents: a mathematical model of [`serde_json::Value`] and the calls
//! into `serde_json` that read and build one.

use crate::text::str_view;
use serde_json::Value;
use vstd::prelude::*;

verus! {

/// What a JSON document holds.
///
/// An object is a map from key to value, so neither the order of its members
/// nor the spelling of a number plays a part. A number that is no integer is
/// only known to be one.
#[verifier::ext_equal]
pub enum Json {
    Null,
    Bool(bool),
    Int(int),
    Fraction,
    Text(Seq<char>),
    List(Seq<Json>),
    Object(Map<Seq<char>, Json>),
}

/// `serde_json::Value`, carried as an opaque value.
#[verifier::external_type_specification]
#[verifier::external_body]
pub struct ExValue(serde_json::Value);

/// What a `serde_json::Value` holds.
pub uninterp spec fn json_of(v: serde_json::Value) -> Json;

impl Json {
    /// The member `key` of an object; anything else has no members.
    pub open spec fn member(self, key: Seq<char>) -> Option<Json> {
        match self {
            Json::Object(m) => if m.contains_key(key) {
                Some(m[key])
            } else {
                None
            },
            _ => None,
        }
    }

    /// The integer, where the document is one and fits in 64 signed bits.
    pub open spec fn int64(self) -> Option<i64> {
        match self {
            Json::Int(n) => if i64::MIN <= n <= i64::MAX {
                Some(n as i64)
            } else {
                None
            },
            _ => None,
        }
    }

    /// The characters, where the document is a text.
    pub open spec fn text(self) -> Option<Seq<char>> {
        match self {
            Json::Text(t) => Some(t),
            _ => None,
        }
    }

    /// The truth value, where the document is one.
    pub open spec fn truth(self) -> Option<bool> {
        match self {
            Json::Bool(b) => Some(b),
            _ => None,
        }
    }

    /// The items, where the document is a list.
    pub open spec fn items(self) -> Option<Seq<Json>> {
        match self {
            Json::List(l) => Some(l),
            _ => None,
        }
    }

    /// The integer member `key`.
    pub open spec fn int64_at(self, key: Seq<char>) -> Option<i64> {
        match self.member(key) {
            Some(m) => m.int64(),
            None => None,
        }
    }

    /// The text member `key`.
    pub open spec fn text_at(self, key: Seq<char>) -> Option<Seq<char>> {
        match self.member(key) {
            Some(m) => m.text(),
            None => None,
        }
    }

    /// The member `key`, where it is a truth value.
    pub open spec fn truth_at(self, key: Seq<char>) -> Option<bool> {
        match self.member(key) {
            Some(m) => m.truth(),
            None => None,
        }
    }

    /// The items of the list member `key`.
    pub open spec fn items_at(self, key: Seq<char>) -> Option<Seq<Json>> {
        match self.member(key) {
            Some(m) => m.items(),
            None => None,
        }
    }
}

/// What a sequence of values holds.
pub open spec fn items_of(values: Seq<Value>) -> Seq<Json> {
    values.map_values(|v: Value| json_of(v))
}

/// The integer member `key` of `v`.
pub fn int_member(v: &Value, key: &str) -> (r: Option<i64>)
    ensures
        r == json_of(*v).int64_at(key@),
{
    match member(v, key) {
        Some(m) => m.as_i64(),
        None => None,
    }
}

/// The text member `key` of `v`.
pub fn text_member<'a>(v: &'a Value, key: &str) -> (r: Option<&'a str>)
    ensures
        str_view(r) == json_of(*v).text_at(key@),
{
    match member(v, key) {
        Some(m) => m.as_str(),
        None => None,
    }
}

/// The truth value member `key` of `v`.
pub fn truth_member(v: &Value, key: &str) -> (r: Option<bool>)
    ensures
        r == json_of(*v).truth_at(key@),
{
    match member(v, key) {
        Some(m) => m.as_bool(),
        None => None,
    }
}

/// `Value::get` with a string index: the member of that name of an object, and
/// nothing where the value is no object or has no such member.
#[verifier::external_body]
pub(crate) fn member<'a>(v: &'a Value, key: &str) -> (r: Option<&'a Value>)
    ensures
        (match r {
            Some(m) => Some(json_of(*m)),
            None => None,
        }) == json_of(*v).member(key@),
{
    v.get(key)
}

/// `Value::as_i64`: the number, where it is an integer in the range of `i64`.
pub assume_specification[ Value::as_i64 ](v: &Value) -> (r: Option<i64>)
    ensures
        r == json_of(*v).int64(),
;

/// `Value::as_str`: the text, where the value is a string.
pub assume_specification<'a>[ Value::as_str ](v: &'a Value) -> (r: Option<&'a str>)
    ensures
        str_view(r) == json_of(*v).text(),
;

/// `Value::as_bool`: the truth value, where the value is one.
pub assume_specification[ Value::as_bool ](v: &Value) -> (r: Option<bool>)
    ensures
        r == json_of(*v).truth(),
;

/// `Value::as_array`: the items in their order, where the value is an array.
pub assume_specification<'a>[ Value::as_array ](v: &'a Value) -> (r: Option<&'a Vec<Value>>)
    ensures
        (match r {
            Some(items) => Some(items_of(items@)),
            None => None,
        }) == json_of(*v).items(),
;

/// `Value::String`: the value that is the given text.
#[verifier::external_body]
pub(crate) fn text_value(s: &str) -> (r: Value)
    ensures
        json_of(r) == Json::Text(s@),
{
    Value::String(s.to_string())
}

/// `Value::from` of an `i64`: the value that is the given integer.
#[verifier::external_body]
pub(crate) fn int_value(n: i64) -> (r: Value)
    ensures
        json_of(r) == Json::Int(n as int),
{
    Value::from(n)
}

/// `Value::Array`: the array of the given items, in their order.
#[verifier::external_body]
pub(crate) fn list_value(items: Vec<Value>) -> (r: Value)
    ensures
        json_of(r) == Json::List(items_of(items@)),
{
    Value::Array(items)
}

/// `serde_json::Map::new` in a `Value::Object`: the object without members.
#[verifier::external_body]
pub(crate) fn object_value() -> (r: Value)
    ensures
        json_of(r) == Json::Object(Map::empty()),
{
    Value::Object(serde_json::Map::new())
}

/// `Value`'s `IndexMut` with a string index, assigned to: the object gets the
/// member, in place of one of that name. The call panics on what is neither an object
/// nor null, so an object is asked for.
#[verifier::external_body]
pub(crate) fn set_member(v: &mut Value, key: &str, member: Value)
    requires
        json_of(*old(v)) is Object,
    ensures
        json_of(*final(v)) == Json::Object(json_of(*old(v))->Object_0.insert(key@, json_of(member))),
{
    v[key] = member;
}

} // verus!
