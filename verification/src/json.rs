//! JSON values, as `serde_json` holds them, and what this crate reads of them.
//!
//! A [`Value`] is opaque to the proofs. Contracts speak of its [`JsonModel`],
//! reached through [`json_of`], and every operation on a value goes through
//! one of the functions below, each of which makes a single call into
//! `serde_json` and states what that call is documented to do.

use vstd::prelude::*;
use serde_json::Value;

verus! {

/// `serde_json::Value`, carried through without a look inside.
#[verifier::external_type_specification]
#[verifier::external_body]
pub struct ExValue(serde_json::Value);

/// `serde_json::Map`, the members of an object while it is being built.
#[verifier::external_type_specification]
#[verifier::external_body]
#[verifier::reject_recursive_types(K)]
#[verifier::reject_recursive_types(V)]
pub struct ExMap<K, V>(serde_json::Map<K, V>);

/// `serde_json::Error`, handed on as it comes.
#[verifier::external_type_specification]
#[verifier::external_body]
pub struct ExError(serde_json::Error);

/// The mathematical content of a JSON value.
pub enum JsonModel {
    Null,
    Bool(bool),
    /// A number held as an integer.
    Integer(int),
    /// A number held as a double, named by its bit pattern.
    Double(int),
    Text(Seq<char>),
    List(Seq<JsonModel>),
    /// An object: at most one member under each key.
    Record(Map<Seq<char>, JsonModel>),
}

impl JsonModel {
    /// The member under `key`, where this is an object that has one.
    pub open spec fn member(self, key: Seq<char>) -> Option<JsonModel> {
        match self {
            JsonModel::Record(members) => if members.dom().contains(key) {
                Some(members[key])
            } else {
                None
            },
            _ => None,
        }
    }

    /// The characters of this value, where it is a string.
    pub open spec fn text(self) -> Option<Seq<char>> {
        match self {
            JsonModel::Text(chars) => Some(chars),
            _ => None,
        }
    }

    /// This value as an unsigned 64-bit number, where it is an integer in
    /// that range.
    pub open spec fn unsigned(self) -> Option<u64> {
        match self {
            JsonModel::Integer(n) => if 0 <= n <= u64::MAX {
                Some(n as u64)
            } else {
                None
            },
            _ => None,
        }
    }
}

/// What a `serde_json::Value` holds.
pub uninterp spec fn json_of(value: Value) -> JsonModel;

/// The members that a `serde_json::Map` holds, by key.
pub uninterp spec fn members_of(members: serde_json::Map<String, Value>) -> Map<Seq<char>, JsonModel>;

/// The compact serialisation that `serde_json::to_vec` gives a value with
/// this content, where it gives one.
pub uninterp spec fn json_bytes(content: JsonModel) -> Option<Seq<u8>>;

/// `Value::get` with a string key: the member of an object under that key,
/// `None` for a missing key and for whatever is no object.
#[verifier::external_body]
pub(crate) fn member<'a>(value: &'a Value, key: &str) -> (found: Option<&'a Value>)
    ensures
        match found {
            Some(inner) => json_of(*value).member(key@) == Some(json_of(*inner)),
            None => json_of(*value).member(key@) is None,
        },
{
    value.get(key)
}

/// `Value::as_str`: the characters of a string value, `None` for any other.
#[verifier::external_body]
pub(crate) fn text<'a>(value: &'a Value) -> (found: Option<&'a str>)
    ensures
        match found {
            Some(chars) => json_of(*value).text() == Some(chars@),
            None => json_of(*value).text() is None,
        },
{
    value.as_str()
}

/// `Value::as_u64`: the number, where the value is a non-negative integer
/// that fits in 64 bits; `None` for a negative one, a double, and whatever
/// is no number.
#[verifier::external_body]
pub(crate) fn unsigned(value: &Value) -> (found: Option<u64>)
    ensures
        found == json_of(*value).unsigned(),
{
    value.as_u64()
}

/// `Value::clone`: a value with the same content.
pub assume_specification[ <serde_json::Value as Clone>::clone ](value: &Value) -> (copy: Value)
    ensures
        json_of(copy) == json_of(*value),
;

/// `Value::from` on a string slice: the string value with those characters.
#[verifier::external_body]
pub(crate) fn text_value(chars: &str) -> (value: Value)
    ensures
        json_of(value) == JsonModel::Text(chars@),
{
    Value::from(chars)
}

/// `Value::from` on a `u64`: the integer value of that number.
#[verifier::external_body]
pub(crate) fn unsigned_value(number: u64) -> (value: Value)
    ensures
        json_of(value) == JsonModel::Integer(number as int),
{
    Value::from(number)
}

/// The members of an object that has none.
pub open spec fn nothing() -> Map<Seq<char>, JsonModel> {
    Map::empty()
}

/// `Map::new`: a map without members.
#[verifier::external_body]
pub(crate) fn no_members() -> (members: serde_json::Map<String, Value>)
    ensures
        members_of(members) == nothing(),
{
    serde_json::Map::new()
}

/// `Map::insert`: the member under `key` is now `value`, whether or not the
/// key was there before; the other members stay.
#[verifier::external_body]
pub(crate) fn put_member(object: &mut serde_json::Map<String, Value>, key: &str, value: Value)
    ensures
        members_of(*final(object)) == members_of(*old(object)).insert(key@, json_of(value)),
{
    object.insert(key.to_owned(), value);
}

/// `Value::Object`: the object that holds exactly the members of the map.
#[verifier::external_body]
pub(crate) fn object_value(members: serde_json::Map<String, Value>) -> (value: Value)
    ensures
        json_of(value) == JsonModel::Record(members_of(members)),
{
    Value::Object(members)
}

/// `serde_json::to_vec` on a value: the compact serialisation of the value.
/// Whether the call succeeds, and with which bytes, depends on the value's
/// content alone.
#[verifier::external_body]
pub(crate) fn to_bytes(value: &Value) -> (written: Result<Vec<u8>, serde_json::Error>)
    ensures
        match written {
            Ok(bytes) => json_bytes(json_of(*value)) == Some(bytes@),
            Err(_) => json_bytes(json_of(*value)) is None,
        },
{
    serde_json::to_vec(value)
}

} // verus!
