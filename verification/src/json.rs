//! What this library assumes of `serde_json`: the two types it carries, a
//! model of what a JSON value holds, and the accessors it calls. The
//! contracts in this file are not proved: they state what the `serde_json`
//! sources show, and the rest of the library is proved from them.

use serde_json::Value;
use vstd::prelude::*;

verus! {

/// `serde_json::Value`, carried as an opaque value.
#[verifier::external_type_specification]
#[verifier::external_body]
pub struct ExValue(serde_json::Value);

/// `serde_json::Map`, carried as an opaque value.
#[verifier::external_type_specification]
#[verifier::external_body]
#[verifier::reject_recursive_types(K)]
#[verifier::reject_recursive_types(V)]
pub struct ExMap<K, V>(serde_json::Map<K, V>);

/// What a JSON value holds, one level deep, as far as this library looks.
pub enum JsonShape {
    /// A JSON string, with its text.
    Text(Seq<char>),
    /// A JSON array, with its elements in order.
    Array(Seq<Value>),
    /// A JSON object, with its members by key.
    Object(Map<Seq<char>, Value>),
    /// Null, a boolean or a number.
    Other,
}

/// What the JSON value `v` holds.
pub uninterp spec fn json_shape(v: Value) -> JsonShape;

/// The members that a `serde_json::Map` holds, each value under its key.
pub uninterp spec fn object_members(m: serde_json::Map<String, Value>) -> Map<Seq<char>, Value>;

/// `Value::as_str` hands out the text of a JSON string, and nothing for any
/// other value.
pub assume_specification[ serde_json::Value::as_str ](v: &Value) -> (r: Option<&str>)
    ensures
        match r {
            Some(s) => json_shape(*v) == JsonShape::Text(s@),
            None => !(json_shape(*v) is Text),
        },
;

/// `Value::as_array` hands out the elements of a JSON array, and nothing for
/// any other value.
pub assume_specification[ serde_json::Value::as_array ](v: &Value) -> (r: Option<&Vec<Value>>)
    ensures
        match r {
            Some(items) => json_shape(*v) == JsonShape::Array(items@),
            None => !(json_shape(*v) is Array),
        },
;

/// `Value::as_object` hands out the map of a JSON object, and nothing for any
/// other value.
pub assume_specification[ serde_json::Value::as_object ](v: &Value) -> (r: Option<
    &serde_json::Map<String, Value>,
>)
    ensures
        match r {
            Some(m) => json_shape(*v) == JsonShape::Object(object_members(*m)),
            None => !(json_shape(*v) is Object),
        },
;

/// `Value::is_object` tells whether the value is a JSON object.
pub assume_specification[ serde_json::Value::is_object ](v: &Value) -> (r: bool)
    ensures
        r == (json_shape(*v) is Object),
;

/// `Value::clone` gives a value equal to the one it was called on.
pub assume_specification[ <serde_json::Value as Clone>::clone ](v: &Value) -> (r: Value)
    ensures
        r == *v,
;

/// `Map::iter`, collected into a vector: each member of the object appears
/// as a pair of its key and its value, and every key of the object appears.
/// The order of the pairs is left open.
#[verifier::external_body]
pub(crate) fn object_entries(m: &serde_json::Map<String, Value>) -> (r: Vec<(&String, &Value)>)
    ensures
        forall|i: int|
            0 <= i < r@.len() ==> object_members(*m).contains_key((#[trigger] r@[i]).0@)
                && object_members(*m)[r@[i].0@] == *r@[i].1,
        forall|k: Seq<char>|
            object_members(*m).contains_key(k) ==> exists|i: int|
                0 <= i < r@.len() && (#[trigger] r@[i]).0@ == k,
{
    m.iter().collect()
}

} // verus!
