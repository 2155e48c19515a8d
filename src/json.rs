//! The parts of `serde_json` that the library relies on, each with what it
//! is trusted to do.

use vstd::prelude::*;

verus! {

#[verifier::external_type_specification]
#[verifier::external_body]
pub struct ExValue(serde_json::Value);

#[verifier::external_type_specification]
#[verifier::external_body]
#[verifier::reject_recursive_types(K)]
#[verifier::reject_recursive_types(V)]
pub struct ExJsonMap<K, V>(serde_json::Map<K, V>);

/// A JSON object's members, keyed by name.
pub type JsonObject = serde_json::Map<String, serde_json::Value>;

/// The JSON value that `serde_json::from_slice` reads from `b`, if the bytes
/// are one well-formed JSON text.
pub uninterp spec fn json_parse(b: Seq<u8>) -> Option<serde_json::Value>;

/// `Value::get` with a string key: the member of an object named `key`.
pub uninterp spec fn json_get(v: serde_json::Value, key: Seq<char>) -> Option<serde_json::Value>;

/// `Value::as_str`: the text of a JSON string.
pub uninterp spec fn json_str(v: serde_json::Value) -> Option<Seq<char>>;

/// `Value::as_i64`: the integer a JSON number holds, where it fits in `i64`.
pub uninterp spec fn json_i64(v: serde_json::Value) -> Option<i64>;

/// `Value::as_bool`: the truth value of a JSON boolean.
pub uninterp spec fn json_bool(v: serde_json::Value) -> Option<bool>;

/// `Value::as_array`: the elements of a JSON array.
pub uninterp spec fn json_items(v: serde_json::Value) -> Option<Seq<serde_json::Value>>;

/// `Value::is_null`: whether the value is JSON `null`.
pub uninterp spec fn json_is_null(v: serde_json::Value) -> bool;

/// `serde_json::to_vec`: the compact JSON text of a value.
pub uninterp spec fn json_text(v: serde_json::Value) -> Seq<u8>;

/// The members that a `serde_json::Map` holds, by key.
pub uninterp spec fn object_entries(m: JsonObject) -> Map<
    Seq<char>,
    serde_json::Value,
>;

/// What looking `key` up in a map with members `m` gives.
pub open spec fn entry(m: Map<Seq<char>, serde_json::Value>, key: Seq<char>) -> Option<
    serde_json::Value,
> {
    if m.contains_key(key) {
        Some(m[key])
    } else {
        None
    }
}

/// Relies on serde_json::from_slice reading a `Value`: it depends on the
/// bytes alone.
#[verifier::external_body]
pub(crate) fn parse_json(b: &[u8]) -> (r: Option<serde_json::Value>)
    ensures
        r == json_parse(b@),
{
    serde_json::from_slice::<serde_json::Value>(b).ok()
}

/// Relies on Value::get with a `&str` index: the member named `key` of an
/// object, nothing for any other value.
#[verifier::external_body]
pub(crate) fn get_field<'a>(v: &'a serde_json::Value, key: &str) -> (r: Option<&'a serde_json::Value>)
    ensures
        match r {
            Some(f) => json_get(*v, key@) == Some(*f),
            None => json_get(*v, key@).is_none(),
        },
{
    v.get(key)
}

/// Relies on Value::as_str: the text of a string value.
#[verifier::external_body]
pub(crate) fn as_text(v: &serde_json::Value) -> (r: Option<&str>)
    ensures
        match r {
            Some(s) => json_str(*v) == Some(s@),
            None => json_str(*v).is_none(),
        },
{
    v.as_str()
}

/// Relies on Value::is_null.
pub assume_specification[ serde_json::Value::is_null ](v: &serde_json::Value) -> (r: bool)
    ensures
        r == json_is_null(*v),
;

/// Relies on the derived `Clone` of `Value`: the copy is the same value.
pub assume_specification[ <serde_json::Value as Clone>::clone ](v: &serde_json::Value) -> (r:
    serde_json::Value)
    ensures
        r == *v,
;

/// Relies on `Value::String`, read back by `as_str`; it is not `null`.
#[verifier::external_body]
pub(crate) fn string_value(s: String) -> (r: serde_json::Value)
    ensures
        json_str(r) == Some(s@),
        !json_is_null(r),
{
    serde_json::Value::String(s)
}

/// Relies on `From<i64> for Value`, read back by `as_i64`; it is not `null`.
#[verifier::external_body]
pub(crate) fn int_value(n: i64) -> (r: serde_json::Value)
    ensures
        json_i64(r) == Some(n),
        !json_is_null(r),
{
    serde_json::Value::from(n)
}

/// Relies on `Value::Bool`, read back by `as_bool`; it is not `null`.
#[verifier::external_body]
pub(crate) fn bool_value(b: bool) -> (r: serde_json::Value)
    ensures
        json_bool(r) == Some(b),
        !json_is_null(r),
{
    serde_json::Value::Bool(b)
}

/// Relies on `Value::Array`, read back by `as_array`; it is not `null`.
#[verifier::external_body]
pub(crate) fn array_value(items: Vec<serde_json::Value>) -> (r: serde_json::Value)
    ensures
        json_items(r) == Some(items@),
        !json_is_null(r),
{
    serde_json::Value::Array(items)
}

/// Relies on `Value::Object`: `get` on it looks the key up in the map; it
/// is not `null`.
#[verifier::external_body]
pub(crate) fn object_value(m: JsonObject) -> (r: serde_json::Value)
    ensures
        forall|k: Seq<char>| #[trigger] json_get(r, k) == entry(object_entries(m), k),
        !json_is_null(r),
{
    serde_json::Value::Object(m)
}

/// Relies on serde_json::Map::new: a map with no members.
#[verifier::external_body]
pub(crate) fn new_object() -> (r: JsonObject)
    ensures
        object_entries(r) =~= Map::empty(),
{
    serde_json::Map::new()
}

/// Relies on serde_json::Map::insert: the member `k` is set to `v`,
/// replacing any earlier one.
#[verifier::external_body]
pub(crate) fn object_insert(
    m: &mut JsonObject,
    k: String,
    v: serde_json::Value,
)
    ensures
        object_entries(*final(m)) == object_entries(*old(m)).insert(k@, v),
{
    m.insert(k, v);
}

/// Relies on serde_json::to_vec: the JSON text of the value. Writing a
/// `Value` into a `Vec` cannot fail, as its map keys are always strings.
#[verifier::external_body]
pub(crate) fn to_json_bytes(v: &serde_json::Value) -> (r: Option<Vec<u8>>)
    ensures
        r is Some,
        r.unwrap()@ == json_text(*v),
{
    serde_json::to_vec(v).ok()
}

} // verus!
