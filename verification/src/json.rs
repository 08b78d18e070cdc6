//! The trusted boundary around the JSON crate. Parsing a wire line and
//! reading the fields of the parsed document are the only steps the library
//! takes on trust; everything downstream of these calls is verified against
//! the names declared here. Each name stands for the outcome of one
//! `serde_json` operation, which is a function of its arguments alone.

use vstd::prelude::*;

verus! {

#[verifier::external_type_specification]
#[verifier::external_body]
pub struct ExValue(serde_json::Value);

/// What `serde_json::from_str::<Value>` makes of a line: the parsed document,
/// or nothing when the line is not valid JSON.
pub uninterp spec fn json_parse(s: Seq<char>) -> Option<serde_json::Value>;

/// The string content of the field `key` of `v`: present exactly when `v` is
/// an object, holds `key`, and the value there is a JSON string.
pub uninterp spec fn json_field_str(v: serde_json::Value, key: Seq<char>) -> Option<Seq<char>>;

/// The value of the field `key` of `v` as a signed 64-bit integer: present
/// exactly when the field holds a JSON integer in that range.
pub uninterp spec fn json_field_i64(v: serde_json::Value, key: Seq<char>) -> Option<i64>;

/// The value of the field `key` of `v` as an unsigned 64-bit integer:
/// present exactly when the field holds a JSON integer in that range.
pub uninterp spec fn json_field_u64(v: serde_json::Value, key: Seq<char>) -> Option<u64>;

/// The entries of the object held by the field `key` of `v`, in the order
/// the JSON crate's map iterator yields them: present exactly when that
/// field holds a JSON object.
pub uninterp spec fn json_field_entries(v: serde_json::Value, key: Seq<char>) -> Option<
    Seq<(Seq<char>, serde_json::Value)>,
>;

/// Relies on `serde_json::from_str::<Value>`: parses one line of text as a
/// JSON document; the parse is a function of the text alone.
#[verifier::external_body]
pub fn parse_json(s: &str) -> (r: Option<serde_json::Value>)
    ensures
        r == json_parse(s@),
{
    serde_json::from_str::<serde_json::Value>(s).ok()
}

/// Relies on `serde_json::Value::get` and `serde_json::Value::as_str`:
/// reads the string field `key` of the object `v`.
#[verifier::external_body]
pub fn get_str(v: &serde_json::Value, key: &str) -> (r: Option<String>)
    ensures
        match r {
            Some(s) => json_field_str(*v, key@) == Some(s@),
            None => json_field_str(*v, key@) is None,
        },
{
    v.get(key).and_then(|f| f.as_str()).map(|s| s.to_string())
}

/// Relies on `serde_json::Value::get` and `serde_json::Value::as_i64`:
/// reads the integer field `key` of the object `v` as an `i64`.
#[verifier::external_body]
pub fn get_i64(v: &serde_json::Value, key: &str) -> (r: Option<i64>)
    ensures
        r == json_field_i64(*v, key@),
{
    v.get(key).and_then(|f| f.as_i64())
}

/// Relies on `serde_json::Value::get` and `serde_json::Value::as_u64`:
/// reads the integer field `key` of the object `v` as a `u64`.
#[verifier::external_body]
pub fn get_u64(v: &serde_json::Value, key: &str) -> (r: Option<u64>)
    ensures
        r == json_field_u64(*v, key@),
{
    v.get(key).and_then(|f| f.as_u64())
}

/// Relies on `serde_json::Value::get`, `serde_json::Value::as_object` and
/// `serde_json::Map::iter`: lists the entries of the object field `key` of
/// `v` in iteration order, each key beside its value.
#[verifier::external_body]
pub fn get_entries(v: &serde_json::Value, key: &str) -> (r: Option<Vec<(String, serde_json::Value)>>)
    ensures
        match r {
            Some(es) => json_field_entries(*v, key@) == Some(
                es@.map_values(|p: (String, serde_json::Value)| (p.0@, p.1)),
            ),
            None => json_field_entries(*v, key@) is None,
        },
{
    v.get(key).and_then(|f| f.as_object()).map(
        |m| m.iter().map(|(k, val)| (k.clone(), val.clone())).collect(),
    )
}

} // verus!
