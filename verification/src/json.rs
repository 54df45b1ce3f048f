//! Typed lookups into JSON text.
//!
//! The AJAX layer of the site answers with small JSON objects.  This
//! module reads single fields out of such a text through `serde_json`.
//! What a JSON parser returns cannot be restated here in a few lines, but
//! it is a function of the text alone, so each lookup's result is given a
//! name, and every contract above this module speaks of those names.

use vstd::prelude::*;

verus! {

/// Whether `s` parses as JSON at all, as `serde_json::from_str` decides.
pub uninterp spec fn json_parses(s: Seq<char>) -> bool;

/// Whether `s` parses as JSON and its top-level value is an object.
pub uninterp spec fn json_is_object(s: Seq<char>) -> bool;

/// The boolean at JSON-pointer `ptr` in `s`, when `s` parses and the
/// pointer lands on a boolean.
pub uninterp spec fn json_bool_at(s: Seq<char>, ptr: Seq<char>) -> Option<bool>;

/// The string at JSON-pointer `ptr` in `s`, likewise.
pub uninterp spec fn json_str_at(s: Seq<char>, ptr: Seq<char>) -> Option<Seq<char>>;

/// The unsigned integer at JSON-pointer `ptr` in `s`, likewise.
pub uninterp spec fn json_u64_at(s: Seq<char>, ptr: Seq<char>) -> Option<u64>;

/// Relies on `serde_json::from_str::<Value>`: whether the text is
/// well-formed JSON.
#[verifier::external_body]
pub(crate) fn json_parse_ok(s: &str) -> (r: bool)
    ensures
        r == json_parses(s@),
{
    serde_json::from_str::<serde_json::Value>(s).is_ok()
}

/// Relies on `serde_json::from_str::<Value>` and `Value::is_object`:
/// whether the text is well-formed JSON whose top level is an object.
#[verifier::external_body]
pub(crate) fn json_object_ok(s: &str) -> (r: bool)
    ensures
        r == json_is_object(s@),
{
    match serde_json::from_str::<serde_json::Value>(s) {
        Ok(v) => v.is_object(),
        Err(_) => false,
    }
}

/// Relies on `serde_json::from_str::<Value>`, `Value::pointer` and
/// `Value::as_bool`: the boolean field at `ptr`, if the text parses and
/// the field is a boolean.
#[verifier::external_body]
pub(crate) fn json_bool_field(s: &str, ptr: &str) -> (r: Option<bool>)
    ensures
        r == json_bool_at(s@, ptr@),
{
    serde_json::from_str::<serde_json::Value>(s).ok().and_then(
        |v| v.pointer(ptr).and_then(|x| x.as_bool()),
    )
}

/// Relies on `serde_json::from_str::<Value>`, `Value::pointer` and
/// `Value::as_str`: the string field at `ptr`, if the text parses and the
/// field is a string.
#[verifier::external_body]
pub(crate) fn json_str_field(s: &str, ptr: &str) -> (r: Option<String>)
    ensures
        r matches Some(t) ==> json_str_at(s@, ptr@) == Some(t@),
        r is None ==> json_str_at(s@, ptr@) is None,
{
    serde_json::from_str::<serde_json::Value>(s).ok().and_then(
        |v| v.pointer(ptr).and_then(|x| x.as_str().map(|t| t.to_string())),
    )
}

/// Relies on `serde_json::from_str::<Value>`, `Value::pointer` and
/// `Value::as_u64`: the unsigned field at `ptr`, if the text parses and
/// the field is an unsigned number.
#[verifier::external_body]
pub(crate) fn json_u64_field(s: &str, ptr: &str) -> (r: Option<u64>)
    ensures
        r == json_u64_at(s@, ptr@),
{
    serde_json::from_str::<serde_json::Value>(s).ok().and_then(
        |v| v.pointer(ptr).and_then(|x| x.as_u64()),
    )
}

} // verus!
