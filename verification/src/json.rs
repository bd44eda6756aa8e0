//! Reading JSON, done by the `serde_json` crate.

use vstd::prelude::*;

verus! {

/// `serde_json::Value`, a JSON value. The library carries such values and
/// never looks inside one.
#[verifier::external_type_specification]
#[verifier::external_body]
pub struct ExValue(serde_json::Value);

/// `serde_json::Error`, what `serde_json` says of a text it cannot read.
#[verifier::external_type_specification]
#[verifier::external_body]
pub struct ExError(serde_json::Error);

/// The JSON value that `serde_json::from_slice` reads from `body`, if it
/// reads one.
pub uninterp spec fn json_document(body: Seq<u8>) -> Option<serde_json::Value>;

/// The member that `serde_json::Value::get` finds in `value` under `key`, if
/// it finds one.
pub uninterp spec fn json_member(value: serde_json::Value, key: Seq<char>) -> Option<
    serde_json::Value,
>;

/// The truth value that `serde_json::Value::as_bool` finds `value` to be, if any.
pub uninterp spec fn json_bool(value: serde_json::Value) -> Option<bool>;

/// The text that `serde_json::Value::as_str` finds `value` to be, if any.
pub uninterp spec fn json_text(value: serde_json::Value) -> Option<Seq<char>>;

/// Calls `serde_json::from_slice` for a `Value`.
///
/// Trusted: what comes back depends on the bytes alone, so it has a name.
#[verifier::external_body]
pub(crate) fn parse_json(body: &[u8]) -> (parsed: Result<serde_json::Value, serde_json::Error>)
    ensures
        parsed is Ok <==> json_document(body@) is Some,
        parsed matches Ok(value) ==> json_document(body@) == Some(value),
{
    serde_json::from_slice::<serde_json::Value>(body)
}

/// Calls `serde_json::Value::get` with a text as the index, which looks the
/// text up among the members of an object and finds nothing in any other value.
///
/// Trusted: what comes back depends on the value and the key alone, so it
/// has a name.
#[verifier::external_body]
pub(crate) fn member<'a>(value: &'a serde_json::Value, key: &str) -> (found: Option<
    &'a serde_json::Value,
>)
    ensures
        found is Some <==> json_member(*value, key@) is Some,
        found matches Some(inner) ==> json_member(*value, key@) == Some(*inner),
{
    value.get(key)
}

/// Calls `serde_json::Value::as_bool`.
///
/// Trusted: what comes back depends on the value alone, so it has a name.
#[verifier::external_body]
pub(crate) fn as_bool(value: &serde_json::Value) -> (flag: Option<bool>)
    ensures
        flag == json_bool(*value),
{
    value.as_bool()
}

/// Calls `serde_json::Value::as_str`.
///
/// Trusted: what comes back depends on the value alone, so it has a name.
#[verifier::external_body]
pub(crate) fn as_text<'a>(value: &'a serde_json::Value) -> (text: Option<&'a str>)
    ensures
        text is Some <==> json_text(*value) is Some,
        text matches Some(inner) ==> json_text(*value) == Some(inner@),
{
    value.as_str()
}

} // verus!
