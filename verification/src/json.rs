//! The JSON values that devices send, carried through the library as
//! `serde_json::Value` and read only through the trusted items below.
use vstd::prelude::*;

verus! {

/// `serde_json::Value`, carried through the library without looking inside.
#[verifier::external_type_specification]
#[verifier::external_body]
pub struct ExJsonValue(serde_json::Value);

/// What `value[key]` gives for a JSON value: the member named `key` of an
/// object, or `Null` when there is none.
pub uninterp spec fn json_member(value: serde_json::Value, key: Seq<char>) -> serde_json::Value;

/// What `value.as_str()` gives: the text of a JSON string, `None` for any other value.
pub uninterp spec fn json_as_str(value: serde_json::Value) -> Option<Seq<char>>;

/// What `serde_json::from_slice` gives for the bytes, read as a `Value`: the
/// value they spell as one JSON text, `None` when they spell none.
pub uninterp spec fn json_from_bytes(bytes: Seq<u8>) -> Option<serde_json::Value>;

/// Calls `<serde_json::Value as Index<&str>>::index`. Its source returns the member
/// named `key` of an object and a shared `Null` for a missing member or a
/// value that is not an object; it never panics. The result is `json_member`.
#[verifier::external_body]
pub(crate) fn member<'a>(value: &'a serde_json::Value, key: &str) -> (r: &'a serde_json::Value)
    ensures
        *r == json_member(*value, key@),
{
    &value[key]
}

/// Calls `serde_json::Value::as_str`, converting the borrowed text to a `String`.
/// Its source returns `Some` exactly for a `Value::String`. The result is `json_as_str`.
#[verifier::external_body]
pub(crate) fn as_text(value: &serde_json::Value) -> (r: Option<String>)
    ensures
        match r {
            Some(s) => json_as_str(*value) == Some(s@),
            None => json_as_str(*value) is None,
        },
{
    value.as_str().map(|s| s.to_string())
}

/// Calls the derived `Clone` of `serde_json::Value`, which copies the value
/// member by member; `Value` also derives `Eq`, and the copy equals the original.
#[verifier::external_body]
pub(crate) fn copy_json(value: &serde_json::Value) -> (r: serde_json::Value)
    ensures
        r == *value,
{
    value.clone()
}

/// Calls `serde_json::from_slice` into a `serde_json::Value`, keeping the value
/// and dropping the error. Its source parses the whole slice, fails on
/// anything but one JSON text, and reports failure as an error rather than a
/// panic. The result is `json_from_bytes`.
#[verifier::external_body]
pub(crate) fn parse_json(bytes: &[u8]) -> (r: Option<serde_json::Value>)
    ensures
        r == json_from_bytes(bytes@),
{
    serde_json::from_slice::<serde_json::Value>(bytes).ok()
}

} // verus!
