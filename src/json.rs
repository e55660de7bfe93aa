//! The JSON parser that reads the statistics object, and what this library
//! relies on of it.
use vstd::prelude::*;

verus! {

/// A parsed JSON document, opaque here.
#[verifier::external_type_specification]
#[verifier::external_body]
pub struct ExValue(serde_json::Value);

/// Why a text is not JSON, opaque here.
#[verifier::external_type_specification]
#[verifier::external_body]
pub struct ExError(serde_json::Error);

/// The members of a parsed JSON document whose values are JSON strings, by
/// key; empty where the document is not an object.
pub uninterp spec fn json_str_members(v: serde_json::Value) -> Map<Seq<char>, Seq<char>>;

/// What parsing `text` as JSON gives: `None` where it is not JSON, else the
/// string-valued members of the document.
pub uninterp spec fn parsed_str_members(text: Seq<char>) -> Option<Map<Seq<char>, Seq<char>>>;

/// Relies on `serde_json::from_str` into a `serde_json::Value`: it fails
/// exactly on text that is not JSON, and the document it returns depends on the
/// text alone.
#[verifier::external_body]
pub(crate) fn parse_json(text: &str) -> (r: Result<serde_json::Value, serde_json::Error>)
    ensures
        r is Ok <==> parsed_str_members(text@) is Some,
        r matches Ok(v) ==> parsed_str_members(text@) == Some(json_str_members(v)),
{
    serde_json::from_str(text)
}

/// Relies on `serde_json::Value::get` with a string key, followed by
/// `serde_json::Value::as_str`: the member `key` of an object, where it is a
/// JSON string.
#[verifier::external_body]
pub(crate) fn str_member<'a>(v: &'a serde_json::Value, key: &str) -> (r: Option<&'a str>)
    ensures
        match r {
            Some(s) => json_str_members(*v).contains_key(key@) && json_str_members(*v)[key@]
                == s@,
            None => !json_str_members(*v).contains_key(key@),
        },
{
    match v.get(key) {
        Some(member) => member.as_str(),
        None => None,
    }
}

} // verus!
