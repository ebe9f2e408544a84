//! The few JSON documents the library reads, through `serde_json`.

use vstd::prelude::*;

verus! {

/// The `id` (string) and `java_version` (number fitting 32 bits) members of a server
/// jar's `version.json`; `None` when the text is not JSON.
pub uninterp spec fn version_json_fields(text: Seq<char>) -> Option<(Option<Seq<char>>, Option<u32>)>;

/// `serde_json::from_str` into a `Value`, then the `id` and `java_version` members.
/// A member of another type reads as absent.
#[verifier::external_body]
pub(crate) fn version_json(text: &str) -> (r: Option<(Option<String>, Option<u32>)>)
    ensures
        match r {
            Some((id, java)) => version_json_fields(text@) == Some((
                match id {
                    Some(s) => Some(s@),
                    None => None::<Seq<char>>,
                },
                java,
            )),
            None => version_json_fields(text@) is None,
        },
{
    let v: serde_json::Value = serde_json::from_str(text).ok()?;
    let id = v.get("id").and_then(|x| x.as_str()).map(|s| s.to_string());
    let java = v.get("java_version").and_then(|x| x.as_u64()).and_then(|n| u32::try_from(n).ok());
    Some((id, java))
}

/// The `action`, `target` and `by` members of a command request, each where it is a
/// string; a body that is not JSON has none of them.
pub uninterp spec fn command_fields(body: Seq<u8>) -> (Option<Seq<char>>, Option<Seq<char>>, Option<Seq<char>>);

/// `serde_json::from_slice` into a `Value` (`Null` when the body is not JSON), then the
/// three members read with `as_str`.
#[verifier::external_body]
pub(crate) fn command_json(body: &[u8]) -> (r: (Option<String>, Option<String>, Option<String>))
    ensures
        (crate::text::opt_view(r.0), crate::text::opt_view(r.1), crate::text::opt_view(r.2)) == command_fields(body@),
{
    let v: serde_json::Value = serde_json::from_slice(body).unwrap_or_default();
    (v["action"].as_str().map(String::from), v["target"].as_str().map(String::from), v["by"].as_str().map(String::from))
}

/// How serde_json writes one character inside a string: the quote, the backslash and the
/// control characters below U+0020 are escaped (the five with a short escape so, the rest
/// as `\u00` and two lowercase hex digits); every other character is written as it is.
pub open spec fn json_escape(c: char) -> Seq<char> {
    if c == '"' {
        seq!['\\', '"']
    } else if c == '\\' {
        seq!['\\', '\\']
    } else if c == '\u{8}' {
        seq!['\\', 'b']
    } else if c == '\u{c}' {
        seq!['\\', 'f']
    } else if c == '\n' {
        seq!['\\', 'n']
    } else if c == '\r' {
        seq!['\\', 'r']
    } else if c == '\t' {
        seq!['\\', 't']
    } else if (c as u32) < 0x20 {
        seq!['\\', 'u', '0', '0'] + crate::digest::hex_lower(seq![c as u8])
    } else {
        seq![c]
    }
}

/// A JSON string literal as serde_json writes it.
pub open spec fn json_string(s: Seq<char>) -> Seq<char> {
    seq!['"'] + s.map_values(|c: char| json_escape(c)).flatten() + seq!['"']
}

/// serde_json's compact text of an object with one string member: `{"key":"value"}`.
pub open spec fn json_object_text(key: Seq<char>, value: Seq<char>) -> Seq<char> {
    seq!['{'] + json_string(key) + seq![':'] + json_string(value) + seq!['}']
}

/// A `serde_json::Value::Object` holding `key: value`, written with `to_string` (the
/// compact formatter, escaping as `json_escape` says).
#[verifier::external_body]
pub(crate) fn json_object(key: &str, value: &str) -> (r: String)
    ensures
        r@ == json_object_text(key@, value@),
{
    let mut m = serde_json::Map::new();
    m.insert(key.to_string(), serde_json::Value::String(value.to_string()));
    serde_json::Value::Object(m).to_string()
}

} // verus!
