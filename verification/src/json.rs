//! What the library asks of `serde_json`: whether a text is JSON, the
//! string or unsigned members of a JSON object text, and the reply members
//! of a chat-completion body.

use vstd::prelude::*;

verus! {

/// Whether `serde_json` parses `text` as a JSON value.
pub uninterp spec fn json_parses(text: Seq<char>) -> bool;

/// `serde_json::from_str::<serde_json::Value>`, reduced to success or
/// failure: the result is the name `json_parses` of the text; nothing more
/// is claimed of which texts parse.
#[verifier::external_body]
pub(crate) fn json_is_valid(text: &str) -> (ok: bool)
    ensures
        ok == json_parses(text@),
{
    serde_json::from_str::<serde_json::Value>(text).is_ok()
}

/// The string member `key` of the JSON object `text`, as `serde_json` reads
/// it.
pub uninterp spec fn json_str_field(text: Seq<char>, key: Seq<char>) -> Option<Seq<char>>;

/// The unsigned integer member `key` of the JSON object `text`, as
/// `serde_json` reads it.
pub uninterp spec fn json_u64_field(text: Seq<char>, key: Seq<char>) -> Option<u64>;

/// `serde_json::from_str::<Value>` then `Value::get(key)` and
/// `Value::as_str`: the string member `key` of the JSON text, if the text
/// parses and has one. The result is named `json_str_field`; the only fact
/// stated of it is that a text that does not parse has no member.
#[verifier::external_body]
pub(crate) fn json_string_member(text: &str, key: &str) -> (r: Option<String>)
    ensures
        r matches Some(s) ==> json_str_field(text@, key@) == Some(s@),
        r is None ==> json_str_field(text@, key@) is None,
        !json_parses(text@) ==> r is None,
{
    let value: serde_json::Value = serde_json::from_str(text).ok()?;
    value.get(key).and_then(|v| v.as_str()).map(|s| s.to_string())
}

/// `serde_json::from_str::<Value>` then `Value::get(key)` and
/// `Value::as_u64`: the unsigned integer member `key` of the JSON text, if
/// the text parses and has one. The result is named `json_u64_field`; the
/// only fact stated of it is that a text that does not parse has no member.
#[verifier::external_body]
pub(crate) fn json_u64_member(text: &str, key: &str) -> (r: Option<u64>)
    ensures
        r == json_u64_field(text@, key@),
        !json_parses(text@) ==> r is None,
{
    let value: serde_json::Value = serde_json::from_str(text).ok()?;
    value.get(key).and_then(|v| v.as_u64())
}

/// `value["choices"][0]["message"]["content"]` of the JSON text, as
/// `serde_json` indexes it, when it is a string.
pub uninterp spec fn json_reply_content(text: Seq<char>) -> Option<Seq<char>>;

/// `value["choices"][0]["text"]` of the JSON text, as `serde_json` indexes
/// it, when it is a string.
pub uninterp spec fn json_reply_text(text: Seq<char>) -> Option<Seq<char>>;

/// `serde_json::from_str::<Value>`, then indexing with `["choices"][0]
/// ["message"]["content"]` and `Value::as_str`: the message content of a
/// chat-completion body. The result is named `json_reply_content`; the only
/// fact stated of it is that a text that does not parse has none.
#[verifier::external_body]
pub(crate) fn reply_content_member(text: &str) -> (r: Option<String>)
    ensures
        r matches Some(s) ==> json_reply_content(text@) == Some(s@),
        r is None ==> json_reply_content(text@) is None,
        !json_parses(text@) ==> r is None,
{
    let value: serde_json::Value = serde_json::from_str(text).ok()?;
    value["choices"][0]["message"]["content"].as_str().map(|s| s.to_string())
}

/// `serde_json::from_str::<Value>`, then indexing with `["choices"][0]
/// ["text"]` and `Value::as_str`: the completion text of a chat-completion
/// body. The result is named `json_reply_text`; the only fact stated of it
/// is that a text that does not parse has none.
#[verifier::external_body]
pub(crate) fn reply_text_member(text: &str) -> (r: Option<String>)
    ensures
        r matches Some(s) ==> json_reply_text(text@) == Some(s@),
        r is None ==> json_reply_text(text@) is None,
        !json_parses(text@) ==> r is None,
{
    let value: serde_json::Value = serde_json::from_str(text).ok()?;
    value["choices"][0]["text"].as_str().map(|s| s.to_string())
}

} // verus!
