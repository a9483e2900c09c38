//! Texts in JSON replies.
use crate::path;
use vstd::prelude::*;

verus! {

/// The text under a key of a JSON object, as `serde_json` reads it.
pub uninterp spec fn json_text(body: Seq<char>, key: Seq<char>) -> Option<Seq<char>>;

/// The text under a key of the first object in a list, where the list stands
/// under a key of a JSON object, as `serde_json` reads it.
pub uninterp spec fn json_first_text(body: Seq<char>, list: Seq<char>, key: Seq<char>) -> Option<
    Seq<char>,
>;

/// Calls `serde_json::from_str` and looks a key up with `Value::get` and
/// `Value::as_str`. `None` where the reply is no JSON, is no object, lacks the
/// key, or has no text under it; what is found depends on the reply and the key
/// alone.
#[verifier::external_body]
pub(crate) fn text_under(body: &str, key: &str) -> (r: Option<String>)
    ensures
        path::opt_text(r) == json_text(body@, key@),
{
    let value: serde_json::Value = serde_json::from_str(body).ok()?;
    value.get(key).and_then(|v| v.as_str()).map(str::to_owned)
}

/// Calls `serde_json::from_str` and walks to a text with `Value::get`,
/// `Value::as_array` and `Value::as_str`: a list under one key, its first item,
/// and a text under another key of that. `None` where a step leads nowhere; what
/// is found depends on the reply and the keys alone.
#[verifier::external_body]
pub(crate) fn text_in_first(body: &str, list: &str, key: &str) -> (r: Option<String>)
    ensures
        path::opt_text(r) == json_first_text(body@, list@, key@),
{
    let value: serde_json::Value = serde_json::from_str(body).ok()?;
    let item = value.get(list)?.as_array()?.first()?;
    item.get(key)?.as_str().map(str::to_owned)
}

} // verus!
