//! The few facts the library reads out of JSON text, through `serde_json`.
use vstd::prelude::*;

verus! {

/// The member names of the object stored under `key` in the top-level JSON value of `text`:
/// `None` when the text is not JSON or that member is absent or not an object.
pub uninterp spec fn json_member_keys(text: Seq<char>, key: Seq<char>) -> Option<Seq<Seq<char>>>;

/// The string stored under `key` in the top-level JSON value of `text`: `None` when the text is
/// not JSON or that member is absent or not a string.
pub uninterp spec fn json_member_str(text: Seq<char>, key: Seq<char>) -> Option<Seq<char>>;

/// Parses `text` with `serde_json::from_str::<serde_json::Value>`, then takes
/// `get(key)`, `as_object()` and the object's `keys()`. The contract names the result (a
/// function of the text and key alone) and does not state the order of the keys.
#[verifier::external_body]
pub(crate) fn member_keys(text: &str, key: &str) -> (r: Option<Vec<String>>)
    ensures
        r matches Some(v) ==> json_member_keys(text@, key@) == Some(v@.map_values(|s: String| s@)),
        r is None ==> json_member_keys(text@, key@) is None,
{
    let v = serde_json::from_str::<serde_json::Value>(text).ok()?;
    let obj = v.get(key)?.as_object()?;
    Some(obj.keys().cloned().collect())
}

/// Parses `text` with `serde_json::from_str::<serde_json::Value>`, then takes `get(key)` and
/// `as_str()`. The contract names the result, a function of the text and key alone.
#[verifier::external_body]
pub(crate) fn member_str(text: &str, key: &str) -> (r: Option<String>)
    ensures
        r matches Some(v) ==> json_member_str(text@, key@) == Some(v@),
        r is None ==> json_member_str(text@, key@) is None,
{
    let v = serde_json::from_str::<serde_json::Value>(text).ok()?;
    v.get(key)?.as_str().map(String::from)
}

/// Whether the top-level JSON value of `text` is an object with a member `key`, of any type:
/// `false` when the text is not JSON.
pub uninterp spec fn json_has_member(text: Seq<char>, key: Seq<char>) -> bool;

/// Parses `text` with `serde_json::from_str::<serde_json::Value>` and tells whether
/// `get(key)` finds a member. The contract names the result, a function of the text and key
/// alone.
#[verifier::external_body]
pub(crate) fn has_member(text: &str, key: &str) -> (r: bool)
    ensures
        r == json_has_member(text@, key@),
{
    match serde_json::from_str::<serde_json::Value>(text) {
        Ok(v) => v.get(key).is_some(),
        Err(_) => false,
    }
}

/// Whether `text` is JSON at all: `serde_json::from_str::<serde_json::Value>` accepts it.
pub uninterp spec fn json_parses(text: Seq<char>) -> bool;

/// Parses `text` with `serde_json::from_str::<serde_json::Value>` and tells whether that
/// succeeded. The contract names the result, a function of the text alone.
#[verifier::external_body]
pub(crate) fn parses_as_json(text: &str) -> (r: bool)
    ensures
        r == json_parses(text@),
{
    serde_json::from_str::<serde_json::Value>(text).is_ok()
}

/// For the JSON text of a DevTools `/json/list` reply: the parse error's message, `None` when the
/// top-level value is not an array, or each element's `type` and `webSocketDebuggerUrl` (each
/// when it is a string).
pub uninterp spec fn json_target_fields(text: Seq<char>) -> Result<
    Option<Seq<(Option<Seq<char>>, Option<Seq<char>>)>>,
    Seq<char>,
>;

pub open spec fn opt_text_view(o: Option<String>) -> Option<Seq<char>> {
    match o {
        Some(s) => Some(s@),
        None => None,
    }
}

pub open spec fn target_fields_view(v: Seq<(Option<String>, Option<String>)>) -> Seq<(Option<Seq<char>>, Option<Seq<char>>)> {
    v.map_values(|t: (Option<String>, Option<String>)| (opt_text_view(t.0), opt_text_view(t.1)))
}

/// Parses `text` with `serde_json::from_str::<serde_json::Value>`; on failure gives the
/// error's `to_string()`, otherwise `as_array()` and, per element, `get("type")` and
/// `get("webSocketDebuggerUrl")` through `as_str()`. The contract names the result, a function
/// of the text alone.
#[verifier::external_body]
pub(crate) fn target_fields(text: &str) -> (r: Result<Option<Vec<(Option<String>, Option<String>)>>, String>)
    ensures
        json_target_fields(text@) == match r {
            Ok(Some(v)) => Ok(Some(target_fields_view(v@))),
            Ok(None) => Ok(None),
            Err(m) => Err(m@),
        },
{
    let v = serde_json::from_str::<serde_json::Value>(text).map_err(|e| e.to_string())?;
    Ok(v.as_array().map(|arr| arr.iter().map(|t| (
        t.get("type").and_then(|x| x.as_str()).map(String::from),
        t.get("webSocketDebuggerUrl").and_then(|x| x.as_str()).map(String::from),
    )).collect()))
}

/// For the JSON text of a DevTools protocol message: `None` when it is not JSON, otherwise its
/// `id` (as an unsigned integer), its `error` member (as JSON text) and the string at
/// `/result/result/value`, each when present.
pub uninterp spec fn json_reply_fields(text: Seq<char>) -> Option<(Option<u64>, Option<Seq<char>>, Option<Seq<char>>)>;

/// Parses `text` with `serde_json::from_str::<serde_json::Value>` and reads `get("id")`
/// through `as_u64()`, `get("error")` through `to_string()`, and
/// `pointer("/result/result/value")` through `as_str()`. The contract names the result, a
/// function of the text alone.
#[verifier::external_body]
pub(crate) fn reply_fields(text: &str) -> (r: Option<(Option<u64>, Option<String>, Option<String>)>)
    ensures
        json_reply_fields(text@) == match r {
            Some((id, err, value)) => Some((id, opt_text_view(err), opt_text_view(value))),
            None => None,
        },
{
    let v = serde_json::from_str::<serde_json::Value>(text).ok()?;
    Some((
        v.get("id").and_then(|x| x.as_u64()),
        v.get("error").map(|e| e.to_string()),
        v.pointer("/result/result/value").and_then(|x| x.as_str()).map(String::from),
    ))
}

} // verus!
