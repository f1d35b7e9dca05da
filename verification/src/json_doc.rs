use vstd::prelude::*;

verus! {

/// Whether `serde_json` reads `text` as a JSON document (`from_str` into a
/// `Value` succeeds).
pub uninterp spec fn json_parses(text: Seq<char>) -> bool;

/// The number stored under `key` in the JSON object `text`, as the text
/// `serde_json` writes it back (`Number`'s `Display`): `None` where `text`
/// is not JSON, is not an object with that key, or the value is not a
/// number.
pub uninterp spec fn json_number_text(text: Seq<char>, key: Seq<char>) -> Option<Seq<char>>;

/// The entries of the JSON array `text`, each as the string under its
/// `code` and the number under its `value` (as `json_number_text` writes
/// it), either `None` where absent or of another kind; `None` where `text`
/// is not JSON or not an array.
pub uninterp spec fn json_code_value_entries(text: Seq<char>) -> Option<Seq<(Option<Seq<char>>, Option<Seq<char>>)>>;

/// Calls `serde_json::from_str::<Value>` and tells whether it succeeded. The
/// contract names the result; the JSON grammar is not stated.
#[verifier::external_body]
pub(crate) fn json_is_valid(text: &str) -> (r: bool)
    ensures
        r == json_parses(text@),
{
    serde_json::from_str::<serde_json::Value>(text).is_ok()
}

/// Parses `text` with `serde_json`, reads `key` with `Value::get`, then
/// `Value::as_number`, and writes the number back as text. The contract
/// names the result; the JSON grammar and number formatting are not stated.
#[verifier::external_body]
pub(crate) fn json_number_text_at(text: &str, key: &str) -> (r: Option<String>)
    ensures
        r.deep_view() == json_number_text(text@, key@),
{
    match serde_json::from_str::<serde_json::Value>(text) {
        Ok(v) => match v.get(key).and_then(|x| x.as_number()) {
            Some(n) => Some(n.to_string()),
            None => None,
        },
        Err(_) => None,
    }
}

/// Parses `text` with `serde_json`, takes the array with `Value::as_array`
/// and turns each item into the `as_str` of its `code` and the `as_number`
/// of its `value`, written back as text. The contract names the result; the
/// JSON grammar is not stated.
#[verifier::external_body]
pub(crate) fn json_code_value_entries_of(text: &str) -> (r: Option<Vec<(Option<String>, Option<String>)>>)
    ensures
        r.deep_view() == json_code_value_entries(text@),
{
    let v = serde_json::from_str::<serde_json::Value>(text).ok()?;
    Some(v.as_array()?.iter().map(|item| (
        item.get("code").and_then(|c| c.as_str()).map(String::from),
        item.get("value").and_then(|x| x.as_number()).map(|n| n.to_string()),
    )).collect())
}

} // verus!
