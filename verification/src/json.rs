//! Reading JSON text with serde_json: whether it parses, and the values that the library
//! reads from it. Each read parses the text into a `serde_json::Value` and looks a value
//! up in it; what a read gives is named, since serde_json's grammar takes pages to state.
//! Text that is not JSON has no values.
use vstd::prelude::*;
use crate::text::opt_view;

verus! {

/// The message serde_json gives when `text` is not JSON, or `None` when it is.
pub uninterp spec fn json_parse_error(text: Seq<char>) -> Option<Seq<char>>;

/// Parses `text` with `serde_json::from_str::<serde_json::Value>` and gives the error's
/// message when it fails. The contract claims only that the result is the named
/// [`json_parse_error`] of the text.
#[verifier::external_body]
pub(crate) fn json_error_of(text: &str) -> (r: Option<String>)
    ensures
        opt_view(r) == json_parse_error(text@),
{
    serde_json::from_str::<serde_json::Value>(text).err().map(|e| e.to_string())
}

/// The text under `key` in the JSON object `json`: `None` when `json` does not parse,
/// is not an object, has no such key, or holds something other than a string there.
pub uninterp spec fn json_text_field(json: Seq<char>, key: Seq<char>) -> Option<Seq<char>>;

/// Parses `json` with serde_json and reads `key` with `Value::get` and `Value::as_str`.
/// The contract claims only that the result is the named [`json_text_field`].
#[verifier::external_body]
pub(crate) fn json_text_field_of(json: &str, key: &str) -> (r: Option<String>)
    ensures
        opt_view(r) == json_text_field(json@, key@),
{
    serde_json::from_str::<serde_json::Value>(json).ok().and_then(
        |v| v.get(key).and_then(|x| x.as_str()).map(|s| s.to_string()),
    )
}

/// The integer under `key` in the JSON object `json`, when it is one that fits an `i64`.
pub uninterp spec fn json_int_field(json: Seq<char>, key: Seq<char>) -> Option<i64>;

/// Parses `json` with serde_json and reads `key` with `Value::get` and `Value::as_i64`.
/// The contract claims only that the result is the named [`json_int_field`].
#[verifier::external_body]
pub(crate) fn json_int_field_of(json: &str, key: &str) -> (r: Option<i64>)
    ensures
        r == json_int_field(json@, key@),
{
    serde_json::from_str::<serde_json::Value>(json).ok().and_then(|v| v.get(key).and_then(|x| x.as_i64()))
}

/// The entries of the array under `key` in `json`, each read as the texts under `first`
/// and `second` (each `None` when absent or not a string); no entries when there is no
/// such array.
pub uninterp spec fn json_entry_pairs(json: Seq<char>, key: Seq<char>, first: Seq<char>, second: Seq<char>) -> Seq<(Option<Seq<char>>, Option<Seq<char>>)>;

/// The view of a list of optional text pairs.
pub open spec fn pairs_view(v: Seq<(Option<String>, Option<String>)>) -> Seq<(Option<Seq<char>>, Option<Seq<char>>)> {
    Seq::new(v.len(), |i: int| (opt_view(v[i].0), opt_view(v[i].1)))
}

/// Parses `json` with serde_json and reads the array under `key` (`Value::as_array`),
/// each entry's `first` and `second` with `Value::get` and `Value::as_str`. The contract
/// claims only that the result is the named [`json_entry_pairs`].
#[verifier::external_body]
pub(crate) fn json_entry_pairs_of(json: &str, key: &str, first: &str, second: &str) -> (r: Vec<(Option<String>, Option<String>)>)
    ensures
        pairs_view(r@) == json_entry_pairs(json@, key@, first@, second@),
{
    let v = serde_json::from_str::<serde_json::Value>(json).unwrap_or_default();
    let items = v.get(key).and_then(|a| a.as_array()).cloned().unwrap_or_default();
    items.iter().map(
        |e| (e.get(first).and_then(|x| x.as_str()).map(|s| s.to_string()), e.get(second).and_then(|x| x.as_str()).map(|s| s.to_string())),
    ).collect()
}

/// The entries of the array under `key` in `json`, each read as the text under `name`,
/// or as the entry itself when it is a string (`None` when it is neither); no entries
/// when there is no such array.
pub uninterp spec fn json_entry_names(json: Seq<char>, key: Seq<char>, name: Seq<char>) -> Seq<Option<Seq<char>>>;

/// The view of a list of optional texts.
pub open spec fn opts_view(v: Seq<Option<String>>) -> Seq<Option<Seq<char>>> {
    Seq::new(v.len(), |i: int| opt_view(v[i]))
}

/// Parses `json` with serde_json and reads the array under `key`, each entry's `name`
/// (`Value::get`, `Value::as_str`), else the entry itself (`Value::as_str`). The
/// contract claims only that the result is the named [`json_entry_names`].
#[verifier::external_body]
pub(crate) fn json_entry_names_of(json: &str, key: &str, name: &str) -> (r: Vec<Option<String>>)
    ensures
        opts_view(r@) == json_entry_names(json@, key@, name@),
{
    let v = serde_json::from_str::<serde_json::Value>(json).unwrap_or_default();
    let items = v.get(key).and_then(|a| a.as_array()).cloned().unwrap_or_default();
    items.iter().map(|e| e.get(name).and_then(|x| x.as_str()).or_else(|| e.as_str()).map(|s| s.to_string())).collect()
}

} // verus!
