//! What the decoder has from `serde_json`: parsing a text into a JSON value,
//! and looking into such a value. Nothing here is proved; each contract
//! names what the call returns, so that the decoder can be exact about what
//! it makes of it.

use vstd::prelude::*;

verus! {

/// `serde_json::Value`, a parsed JSON value. It is carried as it is: what
/// it holds is known through the wrappers below alone.
#[verifier::external_type_specification]
#[verifier::external_body]
pub struct ExValue(serde_json::Value);

/// `serde_json::Error`, the error of a failed parse. It is carried as it
/// is, and only its text is asked for.
#[verifier::external_type_specification]
#[verifier::external_body]
pub struct ExError(serde_json::Error);

/// What `serde_json::from_str` makes of a text: the JSON value that the
/// text denotes, or the error that it reports.
pub uninterp spec fn json_of(text: Seq<char>) -> Result<serde_json::Value, serde_json::Error>;

/// The text that `serde_json::Error` displays.
pub uninterp spec fn error_text(error: serde_json::Error) -> Seq<char>;

/// The keys of a JSON object, in the order in which `serde_json::Map::keys`
/// yields them; `None` for a value that is no object.
pub uninterp spec fn object_keys(value: serde_json::Value) -> Option<Seq<Seq<char>>>;

/// What `serde_json::Value::get` finds under a key.
pub uninterp spec fn member(value: serde_json::Value, key: Seq<char>) -> Option<
    serde_json::Value,
>;

/// The text of a JSON string, as `serde_json::Value::as_str` gives it;
/// `None` for a value that is no string.
pub uninterp spec fn text_of(value: serde_json::Value) -> Option<Seq<char>>;

/// Calls `serde_json::from_str` for a `serde_json::Value`. The contract
/// gives the result its name and claims nothing else of it.
#[verifier::external_body]
pub(crate) fn parse(text: &str) -> (parsed: Result<serde_json::Value, serde_json::Error>)
    ensures
        parsed == json_of(text@),
{
    serde_json::from_str::<serde_json::Value>(text)
}

/// Calls `to_string` on a `serde_json::Error`, which goes through its
/// `Display`. The contract gives the text its name.
#[verifier::external_body]
pub(crate) fn error_message(error: &serde_json::Error) -> (message: String)
    ensures
        message@ == error_text(*error),
{
    error.to_string()
}

/// Calls `serde_json::Map::keys` on the map of an object and copies the
/// keys out in the order of the iterator. The contract names them, and
/// claims that no key occurs twice, as in any map.
#[verifier::external_body]
pub(crate) fn keys_of(value: &serde_json::Value) -> (keys: Option<Vec<String>>)
    ensures
        match keys {
            Some(names) => object_keys(*value) == Some(names.deep_view())
                && names.deep_view().no_duplicates(),
            None => object_keys(*value) is None,
        },
{
    match value {
        serde_json::Value::Object(map) => Some(map.keys().cloned().collect()),
        _ => None,
    }
}

/// Calls `serde_json::Value::get` with a key. The contract gives the
/// result its name.
#[verifier::external_body]
pub(crate) fn member_of<'a>(value: &'a serde_json::Value, key: &str) -> (found: Option<
    &'a serde_json::Value,
>)
    ensures
        match found {
            Some(inner) => member(*value, key@) == Some(*inner),
            None => member(*value, key@) is None,
        },
{
    value.get(key)
}

/// Calls `serde_json::Value::as_str` and copies the text. The contract
/// gives the text its name.
#[verifier::external_body]
pub(crate) fn text_in(value: &serde_json::Value) -> (text: Option<String>)
    ensures
        match text {
            Some(s) => text_of(*value) == Some(s@),
            None => text_of(*value) is None,
        },
{
    value.as_str().map(str::to_owned)
}

} // verus!
