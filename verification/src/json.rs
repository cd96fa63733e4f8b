//! What the library reads from and writes as JSON text.
//!
//! The JSON grammar itself is serde_json's business. The functions here hand
//! it text and take back plain values; what they return is believed, not
//! proved.

use vstd::prelude::*;

verus! {

/// A JSON number as the library sees it.
pub struct JsonNumber {
    /// The number, where it is a whole number from `0` to `u64::MAX`.
    pub unsigned: Option<u64>,
    /// The number written out in decimal text.
    pub text: String,
}

/// The mathematical content of a [`JsonNumber`].
pub struct JsonNumberView {
    pub unsigned: Option<u64>,
    pub text: Seq<char>,
}

impl View for JsonNumber {
    type V = JsonNumberView;

    open spec fn view(&self) -> JsonNumberView {
        JsonNumberView { unsigned: self.unsigned, text: self.text@ }
    }
}

/// The member `key` of the JSON object that the bytes `text` hold, where
/// they are well-formed JSON, hold an object with such a member, and the
/// member is a number; `None` in every other case.
pub uninterp spec fn json_number_member(text: Seq<u8>, key: Seq<char>) -> Option<JsonNumberView>;

/// Parses `text` with `serde_json::from_slice` into a `serde_json::Value`,
/// looks `key` up with `Value::get`, and for a `Value::Number` returns what
/// `Number::as_u64` and the number's `to_string` give. The contract only
/// names that result: the same bytes and key always give the same answer.
#[verifier::external_body]
pub(crate) fn number_member(text: &[u8], key: &str) -> (r: Option<JsonNumber>)
    ensures
        match r {
            Some(n) => json_number_member(text@, key@) == Some(n@),
            None => json_number_member(text@, key@) is None,
        },
{
    let value: serde_json::Value = serde_json::from_slice(text).ok()?;
    match value.get(key) {
        Some(serde_json::Value::Number(n)) => Some(
            JsonNumber { unsigned: n.as_u64(), text: n.to_string() },
        ),
        _ => None,
    }
}

/// The compact JSON text of the object whose only member is `key`, with
/// the string `value`.
pub uninterp spec fn json_object_text(key: Seq<char>, value: Seq<char>) -> Seq<char>;

/// Makes an empty `serde_json::Map`, puts `value` under `key` with
/// `Map::insert` as a `Value::String`, and writes the `Value::Object` out
/// with `to_string`, which prints compact JSON. The contract only names the
/// text.
#[verifier::external_body]
pub(crate) fn object_text(key: &str, value: &str) -> (r: String)
    ensures
        r@ == json_object_text(key@, value@),
{
    let mut members = serde_json::Map::new();
    members.insert(key.to_owned(), serde_json::Value::String(value.to_owned()));
    serde_json::Value::Object(members).to_string()
}

} // verus!
