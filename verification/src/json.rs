//! Trusted boundary to the JSON library: whether a response body parses as
//! JSON, and what member a key has in it. Both are functions of the text
//! alone, so they are given names here that the callers' contracts speak of.

use vstd::prelude::*;

verus! {

/// Whether the text is a well-formed JSON document, as serde_json accepts it.
pub uninterp spec fn json_ok(body: Seq<char>) -> bool;

/// Whether the well-formed document is an object with a member under `key`.
pub uninterp spec fn json_has_field(body: Seq<char>, key: Seq<char>) -> bool;

/// The text of the member under `key`, when the well-formed document has one
/// and it is a string.
pub uninterp spec fn json_string_field(body: Seq<char>, key: Seq<char>) -> Option<Seq<char>>;

/// Relies on serde_json::from_str, Value::get and Value::as_str: `None` for a
/// body that is not a JSON document; otherwise whether the member under `key`
/// is present, and its text when it is a string.
#[verifier::external_body]
pub fn read_member(body: &str, key: &str) -> (r: Option<(bool, Option<String>)>)
    ensures
        (r is Some) == json_ok(body@),
        r matches Some(p) ==> p.0 == json_has_field(body@, key@) && p.1.deep_view()
            == json_string_field(body@, key@),
{
    match serde_json::from_str::<serde_json::Value>(body) {
        Err(_) => None,
        Ok(v) => {
            let member = v.get(key);
            let text = member.and_then(|m| m.as_str()).map(str::to_owned);
            Some((member.is_some(), text))
        },
    }
}

} // verus!
