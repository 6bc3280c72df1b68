//! Publishing: the endpoint a completed draft is sent to and the reading of
//! the service's answer.

use vstd::prelude::*;
use crate::json::{json_has_field, json_ok, json_string_field, read_member};

verus! {

/// How the service answered a publish request. A rejection is reported and
/// the batch goes on; it is not a transport failure.
#[derive(PartialEq, Eq, Debug)]
pub enum PublishOutcome {
    /// The response carried no `error` field: the post was accepted.
    Accepted,
    /// The response carried an `error` field; its text, when it was a string.
    ApplicationError(Option<String>),
    /// The response was not a JSON document.
    MalformedResponse,
}

/// The publish endpoint on a given instance.
pub fn posts_url(domain: &str) -> (r: String)
    ensures
        r@ == "https://"@ + domain@ + "/api/v1/posts/"@,
{
    let mut s = "https://".to_owned();
    s.append(domain);
    s.append("/api/v1/posts/");
    s
}

/// The outcome for a given `error` field: an absent field is acceptance; a
/// present one is a rejection carrying whatever text the field held.
pub fn outcome_of_error_field(error: Option<Option<String>>) -> (r: PublishOutcome)
    ensures
        error is None ==> r == PublishOutcome::Accepted,
        error matches Some(m) ==> r == PublishOutcome::ApplicationError(m),
{
    match error {
        None => PublishOutcome::Accepted,
        Some(m) => PublishOutcome::ApplicationError(m),
    }
}

/// Reads a publish response body. A body that is not JSON is a malformed
/// response; a well-formed body without an `error` member is acceptance; one
/// with an `error` member is a rejection carrying the member's text when it
/// is a string.
pub fn interpret_publish_response(body: &str) -> (r: PublishOutcome)
    ensures
        !json_ok(body@) ==> r == PublishOutcome::MalformedResponse,
        json_ok(body@) && !json_has_field(body@, "error"@) ==> r == PublishOutcome::Accepted,
        json_ok(body@) && json_has_field(body@, "error"@) ==> (r matches
            PublishOutcome::ApplicationError(m) && m.deep_view() == json_string_field(
            body@,
            "error"@,
        )),
{
    match read_member(body, "error") {
        None => PublishOutcome::MalformedResponse,
        Some((present, text)) => {
            if present {
                outcome_of_error_field(Some(text))
            } else {
                outcome_of_error_field(None)
            }
        },
    }
}

} // verus!
