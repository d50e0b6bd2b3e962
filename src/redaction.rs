use vstd::prelude::*;

use crate::error::GatewayError;

verus! {

/// The string stored under `key` at the top level of the JSON object `body`,
/// when `body` parses as JSON and holds a string there.
pub uninterp spec fn json_string_field(body: Seq<char>, key: Seq<char>) -> Option<Seq<char>>;

/// Relies on `serde_json::from_str` into a `Value`, then `Value::get` and
/// `Value::as_str`: the string field `key` of the JSON text `body`.
#[verifier::external_body]
fn string_field_of_json(body: &str, key: &str) -> (r: Option<String>)
    ensures
        r is Some <==> json_string_field(body@, key@) is Some,
        r is Some ==> json_string_field(body@, key@) == Some(r->0@),
{
    let value: serde_json::Value = serde_json::from_str(body).ok()?;
    Some(value.get(key)?.as_str()?.to_owned())
}

/// Whether an HTTP status code reports success (the 2xx range).
pub open spec fn is_success_status(status: u16) -> bool {
    200 <= status <= 299
}

/// The text of a string-valued result, or its error.
pub open spec fn text_result(r: Result<String, GatewayError>) -> Result<Seq<char>, GatewayError> {
    match r {
        Ok(s) => Ok(s@),
        Err(e) => Err(e),
    }
}

/// What a reply of the redaction service amounts to, given its status and the
/// `redacted_text` field found in its body.
pub open spec fn redaction_outcome_of(status: u16, field: Option<Seq<char>>) -> Result<
    Seq<char>,
    GatewayError,
> {
    if !is_success_status(status) {
        Err(GatewayError::Upstream)
    } else {
        match field {
            Some(t) => Ok(t),
            None => Err(GatewayError::Upstream),
        }
    }
}

/// Whether `status` is in the 2xx range.
pub fn is_success(status: u16) -> (r: bool)
    ensures
        r == is_success_status(status),
{
    200 <= status && status <= 299
}

/// Decides a reply of the redaction service from its status and the
/// `redacted_text` field read from its body: the sanitized text on success,
/// an upstream failure otherwise.
pub fn redaction_outcome(status: u16, redacted_text: Option<String>) -> (r: Result<
    String,
    GatewayError,
>)
    ensures
        text_result(r) == redaction_outcome_of(
            status,
            match redacted_text {
                Some(t) => Some(t@),
                None => None,
            },
        ),
{
    if !is_success(status) {
        return Err(GatewayError::Upstream);
    }
    match redacted_text {
        Some(t) => Ok(t),
        None => Err(GatewayError::Upstream),
    }
}

/// Decides a reply of the redaction service from its status and its body:
/// the body is read as JSON only on a 2xx status.
pub fn interpret_redaction_reply(status: u16, body: &str) -> (r: Result<String, GatewayError>)
    ensures
        text_result(r) == redaction_outcome_of(status, json_string_field(body@, "redacted_text"@)),
{
    if !is_success(status) {
        return Err(GatewayError::Upstream);
    }
    let field = string_field_of_json(body, "redacted_text");
    redaction_outcome(status, field)
}

} // verus!
