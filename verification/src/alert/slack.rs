//! The request that delivers a text to a Slack webhook.
//!
//! Delivery itself is best effort and left to the embedding program; what is
//! posted, and where, is decided here.

use vstd::prelude::*;
use vstd::string::*;

verus! {

/// The error of `serde_json`, carried through unopened.
#[verifier::external_type_specification]
#[verifier::external_body]
pub struct ExJsonError(serde_json::Error);

/// What `serde_json` gives for the JSON object whose one member has the
/// name `key` and the string `value` as its value: the bytes that it writes,
/// or `None` where it reports an error.
pub uninterp spec fn json_member_object(key: Seq<char>, value: Seq<char>) -> Option<Seq<u8>>;

/// Serialises the JSON object `{key: value}` with `serde_json::to_vec`, from
/// a `serde_json::Value::Object` built with `serde_json::Map::insert`. The
/// contract claims that the outcome is a function of the two texts: whether
/// there are bytes, and which. It does not claim that there are any, and
/// says nothing of the error.
#[verifier::external_body]
fn encode_member_object(key: &str, value: &str) -> (r: Result<Vec<u8>, serde_json::Error>)
    ensures
        match r {
            Ok(bytes) => json_member_object(key@, value@) == Some(bytes@),
            Err(_) => json_member_object(key@, value@) is None,
        },
{
    let mut object = serde_json::Map::new();
    object.insert(key.to_string(), serde_json::Value::String(value.to_string()));
    serde_json::to_vec(&serde_json::Value::Object(object))
}

/// The name of the member that carries the text of an alert.
pub open spec fn text_member() -> Seq<char> {
    "text"@
}

/// Why no request could be made.
#[derive(Clone, Copy, Debug, PartialEq, Eq, Structural)]
pub enum AlertError {
    /// The text could not be serialised.
    Encoding,
}

/// A POST to a webhook.
#[derive(Debug)]
pub struct WebhookRequest {
    pub url: String,
    pub content_type: String,
    pub body: Vec<u8>,
}

/// The media type of a JSON body.
pub open spec fn json_content_type() -> Seq<char> {
    "application/json"@
}

/// The POST that carries an already serialised body to `webhook_url`, or
/// the error that stands for a failed serialisation.
pub fn webhook_request(
    webhook_url: &str,
    encoded: Result<Vec<u8>, serde_json::Error>,
) -> (r: Result<WebhookRequest, AlertError>)
    ensures
        match encoded {
            Ok(bytes) => r matches Ok(request) && request.url@ == webhook_url@
                && request.content_type@ == json_content_type() && request.body@ == bytes@,
            Err(_) => r == Err::<WebhookRequest, AlertError>(AlertError::Encoding),
        },
{
    match encoded {
        Ok(bytes) => Ok(
            WebhookRequest {
                url: String::from_str(webhook_url),
                content_type: String::from_str("application/json"),
                body: bytes,
            },
        ),
        Err(_) => Err(AlertError::Encoding),
    }
}

/// The POST that delivers `text` to the Slack webhook at `webhook_url`: a
/// JSON body with `text` as its one member. There is a request exactly where
/// `serde_json` serialises the object, and the encoding error where it does
/// not.
pub fn slack_request(text: &str, webhook_url: &str) -> (r: Result<WebhookRequest, AlertError>)
    ensures
        match json_member_object(text_member(), text@) {
            Some(body) => r matches Ok(request) && request.url@ == webhook_url@
                && request.content_type@ == json_content_type() && request.body@ == body,
            None => r == Err::<WebhookRequest, AlertError>(AlertError::Encoding),
        },
{
    webhook_request(webhook_url, encode_member_object("text", text))
}

} // verus!
