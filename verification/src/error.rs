//! The errors of the library.

use vstd::prelude::*;
use crate::json::JsonValue;

verus! {

/// The result of the library's operations.
pub type Result<T> = core::result::Result<T, Error>;

/// Everything that can go wrong when building requests, interpreting
/// responses and verifying webhooks.
#[derive(Debug)]
pub enum Error {
    /// The API token is empty.
    MissingToken,
    /// The API answered with an error status.
    Http { status: u16, message: String, body: Option<JsonValue> },
    /// The API answered `422 Unprocessable Entity`.
    Validation { error_type: String, body: Option<JsonValue> },
    /// The HTTP client failed; its message.
    Request(String),
    /// A header name or value is not valid HTTP.
    InvalidHeader(String),
    /// A response body is not the JSON that was expected; the parser's message.
    Json(String),
    /// The webhook signature does not match the payload.
    InvalidSignature,
    /// The webhook signature header is malformed.
    InvalidSignatureFormat,
    /// The signature's timestamp differs from the delivery header's.
    TimestampMismatch,
    /// The signature's timestamp is too far from the current time.
    TimestampOutsideTolerance { difference_seconds: i64, tolerance_seconds: i64 },
    /// The webhook secret is empty.
    MissingWebhookSecret,
    /// The webhook payload is not JSON; the parser's message.
    InvalidWebhookJson(String),
    /// The HMAC key was refused.
    InvalidHmacKey,
}

} // verus!
