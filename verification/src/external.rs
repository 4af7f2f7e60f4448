//! The calls this library makes into outside crates and into the parts of
//! `std` that vstd does not specify, each with the contract it is trusted to
//! meet, and the outside types that pass through the library.

use hmac::{Hmac, Mac};
use sha2::Sha256;
use vstd::prelude::*;
use vstd::utf8::encode_utf8;
use crate::json::JsonValue;

verus! {

/// `serde_json::Value`, a parsed JSON document; opaque to the library.
#[verifier::external_type_specification]
#[verifier::external_body]
pub struct ExJsonDocument(serde_json::Value);

/// `reqwest::Client`, the HTTP client of the default transport; opaque to the library.
#[verifier::external_type_specification]
#[verifier::external_body]
pub struct ExHttpClient(reqwest::Client);

/// What `serde_json::from_str::<serde_json::Value>` gives for `text`: the
/// JSON value, in the library's form, or the message of the parse error
/// (its `Display` text, which tells what went wrong and at which line and
/// column). This is a function of the text alone.
pub uninterp spec fn json_document(text: Seq<char>) -> Result<JsonValue, Seq<char>>;

/// The JSON value of `text`, or nothing when `text` is not a JSON document.
pub open spec fn parsed_json(text: Seq<char>) -> Option<JsonValue> {
    match json_document(text) {
        Ok(value) => Some(value),
        Err(_) => None,
    }
}

/// Calls `serde_json::from_str::<serde_json::Value>` and gives the value in
/// the library's form (`json_value_of`), or the parse error's message
/// (`to_string`). Trusted: the result is the one named by `json_document`.
#[verifier::external_body]
pub(crate) fn parse_json(text: &str) -> (r: Result<JsonValue, String>)
    ensures
        match r {
            Ok(value) => json_document(text@) == Ok::<JsonValue, Seq<char>>(value),
            Err(message) => json_document(text@) == Err::<JsonValue, Seq<char>>(message@),
        },
{
    match serde_json::from_str::<serde_json::Value>(text) {
        Ok(value) => Ok(json_value_of(value)),
        Err(e) => Err(e.to_string()),
    }
}

/// Turns a `serde_json::Value` into the library's `JsonValue`, one for one:
/// numbers keep their text, objects their entries in the order the value
/// holds them. Only `parse_json` calls it; what it gives is stated there,
/// through `json_document`.
#[verifier::external_body]
fn json_value_of(value: serde_json::Value) -> JsonValue {
    match value {
        serde_json::Value::Null => JsonValue::Null,
        serde_json::Value::Bool(b) => JsonValue::Bool(b),
        serde_json::Value::Number(n) => JsonValue::Number(n.to_string()),
        serde_json::Value::String(s) => JsonValue::Str(s),
        serde_json::Value::Array(items) => JsonValue::Array(items.into_iter().map(json_value_of).collect()),
        serde_json::Value::Object(entries) => JsonValue::Object(
            entries.into_iter().map(|(key, item)| (key, json_value_of(item))).collect(),
        ),
    }
}

/// The value of a hex digit byte, in either case.
pub open spec fn hex_digit_value(b: u8) -> Option<u8> {
    if 48 <= b && b <= 57 {
        Some((b - 48) as u8)
    } else if 97 <= b && b <= 102 {
        Some((b - 87) as u8)
    } else if 65 <= b && b <= 70 {
        Some((b - 55) as u8)
    } else {
        None
    }
}

/// What `hex::decode` returns for `text`: the bytes that consecutive pairs of
/// hex digits denote, or nothing when the length is odd or a byte is not a
/// hex digit.
pub open spec fn hex_decode_spec(text: Seq<u8>) -> Option<Seq<u8>> {
    if text.len() % 2 != 0 {
        None
    } else if exists|i: int| 0 <= i < text.len() && hex_digit_value(#[trigger] text[i]) is None {
        None
    } else {
        Some(
            Seq::new(
                text.len() / 2,
                |i: int|
                    (hex_digit_value(text[2 * i])->0 * 16 + hex_digit_value(text[2 * i + 1])->0) as u8,
            ),
        )
    }
}

/// Calls `hex::decode`. Trusted: per the crate's source (`FromHex for Vec<u8>`),
/// an odd length or a non-hex byte is an error, and otherwise each pair of
/// digits becomes one byte, high digit first.
#[verifier::external_body]
pub(crate) fn hex_decode(text: &[u8]) -> (r: Option<Vec<u8>>)
    ensures
        match r {
            Some(bytes) => hex_decode_spec(text@) == Some(bytes@),
            None => hex_decode_spec(text@) is None,
        },
{
    hex::decode(text).ok()
}

/// The HMAC-SHA256 tag of `message` under `key`.
pub uninterp spec fn hmac_sha256(key: Seq<u8>, message: Seq<u8>) -> Seq<u8>;

/// Calls `Hmac::<Sha256>::new_from_slice`, `Mac::update` and
/// `Mac::verify_slice`. Trusted: per the `hmac` source, `new_from_slice`
/// accepts a key of any length, and `verify_slice` succeeds exactly when
/// `tag` equals the HMAC-SHA256 tag of `message` under `key` (comparing in
/// constant time).
#[verifier::external_body]
pub(crate) fn hmac_sha256_matches(key: &[u8], message: &[u8], tag: &[u8]) -> (r: Option<bool>)
    ensures
        r is Some,
        r matches Some(ok) ==> ok == (tag@ == hmac_sha256(key@, message@)),
{
    match <Hmac<Sha256> as Mac>::new_from_slice(key) {
        Ok(mut mac) => {
            mac.update(message);
            Some(mac.verify_slice(tag).is_ok())
        },
        Err(_) => None,
    }
}

/// Whether `urlencoding` leaves the byte `b` as it is: ASCII letters and
/// digits and `-`, `.`, `_`, `~`.
pub open spec fn is_unreserved(b: u8) -> bool {
    ||| (48 <= b && b <= 57)
    ||| (65 <= b && b <= 90)
    ||| (97 <= b && b <= 122)
    ||| b == 45
    ||| b == 46
    ||| b == 95
    ||| b == 126
}

/// The uppercase hex digit of `d` (`d < 16`).
pub open spec fn hex_upper(d: u8) -> char {
    if d < 10 {
        ((48 + d) as u8) as char
    } else {
        ((55 + d) as u8) as char
    }
}

/// What `urlencoding` writes for one byte: the byte itself when unreserved,
/// `%` and two uppercase hex digits otherwise.
pub open spec fn percent_encode_byte(b: u8) -> Seq<char> {
    if is_unreserved(b) {
        seq![b as char]
    } else {
        seq!['%', hex_upper(b / 16), hex_upper(b % 16)]
    }
}

/// The percent-encoding of a byte sequence, byte by byte.
pub open spec fn percent_encode(bytes: Seq<u8>) -> Seq<char>
    decreases bytes.len(),
{
    if bytes.len() == 0 {
        seq![]
    } else {
        percent_encode(bytes.drop_last()) + percent_encode_byte(bytes.last())
    }
}

/// What `urlencoding::encode` returns for the text `s`: the
/// percent-encoding of its UTF-8 bytes.
pub open spec fn url_encoded(s: Seq<char>) -> Seq<char> {
    percent_encode(encode_utf8(s))
}

/// Calls `urlencoding::encode`. Trusted: per the crate's source
/// (`encode_into`), every UTF-8 byte of `s` except ASCII alphanumerics and
/// `-`, `.`, `_`, `~` becomes `%` followed by two uppercase hex digits, and
/// the others are kept.
#[verifier::external_body]
pub(crate) fn url_encode(s: &str) -> (r: String)
    ensures
        r@ == url_encoded(s@),
{
    urlencoding::encode(s).into_owned()
}

/// Calls `reqwest::Client::builder().user_agent(user_agent).build()`, and
/// gives the client together with the user agent it was configured with, or
/// the error's message. Trusted: per the reqwest source (`user_agent` at
/// `async_impl/client.rs`), a built client sends `user_agent` as its
/// `user-agent` header. Whether the build succeeds is not stated: it depends
/// on the system it runs on.
#[verifier::external_body]
pub(crate) fn build_http_client(user_agent: &str) -> (r: Result<(reqwest::Client, String), String>)
    ensures
        r matches Ok(built) ==> built.1@ == user_agent@,
{
    match reqwest::Client::builder().user_agent(user_agent).build() {
        Ok(client) => Ok((client, user_agent.to_owned())),
        Err(e) => Err(e.to_string()),
    }
}

/// `std::time::SystemTime`, a reading of the system clock; opaque to the
/// library.
#[verifier::external_type_specification]
#[verifier::external_body]
pub struct ExSystemTime(std::time::SystemTime);

/// Calls `SystemTime::now`. Nothing is stated of the result: it is the time
/// of the call.
#[verifier::external_body]
pub(crate) fn system_time_now() -> (r: std::time::SystemTime) {
    std::time::SystemTime::now()
}

/// Calls `SystemTime::duration_since(UNIX_EPOCH)` on `time`, or nothing when
/// `time` is before the epoch. Nothing is stated of the result: the library
/// cannot see inside a `SystemTime`.
#[verifier::external_body]
pub(crate) fn duration_since_epoch(time: &std::time::SystemTime) -> (r: Option<core::time::Duration>) {
    time.duration_since(std::time::UNIX_EPOCH).ok()
}

/// Calls `Duration::as_secs`: the whole seconds of `duration`. Nothing is
/// stated of the result: the library cannot see inside a `Duration`.
#[verifier::external_body]
pub(crate) fn whole_seconds(duration: &core::time::Duration) -> (r: u64) {
    duration.as_secs()
}

/// Whether `HeaderName::from_bytes` (http, through `reqwest::header`) accepts
/// the byte `b` in a header name: the token characters of HTTP, letters in
/// either case.
pub open spec fn is_header_name_byte(b: u8) -> bool {
    ||| (48 <= b && b <= 57)
    ||| (65 <= b && b <= 90)
    ||| (97 <= b && b <= 122)
    ||| b == 33 || b == 35 || b == 36 || b == 37 || b == 38 || b == 39
    ||| b == 42 || b == 43 || b == 45 || b == 46
    ||| b == 94 || b == 95 || b == 96 || b == 124 || b == 126
}

/// Whether `HeaderName::from_bytes` accepts `name`: one to 65535 bytes, each
/// a header name byte.
pub open spec fn header_name_valid(name: Seq<u8>) -> bool {
    &&& 1 <= name.len() <= 65535
    &&& forall|i: int| 0 <= i < name.len() ==> is_header_name_byte(#[trigger] name[i])
}

/// Whether `HeaderValue::from_str` accepts `value`: every byte is a tab or at
/// least 32 and not 127.
pub open spec fn header_value_valid(value: Seq<u8>) -> bool {
    forall|i: int| 0 <= i < value.len() ==> (#[trigger] value[i] == 9 || (value[i] >= 32 && value[i] != 127))
}

/// Calls `reqwest::header::HeaderName::from_bytes`. Trusted: per the http
/// source (`parse_hdr` and the `HEADER_CHARS` table), it succeeds exactly on
/// one to 65535 header name bytes.
#[verifier::external_body]
pub(crate) fn header_name_ok(name: &[u8]) -> (r: bool)
    ensures
        r == header_name_valid(name@),
{
    reqwest::header::HeaderName::from_bytes(name).is_ok()
}

/// Calls `reqwest::header::HeaderValue::from_str`. Trusted: per the http
/// source (`try_from_generic` and `is_valid`), it succeeds exactly when every
/// byte is a tab or at least 32 and not 127.
#[verifier::external_body]
pub(crate) fn header_value_ok(value: &str) -> (r: bool)
    ensures
        r == header_value_valid(encode_utf8(value@)),
{
    reqwest::header::HeaderValue::from_str(value).is_ok()
}

} // verus!
