//! Verification of Lettermint webhook deliveries: the `t=...,v1=...`
//! signature header, the delivery timestamp, the HMAC-SHA256 signature over
//! `{timestamp}.{payload}`, and the JSON payload.

use vstd::prelude::*;
use vstd::utf8::encode_utf8;
use crate::error::Error;
use crate::json::JsonValue;
use crate::external::{
    duration_since_epoch, hex_decode, hex_decode_spec, hmac_sha256, hmac_sha256_matches,
    json_document, parse_json, parsed_json, system_time_now, whole_seconds,
};
use crate::strmap::{last_lowercase_match, StringMap};
use crate::text::{
    chars_eq, chars_of, int_decimal, parse_i64, parse_i64_spec, push_i64_decimal, push_str_chars, split_once,
    split_once_spec, string_of, trim_whitespace, trim_ws,
};

verus! {

/// The header that carries the signature of a delivery.
pub const SIGNATURE_HEADER: &'static str = "x-lettermint-signature";

/// The header that carries the timestamp of a delivery.
pub const DELIVERY_HEADER: &'static str = "x-lettermint-delivery";

/// How far, in seconds, a signature's timestamp may be from the current time
/// unless the verifier is told otherwise.
pub const DEFAULT_TOLERANCE_SECONDS: i64 = 300;

/// `s` split at every `sep` (what `str::split(sep)` yields: one more part than
/// there are separators, empty parts included).
pub open spec fn split_on(s: Seq<char>, sep: char) -> Seq<Seq<char>>
    decreases s.len(),
{
    if s.len() == 0 {
        seq![seq![]]
    } else {
        let parts = split_on(s.drop_last(), sep);
        if s.last() == sep {
            parts.push(seq![])
        } else {
            parts.update(parts.len() - 1, parts.last().push(s.last()))
        }
    }
}

/// What reading one comma-separated part of a signature header does to the
/// state `(still well-formed, timestamp, v1 signature)`: a part without `=`
/// is skipped; key `t` sets the timestamp, and a value that is not an `i64`
/// makes the header malformed; key `v1` sets the signature; other keys are
/// skipped. Keys and values are trimmed of whitespace.
pub open spec fn scan_signature_part(
    state: (bool, Option<i64>, Option<Seq<char>>),
    part: Seq<char>,
) -> (bool, Option<i64>, Option<Seq<char>>) {
    if !state.0 {
        state
    } else {
        match split_once_spec(part, '=') {
            None => state,
            Some((key, value)) => {
                if trim_ws(key) == seq!['t'] {
                    match parse_i64_spec(trim_ws(value)) {
                        Some(t) => (true, Some(t), state.2),
                        None => (false, state.1, state.2),
                    }
                } else if trim_ws(key) == seq!['v', '1'] {
                    (true, state.1, Some(trim_ws(value)))
                } else {
                    state
                }
            },
        }
    }
}

/// The state after reading the given parts in order.
pub open spec fn scan_signature(parts: Seq<Seq<char>>) -> (bool, Option<i64>, Option<Seq<char>>)
    decreases parts.len(),
{
    if parts.len() == 0 {
        (true, None, None)
    } else {
        scan_signature_part(scan_signature(parts.drop_last()), parts.last())
    }
}

/// The timestamp and the `v1` signature of a signature header such as
/// `t=1700000000,v1=5257a8...`; later occurrences of a key win.
pub open spec fn parse_signature_spec(signature: Seq<char>) -> Option<(i64, Seq<char>)> {
    let state = scan_signature(split_on(signature, ','));
    if state.0 && state.1 is Some && state.2 is Some {
        Some((state.1->0, state.2->0))
    } else {
        None
    }
}

/// The character view of an optional character vector.
pub open spec fn opt_chars(o: Option<Vec<char>>) -> Option<Seq<char>> {
    match o {
        Some(v) => Some(v@),
        None => None,
    }
}

fn scan_part(part: &[char], ok: bool, ts: Option<i64>, v1: Option<Vec<char>>) -> (r: (
    bool,
    Option<i64>,
    Option<Vec<char>>,
))
    ensures
        (r.0, r.1, opt_chars(r.2)) == scan_signature_part((ok, ts, opt_chars(v1)), part@),
{
    if !ok {
        return (ok, ts, v1);
    }
    match split_once(part, '=') {
        None => (ok, ts, v1),
        Some((k, v)) => {
            let key = trim_whitespace(k.as_slice());
            let value = trim_whitespace(v.as_slice());
            let t_key: Vec<char> = vec!['t'];
            let v1_key: Vec<char> = vec!['v', '1'];
            assert(t_key@ == seq!['t']);
            assert(v1_key@ == seq!['v', '1']);
            if chars_eq(key.as_slice(), t_key.as_slice()) {
                match parse_i64(value.as_slice()) {
                    Some(t) => (true, Some(t), v1),
                    None => (false, ts, v1),
                }
            } else if chars_eq(key.as_slice(), v1_key.as_slice()) {
                (true, ts, Some(value))
            } else {
                (ok, ts, v1)
            }
        },
    }
}

/// Reads a signature header into its timestamp and `v1` signature.
pub fn parse_signature(signature: &str) -> (r: Option<(i64, String)>)
    ensures
        match r {
            Some((t, v)) => parse_signature_spec(signature@) == Some((t, v@)),
            None => parse_signature_spec(signature@) is None,
        },
{
    let cs = chars_of(signature);
    let n = cs.len();
    let mut ok = true;
    let mut ts: Option<i64> = None;
    let mut v1: Option<Vec<char>> = None;
    let mut part: Vec<char> = Vec::new();
    let ghost mut done: Seq<Seq<char>> = seq![];
    let mut i: usize = 0;
    assert(cs@.take(0).len() == 0);
    while i < n
        invariant
            n == cs@.len(),
            i <= n,
            split_on(cs@.take(i as int), ',') == done.push(part@),
            (ok, ts, opt_chars(v1)) == scan_signature(done),
        decreases n - i,
    {
        let ghost s1 = cs@.take(i + 1);
        assert(s1.drop_last() == cs@.take(i as int));
        assert(s1.last() == cs@[i as int]);
        if cs[i] == ',' {
            let r = scan_part(part.as_slice(), ok, ts, v1);
            ok = r.0;
            ts = r.1;
            v1 = r.2;
            proof {
                assert(done.push(part@).drop_last() == done);
                done = done.push(part@);
            }
            part = Vec::new();
            assert(split_on(s1, ',') == done.push(part@));
        } else {
            let ghost old_part = part@;
            part.push(cs[i]);
            assert(done.push(old_part).update(done.len() as int, part@) == done.push(part@));
        }
        i = i + 1;
    }
    assert(cs@.take(n as int) == cs@);
    let r = scan_part(part.as_slice(), ok, ts, v1);
    proof {
        assert(done.push(part@).drop_last() == done);
    }
    match r {
        (true, Some(t), Some(v)) => Some((t, string_of(v.as_slice()))),
        _ => None,
    }
}

/// Why a delivery is refused.
pub enum WebhookFailure {
    MissingWebhookSecret,
    InvalidSignatureFormat,
    TimestampMismatch,
    TimestampOutsideTolerance(i64, i64),
    InvalidSignature,
    InvalidWebhookJson,
}

/// The distance between `a` and `b`.
pub open spec fn abs_diff(a: int, b: int) -> int {
    if a >= b {
        a - b
    } else {
        b - a
    }
}

/// How a signature timestamp fares against the clock reading `now` (whole
/// seconds since the Unix epoch, as an `i64`; nothing when the clock is
/// before the epoch): within `tolerance` seconds it passes; otherwise the
/// distance (at most `i64::MAX`) and the tolerance are reported.
pub open spec fn tolerance_outcome(now: Option<u64>, timestamp: i64, tolerance: i64) -> Option<
    WebhookFailure,
> {
    match now {
        None => Some(WebhookFailure::InvalidSignatureFormat),
        Some(secs) => {
            let d = abs_diff((secs as i64) as int, timestamp as int);
            if d <= tolerance {
                None
            } else {
                Some(
                    WebhookFailure::TimestampOutsideTolerance(
                        if d > i64::MAX {
                            i64::MAX
                        } else {
                            d as i64
                        },
                        tolerance,
                    ),
                )
            }
        },
    }
}

/// The bytes that are signed for a delivery: `{timestamp}.{payload}` in UTF-8.
pub open spec fn signed_bytes(timestamp: i64, payload: Seq<char>) -> Seq<u8> {
    encode_utf8(int_decimal(timestamp as int) + seq!['.'] + payload)
}

/// Whether `signature` (hex) is the HMAC-SHA256 of the signed bytes under the
/// UTF-8 bytes of `secret`.
pub open spec fn signature_valid(secret: Seq<char>, timestamp: i64, payload: Seq<char>, signature: Seq<char>) -> bool {
    match hex_decode_spec(encode_utf8(signature)) {
        Some(tag) => tag == hmac_sha256(encode_utf8(secret), signed_bytes(timestamp, payload)),
        None => false,
    }
}

/// The outcome of verifying a delivery with the given secret and tolerance,
/// payload, signature header and optional delivery timestamp, when the clock
/// reads `now`; nothing when the delivery is accepted.
pub open spec fn webhook_outcome(
    secret: Seq<char>,
    tolerance: i64,
    payload: Seq<char>,
    signature: Seq<char>,
    delivery: Option<i64>,
    now: Option<u64>,
) -> Option<WebhookFailure> {
    if secret.len() == 0 {
        Some(WebhookFailure::MissingWebhookSecret)
    } else {
        match parse_signature_spec(signature) {
            None => Some(WebhookFailure::InvalidSignatureFormat),
            Some((t, v1)) => {
                if delivery matches Some(d) && d != t {
                    Some(WebhookFailure::TimestampMismatch)
                } else {
                    match tolerance_outcome(now, t, tolerance) {
                        Some(f) => Some(f),
                        None => {
                            if !signature_valid(secret, t, payload, v1) {
                                Some(WebhookFailure::InvalidSignature)
                            } else if parsed_json(payload) is None {
                                Some(WebhookFailure::InvalidWebhookJson)
                            } else {
                                None
                            }
                        },
                    }
                }
            },
        }
    }
}

/// Whether the result `r` is what the outcome `o` says.
pub open spec fn outcome_holds<T>(r: &Result<T, Error>, o: Option<WebhookFailure>) -> bool {
    match o {
        None => r is Ok,
        Some(WebhookFailure::MissingWebhookSecret) => r matches Err(Error::MissingWebhookSecret),
        Some(WebhookFailure::InvalidSignatureFormat) => r matches Err(Error::InvalidSignatureFormat),
        Some(WebhookFailure::TimestampMismatch) => r matches Err(Error::TimestampMismatch),
        Some(WebhookFailure::TimestampOutsideTolerance(d, t)) => r matches Err(
            Error::TimestampOutsideTolerance { difference_seconds, tolerance_seconds },
        ) && difference_seconds == d && tolerance_seconds == t,
        Some(WebhookFailure::InvalidSignature) => r matches Err(Error::InvalidSignature),
        Some(WebhookFailure::InvalidWebhookJson) => r matches Err(Error::InvalidWebhookJson(_)),
    }
}

/// Checks a signature timestamp against the clock reading `now`.
pub fn validate_timestamp(timestamp: i64, tolerance_seconds: i64, now: Option<u64>) -> (r: Result<(), Error>)
    ensures
        outcome_holds(&r, tolerance_outcome(now, timestamp, tolerance_seconds)),
{
    let secs = match now {
        Some(s) => s,
        None => return Err(Error::InvalidSignatureFormat),
    };
    let now_i: i64 = secs as i64;
    let diff: i128 = (now_i as i128) - (timestamp as i128);
    let distance: i128 = if diff < 0 {
        0 - diff
    } else {
        diff
    };
    if distance <= tolerance_seconds as i128 {
        return Ok(());
    }
    let difference_seconds: i64 = if distance > 0x7fff_ffff_ffff_ffffi128 {
        0x7fff_ffff_ffff_ffffi64
    } else {
        distance as i64
    };
    Err(Error::TimestampOutsideTolerance { difference_seconds, tolerance_seconds })
}

/// Checks the hex signature `signature` over `{timestamp}.{payload}` with
/// the key `secret`.
pub fn verify_signature(payload: &str, timestamp: i64, signature: &str, secret: &str) -> (r: Result<
    (),
    Error,
>)
    ensures
        r is Ok <==> signature_valid(secret@, timestamp, payload@, signature@),
        r is Ok <==> hex_decode_spec(encode_utf8(signature@)) == Some(
            hmac_sha256(
                encode_utf8(secret@),
                encode_utf8(int_decimal(timestamp as int) + seq!['.'] + payload@),
            ),
        ),
        r matches Err(e) ==> e is InvalidSignature,
{
    let mut message = String::new();
    push_i64_decimal(&mut message, timestamp);
    message.push('.');
    push_str_chars(&mut message, payload);
    assert(message@ == int_decimal(timestamp as int) + seq!['.'] + payload@);
    let tag = match hex_decode(signature.as_bytes()) {
        Some(tag) => tag,
        None => return Err(Error::InvalidSignature),
    };
    match hmac_sha256_matches(secret.as_bytes(), message.as_str().as_bytes(), tag.as_slice()) {
        Some(true) => Ok(()),
        Some(false) => Err(Error::InvalidSignature),
        None => Err(Error::InvalidHmacKey),
    }
}

/// The signature header and the parsed delivery timestamp of a delivery's
/// headers, matched without regard to ASCII case; when a name occurs in
/// several cases, the value under the greatest original key counts.
pub open spec fn delivery_headers(pairs: Seq<(Seq<char>, Seq<char>)>) -> Option<(Seq<char>, i64)> {
    match (
        last_lowercase_match(pairs, SIGNATURE_HEADER@),
        last_lowercase_match(pairs, DELIVERY_HEADER@),
    ) {
        (Some(sig), Some(delivery)) => match parse_i64_spec(delivery) {
            Some(d) => Some((sig, d)),
            None => None,
        },
        _ => None,
    }
}

/// A verifier of webhook deliveries for one webhook secret.
#[derive(Clone, Debug)]
pub struct Webhook {
    secret: String,
    tolerance_seconds: i64,
}

impl Webhook {
    /// The webhook secret.
    pub closed spec fn secret_spec(&self) -> Seq<char> {
        self.secret@
    }

    /// The accepted distance, in seconds, between a signature's timestamp and
    /// the current time.
    pub closed spec fn tolerance_spec(&self) -> i64 {
        self.tolerance_seconds
    }

    /// A verifier for `secret` with the default tolerance.
    pub fn new(secret: &str) -> (r: Webhook)
        ensures
            r.secret_spec() == secret@,
            r.tolerance_spec() == DEFAULT_TOLERANCE_SECONDS,
    {
        Webhook { secret: secret.to_owned(), tolerance_seconds: DEFAULT_TOLERANCE_SECONDS }
    }

    /// The same verifier with another tolerance.
    pub fn with_tolerance(self, tolerance_seconds: i64) -> (r: Webhook)
        ensures
            r.secret_spec() == self.secret_spec(),
            r.tolerance_spec() == tolerance_seconds,
    {
        Webhook { secret: self.secret, tolerance_seconds }
    }

    /// Whether `r` is the result of verifying a delivery with the payload
    /// `payload`, the signature header `signature` and the delivery timestamp
    /// `delivery` when the clock reads `now`: the outcome that
    /// `webhook_outcome` gives, on success the payload's JSON value, and for
    /// a payload that is not JSON the parser's message.
    pub open spec fn verifies_as(
        &self,
        r: &Result<JsonValue, Error>,
        payload: Seq<char>,
        signature: Seq<char>,
        delivery: Option<i64>,
        now: Option<u64>,
    ) -> bool {
        &&& outcome_holds(
            r,
            webhook_outcome(
                self.secret_spec(),
                self.tolerance_spec(),
                payload,
                signature,
                delivery,
                now,
            ),
        )
        &&& *r matches Ok(value) ==> parsed_json(payload) == Some(value)
        &&& *r matches Err(Error::InvalidWebhookJson(message)) ==> json_document(payload) == Err::<
            JsonValue,
            Seq<char>,
        >(message@)
    }

    /// Whether `r` is the result of verifying a delivery from its headers
    /// `pairs` when the clock reads `now`: a malformed signature when the
    /// signature or the delivery header is missing or the delivery timestamp
    /// is not an `i64`, and otherwise the result of verifying with that
    /// signature header and delivery timestamp.
    pub open spec fn headers_verify_as(
        &self,
        r: &Result<JsonValue, Error>,
        payload: Seq<char>,
        pairs: Seq<(Seq<char>, Seq<char>)>,
        now: Option<u64>,
    ) -> bool {
        match delivery_headers(pairs) {
            None => r matches Err(Error::InvalidSignatureFormat),
            Some((signature, delivery)) => self.verifies_as(r, payload, signature, Some(delivery), now),
        }
    }

    /// Verifies a delivery as `verify` does, with the clock reading `now`
    /// (whole seconds since the Unix epoch; nothing when the clock is before
    /// the epoch), and returns the parsed payload.
    pub fn verify_at(&self, payload: &str, signature: &str, delivery_timestamp: Option<i64>, now: Option<
        u64,
    >) -> (r: Result<JsonValue, Error>)
        ensures
            self.verifies_as(&r, payload@, signature@, delivery_timestamp, now),
    {
        if self.secret.as_str().is_empty() {
            return Err(Error::MissingWebhookSecret);
        }
        let (timestamp, v1) = match parse_signature(signature) {
            Some(p) => p,
            None => return Err(Error::InvalidSignatureFormat),
        };
        if let Some(d) = delivery_timestamp {
            if d != timestamp {
                return Err(Error::TimestampMismatch);
            }
        }
        match validate_timestamp(timestamp, self.tolerance_seconds, now) {
            Ok(()) => {},
            Err(e) => return Err(e),
        }
        match verify_signature(payload, timestamp, v1.as_str(), self.secret.as_str()) {
            Ok(()) => {},
            Err(e) => return Err(e),
        }
        match parse_json(payload) {
            Ok(value) => Ok(value),
            Err(message) => Err(Error::InvalidWebhookJson(message)),
        }
    }

    /// Verifies a delivery: the secret is set, the signature header parses,
    /// its timestamp equals `delivery_timestamp` when one is given and is
    /// within the tolerance of the current time, its `v1` signature is the
    /// HMAC-SHA256 of `{timestamp}.{payload}` under the secret, and the
    /// payload is JSON, which is returned parsed.
    pub fn verify(&self, payload: &str, signature: &str, delivery_timestamp: Option<i64>) -> (r: Result<
        JsonValue,
        Error,
    >)
        ensures
            exists|now: Option<u64>|
                #[trigger] self.verifies_as(&r, payload@, signature@, delivery_timestamp, now),
    {
        let now = clock_seconds();
        self.verify_at(payload, signature, delivery_timestamp, now)
    }

    /// Verifies a delivery from its headers, as `verify_headers` does, with
    /// the clock reading `now`.
    pub fn verify_headers_at(&self, payload: &str, headers: &StringMap, now: Option<u64>) -> (r: Result<
        JsonValue,
        Error,
    >)
        ensures
            self.headers_verify_as(&r, payload@, headers.pairs(), now),
    {
        let signature = match headers.get_lowercase_last(SIGNATURE_HEADER) {
            Some(s) => s,
            None => return Err(Error::InvalidSignatureFormat),
        };
        let delivery = match headers.get_lowercase_last(DELIVERY_HEADER) {
            Some(d) => d,
            None => return Err(Error::InvalidSignatureFormat),
        };
        let dc = chars_of(delivery.as_str());
        let delivery_timestamp = match parse_i64(dc.as_slice()) {
            Some(d) => d,
            None => return Err(Error::InvalidSignatureFormat),
        };
        assert(delivery_headers(headers.pairs()) == Some((signature@, delivery_timestamp)));
        self.verify_at(payload, signature.as_str(), Some(delivery_timestamp), now)
    }

    /// Verifies a delivery from its headers: the signature and delivery
    /// headers are found without regard to ASCII case, and a missing header or
    /// a delivery timestamp that is not an `i64` is a malformed signature;
    /// otherwise the delivery is verified as `verify` does with that signature
    /// header and delivery timestamp.
    pub fn verify_headers(&self, payload: &str, headers: &StringMap) -> (r: Result<
        JsonValue,
        Error,
    >)
        ensures
            exists|now: Option<u64>|
                #[trigger] self.headers_verify_as(&r, payload@, headers.pairs(), now),
    {
        let now = clock_seconds();
        self.verify_headers_at(payload, headers, now)
    }
}

/// The clock: whole seconds since the Unix epoch, or nothing when the clock
/// is before the epoch.
fn clock_seconds() -> (r: Option<u64>) {
    let clock = system_time_now();
    match duration_since_epoch(&clock) {
        Some(elapsed) => Some(whole_seconds(&elapsed)),
        None => None,
    }
}

} // verus!
