//! Properties of the library as a whole, stated over the contracts' spec
//! functions and proved.

use vstd::prelude::*;
use vstd::utf8::{encode_utf8, is_ascii_chars, is_ascii_chars_encode_utf8};
use crate::external::{url_encoded, hex_decode_spec, hex_digit_value, hmac_sha256, parsed_json};
use crate::client::{
    default_headers, is_auth_header, query_text, merge_headers, request_headers, request_url, AuthMode,
    USER_AGENT, VERSION, is_error_for, is_error_status_spec,
};
use crate::email::{
    batch_tags_error, idempotency_headers, insert_or_start, mail_tags_error, message_tags_error,
    push_or_start, tag_name_valid, MailView,
};
use crate::text::{
    ascii_lowercase, replace_all, trim_end_char, int_decimal, is_digit, is_whitespace, lemma_first_index_of,
    lemma_nat_decimal, nat_decimal, parse_i64_spec, split_once_spec, trim_end_ws, trim_start_ws,
    trim_ws,
};
use crate::webhook::{
    parse_signature_spec, signature_valid, scan_signature, scan_signature_part, signed_bytes, split_on,
    webhook_outcome, delivery_headers, Webhook, WebhookFailure,
};
use crate::error::Error;
use crate::json::{entry_value, JsonValue};
use crate::strmap::last_lowercase_match;

verus! {

/// Formatting an `i64` in decimal and parsing the result as an `i64` gives
/// the number back.
pub proof fn law_decimal_round_trip(t: i64)
    ensures
        parse_i64_spec(int_decimal(t as int)) == Some(t),
{
    if t < 0 {
        let m = (-t) as nat;
        lemma_nat_decimal(m);
        let s = int_decimal(t as int);
        assert(s == seq!['-'] + nat_decimal(m));
        assert(s.drop_first() == nat_decimal(m));
    } else {
        lemma_nat_decimal(t as nat);
        let s = nat_decimal(t as nat);
        assert(is_digit(s[0]));
    }
}

/// The lowercase hex digit of `d` (`d < 16`).
pub open spec fn hex_lower_digit(d: u8) -> char {
    if d < 10 {
        ((48 + d) as u8) as char
    } else {
        ((87 + d) as u8) as char
    }
}

/// The lowercase hex encoding of `bytes`, two digits per byte, high digit
/// first (what `hex::encode` writes).
pub open spec fn hex_lower(bytes: Seq<u8>) -> Seq<char>
    decreases bytes.len(),
{
    if bytes.len() == 0 {
        seq![]
    } else {
        hex_lower(bytes.drop_last()) + seq![
            hex_lower_digit(bytes.last() / 16),
            hex_lower_digit(bytes.last() % 16),
        ]
    }
}

/// The signature header `t={timestamp},v1={signature}`.
pub open spec fn signature_header_text(timestamp: i64, signature: Seq<char>) -> Seq<char> {
    seq!['t', '='] + int_decimal(timestamp as int) + seq![',', 'v', '1', '='] + signature
}

/// The signature header of a delivery at `timestamp` with the tag `tag`:
/// `t={timestamp},v1={hex of tag}`.
pub open spec fn signature_header(timestamp: i64, tag: Seq<u8>) -> Seq<char> {
    signature_header_text(timestamp, hex_lower(tag))
}

proof fn lemma_hex_lower(bytes: Seq<u8>)
    ensures
        hex_lower(bytes).len() == 2 * bytes.len(),
        forall|i: int|
            0 <= i < bytes.len() ==> hex_lower(bytes)[2 * i] == hex_lower_digit(
                #[trigger] bytes[i] / 16,
            ) && hex_lower(bytes)[2 * i + 1] == hex_lower_digit(bytes[i] % 16),
    decreases bytes.len(),
{
    if bytes.len() > 0 {
        let init = bytes.drop_last();
        lemma_hex_lower(init);
        assert forall|i: int|
            0 <= i < bytes.len() implies hex_lower(bytes)[2 * i] == hex_lower_digit(
            #[trigger] bytes[i] / 16,
        ) && hex_lower(bytes)[2 * i + 1] == hex_lower_digit(bytes[i] % 16) by {
            if i < init.len() {
                assert(bytes[i] == init[i]);
            }
        }
    }
}

proof fn lemma_hex_digit_round_trip(d: u8)
    requires
        d < 16,
    ensures
        hex_digit_value(hex_lower_digit(d) as u8) == Some(d),
        '0' <= hex_lower_digit(d) <= '9' || 'a' <= hex_lower_digit(d) <= 'f',
{
}

/// Hex-decoding the UTF-8 bytes of the lowercase hex encoding of `bytes`
/// gives `bytes` back.
pub proof fn law_hex_round_trip(bytes: Seq<u8>)
    ensures
        hex_decode_spec(encode_utf8(hex_lower(bytes))) == Some(bytes),
{
    let h = hex_lower(bytes);
    lemma_hex_lower(bytes);
    assert forall|j: int| 0 <= j < h.len() implies ('0' <= #[trigger] h[j] <= '9' || 'a' <= h[j]
        <= 'f') by {
        let i = j / 2;
        assert(0 <= i < bytes.len());
        lemma_hex_digit_round_trip(bytes[i] / 16);
        lemma_hex_digit_round_trip(bytes[i] % 16);
        if j % 2 == 0 {
            assert(j == 2 * i);
        } else {
            assert(j == 2 * i + 1);
        }
    }
    assert(is_ascii_chars(h));
    is_ascii_chars_encode_utf8(h);
    let e = encode_utf8(h);
    assert forall|j: int| 0 <= j < e.len() implies hex_digit_value(#[trigger] e[j]) is Some by {
        assert(e[j] == h[j] as u8);
        let i = j / 2;
        lemma_hex_digit_round_trip(bytes[i] / 16);
        lemma_hex_digit_round_trip(bytes[i] % 16);
        if j % 2 == 0 {
            assert(j == 2 * i);
        } else {
            assert(j == 2 * i + 1);
        }
    }
    assert(e.len() % 2 == 0);
    let decoded = Seq::new(
        e.len() / 2,
        |i: int| (hex_digit_value(e[2 * i])->0 * 16 + hex_digit_value(e[2 * i + 1])->0) as u8,
    );
    assert forall|i: int| 0 <= i < bytes.len() implies decoded[i] == bytes[i] by {
        assert(e[2 * i] == h[2 * i] as u8);
        assert(e[2 * i + 1] == h[2 * i + 1] as u8);
        lemma_hex_digit_round_trip(bytes[i] / 16);
        lemma_hex_digit_round_trip(bytes[i] % 16);
    }
    assert(decoded =~= bytes);
}

proof fn lemma_split_no_sep(s: Seq<char>, sep: char)
    requires
        forall|i: int| 0 <= i < s.len() ==> s[i] != sep,
    ensures
        split_on(s, sep) == seq![s],
    decreases s.len(),
{
    if s.len() > 0 {
        lemma_split_no_sep(s.drop_last(), sep);
        assert(s.drop_last().push(s.last()) == s);
        assert(seq![s.drop_last()].update(0, s) == seq![s]);
    } else {
        assert(s == Seq::<char>::empty());
    }
}

proof fn lemma_split_append(a: Seq<char>, b: Seq<char>, sep: char)
    requires
        forall|i: int| 0 <= i < b.len() ==> b[i] != sep,
    ensures
        split_on(a + seq![sep] + b, sep) == split_on(a, sep).push(b),
    decreases b.len(),
{
    let x = a + seq![sep] + b;
    if b.len() == 0 {
        assert(x.drop_last() == a);
        assert(b == Seq::<char>::empty());
    } else {
        lemma_split_append(a, b.drop_last(), sep);
        assert(x.drop_last() == a + seq![sep] + b.drop_last());
        assert(b.drop_last().push(b.last()) == b);
    }
}

proof fn lemma_trim_identity(s: Seq<char>)
    requires
        s.len() == 0 || (!is_whitespace(s[0]) && !is_whitespace(s.last())),
    ensures
        trim_ws(s) == s,
{
    assert(trim_start_ws(s) == s);
    assert(trim_end_ws(s) == s);
}

/// Reading the signature header `t={timestamp},v1={signature}` gives the
/// timestamp and the signature back, for every signature without commas and
/// without surrounding whitespace.
#[verifier::spinoff_prover]
pub proof fn law_signature_header_round_trip(timestamp: i64, signature: Seq<char>)
    requires
        forall|i: int| 0 <= i < signature.len() ==> signature[i] != ',',
        signature.len() == 0 || (!is_whitespace(signature[0]) && !is_whitespace(
            signature.last(),
        )),
    ensures
        parse_signature_spec(signature_header_text(timestamp, signature)) == Some(
            (timestamp, signature),
        ),
{
    let dec = int_decimal(timestamp as int);
    let p1 = seq!['t', '='] + dec;
    let p2 = seq!['v', '1', '='] + signature;
    let header = signature_header_text(timestamp, signature);
    assert(header == p1 + seq![','] + p2);
    // the decimal part: digits, maybe after a minus sign
    let m: nat = if timestamp < 0 {
        (-timestamp) as nat
    } else {
        timestamp as nat
    };
    lemma_nat_decimal(m);
    let digits = nat_decimal(m);
    assert(is_digit(digits.last()));
    assert(is_digit(digits[0]));
    assert(dec.len() >= 1 && !is_whitespace(dec[0]) && !is_whitespace(dec.last())) by {
        if timestamp < 0 {
            assert(dec == seq!['-'] + digits);
            assert(dec.last() == digits.last());
        } else {
            assert(dec == digits);
        }
    }
    assert forall|i: int| 0 <= i < dec.len() implies dec[i] != ',' && dec[i] != '=' by {
        if timestamp < 0 {
            assert(dec == seq!['-'] + digits);
            if i > 0 {
                assert(dec[i] == digits[i - 1]);
                assert(is_digit(digits[i - 1]));
            }
        } else {
            assert(is_digit(digits[i]));
        }
    }
    // splitting at commas
    assert forall|i: int| 0 <= i < p1.len() implies p1[i] != ',' by {
        if i >= 2 {
            assert(p1[i] == dec[i - 2]);
        }
    }
    assert forall|i: int| 0 <= i < p2.len() implies p2[i] != ',' by {
        if i >= 3 {
            assert(p2[i] == signature[i - 3]);
        }
    }
    lemma_split_no_sep(p1, ',');
    lemma_split_append(p1, p2, ',');
    let parts = split_on(header, ',');
    assert(parts == seq![p1, p2]);
    // the `t` part
    lemma_first_index_of(p1, '=', 1);
    assert(split_once_spec(p1, '=') == Some((seq!['t'], dec))) by {
        assert(p1.take(1) == seq!['t']);
        assert(p1.skip(2) == dec);
    }
    lemma_trim_identity(seq!['t']);
    lemma_trim_identity(dec);
    law_decimal_round_trip(timestamp);
    let s1 = scan_signature_part((true, None, None), p1);
    assert(s1 == (true, Some(timestamp), None::<Seq<char>>));
    // the `v1` part
    lemma_first_index_of(p2, '=', 2);
    assert(split_once_spec(p2, '=') == Some((seq!['v', '1'], signature))) by {
        assert(p2.take(2) == seq!['v', '1']);
        assert(p2.skip(3) == signature);
    }
    lemma_trim_identity(seq!['v', '1']);
    lemma_trim_identity(signature);
    assert(seq!['v', '1'] != seq!['t']);
    let s2 = scan_signature_part(s1, p2);
    assert(s2 == (true, Some(timestamp), Some(signature)));
    assert(seq![p1].last() == p1);
    assert(seq![p1].drop_last() == Seq::<Seq<char>>::empty());
    assert(scan_signature(Seq::<Seq<char>>::empty()) == (true, None::<i64>, None::<Seq<char>>));
    assert(scan_signature(seq![p1]) == s1);
    assert(parts.drop_last() == seq![p1]);
    assert(parts.last() == p2);
    assert(scan_signature(parts) == s2);
}

/// A delivery whose signature header carries its timestamp and the
/// HMAC-SHA256, under the secret, of `{timestamp}.{payload}`, whose delivery
/// timestamp (if any) is that timestamp, which is within the tolerance of the
/// clock, and whose payload is JSON, is accepted.
pub proof fn law_signed_delivery_is_accepted(
    secret: Seq<char>,
    tolerance: i64,
    payload: Seq<char>,
    timestamp: i64,
    delivery: Option<i64>,
    now: u64,
)
    requires
        secret.len() > 0,
        parsed_json(payload) is Some,
        delivery is None || delivery == Some(timestamp),
        now <= i64::MAX,
        now - timestamp <= tolerance,
        timestamp - now <= tolerance,
    ensures
        webhook_outcome(
            secret,
            tolerance,
            payload,
            signature_header(
                timestamp,
                hmac_sha256(
                    encode_utf8(secret),
                    encode_utf8(int_decimal(timestamp as int) + seq!['.'] + payload),
                ),
            ),
            delivery,
            Some(now),
        ) is None,
{
    let tag = hmac_sha256(
        encode_utf8(secret),
        encode_utf8(int_decimal(timestamp as int) + seq!['.'] + payload),
    );
    assert(signed_bytes(timestamp, payload) == encode_utf8(
        int_decimal(timestamp as int) + seq!['.'] + payload,
    ));
    let hex = hex_lower(tag);
    lemma_hex_lower(tag);
    assert forall|j: int| 0 <= j < hex.len() implies ('0' <= #[trigger] hex[j] <= '9' || 'a'
        <= hex[j] <= 'f') by {
        let i = j / 2;
        lemma_hex_digit_round_trip(tag[i] / 16);
        lemma_hex_digit_round_trip(tag[i] % 16);
        if j % 2 == 0 {
            assert(j == 2 * i);
        } else {
            assert(j == 2 * i + 1);
        }
    }
    law_signature_header_round_trip(timestamp, hex);
    law_hex_round_trip(tag);
}

/// `ascii_lowercase` leaves a sequence without ASCII capitals as it is.
proof fn lemma_lowercase_fixed(s: Seq<char>)
    requires
        forall|i: int| 0 <= i < s.len() ==> !('A' <= #[trigger] s[i] <= 'Z'),
    ensures
        ascii_lowercase(s) == s,
{
    assert(ascii_lowercase(s) =~= s);
}

/// `ascii_lowercase` of a sequence is fixed by `ascii_lowercase`.
proof fn lemma_lowercase_idempotent(s: Seq<char>)
    ensures
        ascii_lowercase(ascii_lowercase(s)) == ascii_lowercase(s),
{
    let l = ascii_lowercase(s);
    assert forall|i: int| 0 <= i < l.len() implies !('A' <= #[trigger] l[i] <= 'Z') by {
        let c = s[i];
        if 'A' <= c <= 'Z' {
            assert(l[i] == ((c as u32) + 32) as char);
        }
    }
    lemma_lowercase_fixed(l);
}

proof fn lemma_default_header_names()
    ensures
        !default_headers().contains_key("authorization"@),
        !default_headers().contains_key("x-lettermint-token"@),
        !default_headers().contains_key("idempotency-key"@),
        forall|k: Seq<char>| #[trigger] default_headers().contains_key(k) ==> ascii_lowercase(k) == k,
{
    reveal_strlit("accept");
    reveal_strlit("content-type");
    reveal_strlit("user-agent");
    reveal_strlit("authorization");
    reveal_strlit("x-lettermint-token");
    reveal_strlit("idempotency-key");
    lemma_lowercase_fixed("accept"@);
    lemma_lowercase_fixed("content-type"@);
    lemma_lowercase_fixed("user-agent"@);
}

/// Adding the caller's headers never adds a credential header, and keeps
/// every header name lowercase when the base's names are.
proof fn lemma_merge_headers(base: Map<Seq<char>, Seq<char>>, extra: Seq<(Seq<char>, Seq<char>)>)
    requires
        !base.contains_key("authorization"@),
        !base.contains_key("x-lettermint-token"@),
        forall|k: Seq<char>| #[trigger] base.contains_key(k) ==> ascii_lowercase(k) == k,
    ensures
        !merge_headers(base, extra).contains_key("authorization"@),
        !merge_headers(base, extra).contains_key("x-lettermint-token"@),
        forall|k: Seq<char>| #[trigger]
            merge_headers(base, extra).contains_key(k) ==> ascii_lowercase(k) == k,
    decreases extra.len(),
{
    if extra.len() > 0 {
        lemma_merge_headers(base, extra.drop_last());
        lemma_lowercase_idempotent(extra.last().0);
    }
}

/// Every request carries the credential header of its client's mode with the
/// client's token (`x-lettermint-token: {token}` for the Sending API,
/// `authorization: Bearer {token}` for the Team API) and not the other one,
/// whatever headers the caller adds; and every header name is lowercase.
pub proof fn law_credentials_cannot_be_overridden(
    auth: AuthMode,
    token: Seq<char>,
    extra: Seq<(Seq<char>, Seq<char>)>,
)
    ensures
        auth == AuthMode::Sending ==> request_headers(auth, token, extra).contains_key(
            "x-lettermint-token"@,
        ) && request_headers(auth, token, extra)["x-lettermint-token"@] == token
            && !request_headers(auth, token, extra).contains_key("authorization"@),
        auth == AuthMode::Api ==> request_headers(auth, token, extra).contains_key(
            "authorization"@,
        ) && request_headers(auth, token, extra)["authorization"@] == "Bearer "@ + token
            && !request_headers(auth, token, extra).contains_key("x-lettermint-token"@),
        forall|k: Seq<char>| #[trigger]
            request_headers(auth, token, extra).contains_key(k) ==> ascii_lowercase(k) == k,
{
    lemma_default_header_names();
    lemma_merge_headers(default_headers(), extra);
    reveal_strlit("authorization");
    reveal_strlit("x-lettermint-token");
    lemma_lowercase_fixed("authorization"@);
    lemma_lowercase_fixed("x-lettermint-token"@);
}

/// A header that the caller adds last under a name that is not a credential
/// header reaches the request under its lowercase name, with its value.
pub proof fn law_caller_header_is_sent(
    auth: AuthMode,
    token: Seq<char>,
    extra: Seq<(Seq<char>, Seq<char>)>,
    name: Seq<char>,
    value: Seq<char>,
)
    requires
        !is_auth_header(ascii_lowercase(name)),
    ensures
        request_headers(auth, token, extra.push((name, value))).contains_key(ascii_lowercase(name)),
        request_headers(auth, token, extra.push((name, value)))[ascii_lowercase(name)] == value,
{
    assert(extra.push((name, value)).drop_last() == extra);
}

/// A send carries the `idempotency-key` header exactly when an idempotency
/// key was given, and then with that key.
pub proof fn law_idempotency_key_is_sent(auth: AuthMode, token: Seq<char>, key: Option<Seq<char>>)
    ensures
        request_headers(auth, token, idempotency_headers(key)).contains_key("idempotency-key"@)
            <==> key is Some,
        key matches Some(k) ==> request_headers(auth, token, idempotency_headers(key))[
            "idempotency-key"@] == k,
{
    lemma_default_header_names();
    reveal_strlit("idempotency-key");
    reveal_strlit("authorization");
    reveal_strlit("x-lettermint-token");
    lemma_lowercase_fixed("idempotency-key"@);
    if let Some(k) = key {
        law_caller_header_is_sent(auth, token, seq![], "idempotency-key"@, k);
        assert(seq![].push(("idempotency-key"@, k)) == idempotency_headers(key));
    }
}

/// Leading slashes of a request's path do not change its URL.
pub proof fn law_leading_slash_of_path_ignored(
    base_url: Seq<char>,
    path: Seq<char>,
    query: Seq<(Seq<char>, Seq<char>)>,
)
    ensures
        request_url(base_url, seq!['/'] + path, query) == request_url(base_url, path, query),
{
    assert((seq!['/'] + path).drop_first() == path);
}

/// A trailing slash of a base URL does not change the base URL a client
/// keeps, and setting the kept base URL again keeps it as it is.
pub proof fn law_trailing_slash_of_base_url_ignored(base_url: Seq<char>)
    ensures
        trim_end_char(base_url + seq!['/'], '/') == trim_end_char(base_url, '/'),
        trim_end_char(trim_end_char(base_url, '/'), '/') == trim_end_char(base_url, '/'),
    decreases base_url.len(),
{
    assert((base_url + seq!['/']).drop_last() == base_url);
    if base_url.len() > 0 && base_url.last() == '/' {
        law_trailing_slash_of_base_url_ignored(base_url.drop_last());
    }
}

/// A delivery is accepted only when the secret is set, the clock could be
/// read, the signature header parses into a timestamp and a `v1` signature,
/// the delivery timestamp (if any) is that timestamp, the timestamp is within
/// the tolerance of the clock, the signature is the HMAC-SHA256 of
/// `{timestamp}.{payload}` under the secret, and the payload is JSON.
pub proof fn law_accepted_delivery_is_authentic(
    secret: Seq<char>,
    tolerance: i64,
    payload: Seq<char>,
    signature: Seq<char>,
    delivery: Option<i64>,
    now: Option<u64>,
)
    requires
        webhook_outcome(secret, tolerance, payload, signature, delivery, now) is None,
    ensures
        secret.len() > 0,
        now is Some,
        parse_signature_spec(signature) matches Some((t, v1)) && (delivery is None || delivery
            == Some(t)) && ((now->0) as i64) - t <= tolerance && t - ((now->0) as i64) <= tolerance
            && hex_decode_spec(encode_utf8(v1)) == Some(
            hmac_sha256(encode_utf8(secret), encode_utf8(int_decimal(t as int) + seq!['.'] + payload)),
        ),
        parsed_json(payload) is Some,
{
}

/// Replacing the token in a text that does not contain it changes nothing:
/// error bodies that do not hold the token come back as they were.
pub proof fn law_redaction_keeps_token_free_text(s: Seq<char>, token: Seq<char>, replacement: Seq<char>)
    requires
        token.len() > 0,
        forall|i: int| 0 <= i && i + token.len() <= s.len() ==> #[trigger] s.subrange(i, i + token.len()) != token,
    ensures
        replace_all(s, token, replacement) == s,
    decreases s.len(),
{
    if s.len() >= token.len() {
        let k: int = 0;
        assert(s.subrange(k, k + token.len()) != token);
        assert(s.take(token.len() as int) == s.subrange(k, k + token.len()));
        let rest = s.drop_first();
        assert forall|i: int| 0 <= i && i + token.len() <= rest.len() implies #[trigger] rest.subrange(
            i,
            i + token.len(),
        ) != token by {
            assert(rest.subrange(i, i + token.len()) == s.subrange(i + 1, i + 1 + token.len()));
        }
        law_redaction_keeps_token_free_text(rest, token, replacement);
        assert(seq![s[0]] + rest == s);
    }
}

/// A delivery that a verifier accepts is accepted by every verifier with the
/// same secret and a larger tolerance.
pub proof fn law_larger_tolerance_accepts_more(
    secret: Seq<char>,
    tolerance: i64,
    larger: i64,
    payload: Seq<char>,
    signature: Seq<char>,
    delivery: Option<i64>,
    now: Option<u64>,
)
    requires
        tolerance <= larger,
        webhook_outcome(secret, tolerance, payload, signature, delivery, now) is None,
    ensures
        webhook_outcome(secret, larger, payload, signature, delivery, now) is None,
{
}

/// Giving the delivery timestamp changes nothing when it is the signature's
/// timestamp, and refuses the delivery as a mismatch when it is another.
pub proof fn law_delivery_timestamp_only_confirms(
    secret: Seq<char>,
    tolerance: i64,
    payload: Seq<char>,
    signature: Seq<char>,
    delivery: i64,
    now: Option<u64>,
)
    requires
        secret.len() > 0,
    ensures
        parse_signature_spec(signature) matches Some((t, v1)) ==> (t == delivery ==> webhook_outcome(
            secret,
            tolerance,
            payload,
            signature,
            Some(delivery),
            now,
        ) == webhook_outcome(secret, tolerance, payload, signature, None, now)) && (t != delivery
            ==> webhook_outcome(secret, tolerance, payload, signature, Some(delivery), now)
            == Some(WebhookFailure::TimestampMismatch)),
{
}


/// Verifying a delivery from its headers is verifying it with the signature
/// header and the delivery timestamp that the headers carry, under the same
/// clock reading: the same parsed payload or the same error.
pub proof fn law_header_verification_is_verification(
    webhook: Webhook,
    r: Result<JsonValue, Error>,
    payload: Seq<char>,
    headers: Seq<(Seq<char>, Seq<char>)>,
    signature: Seq<char>,
    delivery: i64,
    now: Option<u64>,
)
    requires
        delivery_headers(headers) == Some((signature, delivery)),
    ensures
        webhook.headers_verify_as(&r, payload, headers, now) == webhook.verifies_as(
            &r,
            payload,
            signature,
            Some(delivery),
            now,
        ),
{
}
/// Whether `t` occurs in `s`.
pub open spec fn occurs_in(t: Seq<char>, s: Seq<char>) -> bool {
    exists|i: int| 0 <= i && i + t.len() <= s.len() && #[trigger] s.subrange(i, i + t.len()) == t
}

/// Whether no character of `a` occurs in `b`.
pub open spec fn shares_no_char(a: Seq<char>, b: Seq<char>) -> bool {
    forall|i: int, j: int| 0 <= i < a.len() && 0 <= j < b.len() ==> #[trigger] a[i] != #[trigger] b[j]
}

/// A prefix of a replaced text that holds no character of the replacement is
/// the same prefix of the original text.
proof fn lemma_replaced_prefix(s: Seq<char>, t: Seq<char>, rep: Seq<char>, m: int)
    requires
        t.len() > 0,
        rep.len() > 0,
        0 <= m <= replace_all(s, t, rep).len(),
        shares_no_char(replace_all(s, t, rep).take(m), rep),
    ensures
        m <= s.len(),
        replace_all(s, t, rep).take(m) == s.take(m),
    decreases s.len(),
{
    let x = replace_all(s, t, rep);
    if s.len() < t.len() {
    } else if s.take(t.len() as int) == t {
        if m > 0 {
            assert(x[0] == rep[0]);
            assert(x.take(m)[0] == rep[0]);
        }
    } else if m > 0 {
        let rest = s.drop_first();
        let xr = replace_all(rest, t, rep);
        assert(x == seq![s[0]] + xr);
        assert forall|i: int, j: int| 0 <= i < xr.take(m - 1).len() && 0 <= j < rep.len() implies
            #[trigger] xr.take(m - 1)[i] != #[trigger] rep[j] by {
            assert(xr.take(m - 1)[i] == x.take(m)[i + 1]);
        }
        lemma_replaced_prefix(rest, t, rep, m - 1);
        assert(x.take(m) =~= seq![s[0]] + xr.take(m - 1));
        assert(s.take(m) =~= seq![s[0]] + rest.take(m - 1));
    }
}

/// Replacing every occurrence of a token by a non-empty marker that shares no
/// character with the token leaves no occurrence of the token. (With a marker
/// that shares characters with the token an occurrence can remain: the token
/// `]]` in `]]]` with the marker `[REDACTED]` gives `[REDACTED]]`.)
pub proof fn law_redaction_leaves_no_token(s: Seq<char>, token: Seq<char>, marker: Seq<char>)
    requires
        token.len() > 0,
        marker.len() > 0,
        shares_no_char(token, marker),
    ensures
        !occurs_in(token, replace_all(s, token, marker)),
    decreases s.len(),
{
    let x = replace_all(s, token, marker);
    let n = token.len() as int;
    if s.len() < token.len() {
    } else if s.take(n) == token {
        let rest = s.skip(n);
        law_redaction_leaves_no_token(rest, token, marker);
        let xr = replace_all(rest, token, marker);
        assert(x == marker + xr);
        if occurs_in(token, x) {
            let i = choose|i: int| 0 <= i && i + n <= x.len() && #[trigger] x.subrange(i, i + n) == token;
            if i < marker.len() {
                assert(x.subrange(i, i + n)[0] == marker[i]);
                assert(token[0] != marker[i]);
            } else {
                let k = i - marker.len();
                assert(xr.subrange(k, k + n) =~= x.subrange(i, i + n));
            }
        }
    } else {
        let rest = s.drop_first();
        law_redaction_leaves_no_token(rest, token, marker);
        let xr = replace_all(rest, token, marker);
        assert(x == seq![s[0]] + xr);
        if occurs_in(token, x) {
            let i = choose|i: int| 0 <= i && i + n <= x.len() && #[trigger] x.subrange(i, i + n) == token;
            if i == 0 {
                assert(x.take(n) =~= x.subrange(0, n));
                assert forall|a: int, b: int| 0 <= a < x.take(n).len() && 0 <= b < marker.len() implies
                    #[trigger] x.take(n)[a] != #[trigger] marker[b] by {
                    assert(x.take(n)[a] == token[a]);
                }
                lemma_replaced_prefix(s, token, marker, n);
            } else {
                let k = i - 1;
                assert(xr.subrange(k, k + n) =~= x.subrange(i, i + n));
            }
        }
    }
}

/// The user agent that requests carry names the library and its version:
/// `Lettermint/{VERSION} (Rust)`.
pub proof fn law_user_agent_names_version()
    ensures
        USER_AGENT@ == "Lettermint/"@ + VERSION@ + " (Rust)"@,
{
    reveal_strlit("Lettermint/1.0.0 (Rust)");
    reveal_strlit("Lettermint/");
    reveal_strlit("1.0.0");
    reveal_strlit(" (Rust)");
    assert(USER_AGENT@ =~= "Lettermint/"@ + VERSION@ + " (Rust)"@);
}

/// The first entry of an object under a key is found by `entry_value`; a key
/// that no entry has gives nothing.
proof fn lemma_entry_value(entries: Seq<(String, JsonValue)>, key: Seq<char>, i: int)
    requires
        0 <= i <= entries.len(),
        forall|j: int| 0 <= j < i ==> (#[trigger] entries[j]).0@ != key,
    ensures
        i < entries.len() && entries[i].0@ == key ==> entry_value(entries, key) == Some(entries[i].1),
        i == entries.len() ==> entry_value(entries, key) is None,
    decreases i,
{
    if i > 0 {
        assert(entries[0].0@ != key);
        lemma_entry_value(entries.drop_first(), key, i - 1);
        assert forall|j: int| 0 <= j < i - 1 implies (#[trigger] entries.drop_first()[j]).0@ != key by {
            assert(entries.drop_first()[j] == entries[j + 1]);
        }
    }
}

/// A `422` response whose body has no `error` entry, or is not an object, or
/// is not JSON, is a validation error of type `ValidationError` that keeps
/// the body, whatever other entries the body has.
pub proof fn law_validation_error_without_error_entry(
    e: Error,
    reason: Seq<char>,
    body: Option<JsonValue>,
    token: Seq<char>,
)
    requires
        is_error_for(e, 422, reason, body, token),
        match body {
            Some(JsonValue::Object(entries)) => forall|j: int|
                0 <= j < entries@.len() ==> (#[trigger] entries@[j]).0@ != "error"@,
            _ => true,
        },
    ensures
        e matches Error::Validation { error_type, body: b } && error_type@ == "ValidationError"@
            && b == body,
{
    if let Some(JsonValue::Object(entries)) = body {
        lemma_entry_value(entries@, "error"@, entries@.len() as int);
    }
}

/// A `422` response whose body is an object whose first `error` entry is at
/// position `i` is a validation error whose type is that entry's string, or
/// `ValidationError` when the entry is not a string.
pub proof fn law_validation_error_from_error_entry(
    e: Error,
    reason: Seq<char>,
    body: JsonValue,
    token: Seq<char>,
    i: int,
)
    requires
        is_error_for(e, 422, reason, Some(body), token),
        body matches JsonValue::Object(entries) && 0 <= i < entries@.len() && entries@[i].0@
            == "error"@ && forall|j: int| 0 <= j < i ==> (#[trigger] entries@[j]).0@ != "error"@,
    ensures
        e matches Error::Validation { error_type, body: b } && b == Some(body) && error_type@
            == match body {
            JsonValue::Object(entries) => match entries@[i].1 {
                JsonValue::Str(s) => s@,
                _ => "ValidationError"@,
            },
            _ => "ValidationError"@,
        },
{
    if let JsonValue::Object(entries) = body {
        lemma_entry_value(entries@, "error"@, i);
    }
}

/// Every status from 400 up is an error, client (4xx) and server (5xx)
/// errors alike, and every status below 400 is not: a status that is an
/// error stays one at every higher status.
pub proof fn law_error_statuses(low: u16, high: u16)
    ensures
        low <= high && is_error_status_spec(low) ==> is_error_status_spec(high),
        is_error_status_spec(400),
        !is_error_status_spec(399),
        is_error_status_spec(500) && is_error_status_spec(599),
{
}

/// Adding addresses one after another keeps every address, in order: two
/// additions to a list give the list followed by both.
pub proof fn law_addresses_accumulate(list: Option<Seq<Seq<char>>>, first: Seq<char>, second: Seq<char>)
    ensures
        push_or_start(push_or_start(list, first), second) == Some(
            match list {
                Some(items) => items,
                None => seq![],
            } + seq![first, second],
        ),
{
    let base = match list {
        Some(items) => items,
        None => Seq::<Seq<char>>::empty(),
    };
    assert(base.push(first).push(second) =~= base + seq![first, second]);
}

/// Setting map entries one after another keeps the earlier entries under
/// other keys, and the later value wins under the same key.
pub proof fn law_map_entries_accumulate(
    map: Option<Map<Seq<char>, Seq<char>>>,
    k1: Seq<char>,
    v1: Seq<char>,
    k2: Seq<char>,
    v2: Seq<char>,
)
    ensures
        insert_or_start(insert_or_start(map, k1, v1), k2, v2) matches Some(m) && m[k2] == v2
            && m.contains_key(k1) && m.contains_key(k2) && (k1 != k2 ==> m[k1] == v1),
        forall|k: Seq<char>|
            #![auto]
            k != k1 && k != k2 && map is Some && map->0.contains_key(k) ==> insert_or_start(
                insert_or_start(map, k1, v1),
                k2,
                v2,
            )->0[k] == map->0[k],
{
}

/// A tag name is refused when it is empty, when it holds a character other
/// than an ASCII letter, digit, `_` or `-` (a space, for one), or when it
/// starts with `__LETTERMINT`; a non-empty name of ASCII letters alone is
/// accepted.
pub proof fn law_tag_names(name: Seq<char>, i: int)
    ensures
        !tag_name_valid(seq![]),
        0 <= i < name.len() && !(('a' <= name[i] && name[i] <= 'z') || ('A' <= name[i] && name[i] <= 'Z')
            || ('0' <= name[i] && name[i] <= '9') || name[i] == '_' || name[i] == '-')
            ==> !tag_name_valid(name),
        name.len() >= 12 && name.take(12) == "__LETTERMINT"@ ==> !tag_name_valid(name),
        name.len() > 0 && (forall|j: int| 0 <= j < name.len() ==> ('a' <= #[trigger] name[j] <= 'z'
            || 'A' <= name[j] <= 'Z')) ==> tag_name_valid(name),
{
    reveal_strlit("__LETTERMINT");
    if name.len() >= 12 && name.take(12) == "__LETTERMINT"@ {
        assert(name.take(12)[0] == '_');
    }
    if name.len() > 0 && (forall|j: int| 0 <= j < name.len() ==> ('a' <= #[trigger] name[j] <= 'z'
        || 'A' <= name[j] <= 'Z')) {
        if name.len() >= 12 && name.take(12) == "__LETTERMINT"@ {
            assert(name.take(12)[0] == name[0]);
        }
    }
}

/// A message is refused exactly when it has a plain tag beside typed tags,
/// or one of its typed tags (any of them, not only the first) has a name
/// that is refused; the conflict is reported first.
pub proof fn law_message_tags(names: Seq<Seq<char>>, has_tag: bool, i: int)
    ensures
        message_tags_error(names, has_tag) is None <==> !(has_tag && names.len() > 0) && forall|j: int|
            0 <= j < names.len() ==> tag_name_valid(#[trigger] names[j]),
        has_tag && names.len() > 0 ==> message_tags_error(names, has_tag) == Some(
            "ConflictingMessageTags"@,
        ),
        !(has_tag && names.len() > 0) && 0 <= i < names.len() && !tag_name_valid(names[i])
            ==> message_tags_error(names, has_tag) == Some("InvalidMessageTag"@),
{
}

/// A batch is refused exactly when one of its messages is, with the error of
/// the first message that is refused.
pub proof fn law_batch_tags(mails: Seq<MailView>)
    ensures
        batch_tags_error(mails) is None <==> forall|j: int|
            0 <= j < mails.len() ==> (#[trigger] mail_tags_error(mails[j])) is None,
        batch_tags_error(mails) matches Some(t) ==> exists|j: int|
            0 <= j < mails.len() && #[trigger] mail_tags_error(mails[j]) == Some(t) && forall|k: int|
                0 <= k < j ==> (#[trigger] mail_tags_error(mails[k])) is None,
    decreases mails.len(),
{
    if mails.len() > 0 {
        let rest = mails.drop_first();
        law_batch_tags(rest);
        assert forall|j: int| 0 <= j < rest.len() implies rest[j] == mails[j + 1] by {}
        if batch_tags_error(mails) is None {
            assert forall|j: int| 0 <= j < mails.len() implies (#[trigger] mail_tags_error(mails[j])) is None by {
                if j > 0 {
                    assert(mails[j] == rest[j - 1]);
                }
            }
        }
        if forall|j: int| 0 <= j < mails.len() ==> (#[trigger] mail_tags_error(mails[j])) is None {
            assert forall|j: int| 0 <= j < rest.len() implies (#[trigger] mail_tags_error(rest[j])) is None by {
                assert(rest[j] == mails[j + 1]);
            }
        }
        if let Some(t) = batch_tags_error(mails) {
            if mail_tags_error(mails[0]) is None {
                let j = choose|j: int|
                    0 <= j < rest.len() && #[trigger] mail_tags_error(rest[j]) == Some(t) && forall|k: int|
                        0 <= k < j ==> (#[trigger] mail_tags_error(rest[k])) is None;
                assert(mails[j + 1] == rest[j]);
                assert forall|k: int| 0 <= k < j + 1 implies (#[trigger] mail_tags_error(mails[k])) is None by {
                    if k > 0 {
                        assert(mails[k] == rest[k - 1]);
                    }
                }
            }
        }
    }
}

proof fn lemma_trim_start(s: Seq<char>) -> (k: int)
    ensures
        0 <= k <= s.len(),
        trim_start_ws(s) == s.skip(k),
        forall|j: int| 0 <= j < k ==> is_whitespace(#[trigger] s[j]),
        k < s.len() ==> !is_whitespace(s[k]),
    decreases s.len(),
{
    if s.len() > 0 && is_whitespace(s[0]) {
        let k1 = lemma_trim_start(s.drop_first());
        assert(s.drop_first().skip(k1) == s.skip(k1 + 1));
        assert forall|j: int| 0 <= j < k1 + 1 implies is_whitespace(#[trigger] s[j]) by {
            if j > 0 {
                assert(s[j] == s.drop_first()[j - 1]);
            }
        }
        k1 + 1
    } else {
        assert(s.skip(0) == s);
        0
    }
}

proof fn lemma_trim_end(s: Seq<char>) -> (k: int)
    ensures
        0 <= k <= s.len(),
        trim_end_ws(s) == s.take(k),
        forall|j: int| k <= j < s.len() ==> is_whitespace(#[trigger] s[j]),
        k > 0 ==> !is_whitespace(s[k - 1]),
    decreases s.len(),
{
    if s.len() > 0 && is_whitespace(s.last()) {
        let k1 = lemma_trim_end(s.drop_last());
        assert(s.drop_last().take(k1) == s.take(k1));
        assert forall|j: int| k1 <= j < s.len() implies is_whitespace(#[trigger] s[j]) by {
            if j < s.len() - 1 {
                assert(s[j] == s.drop_last()[j]);
            }
        }
        k1
    } else {
        assert(s.take(s.len() as int) == s);
        s.len() as int
    }
}

/// Trimming removes exactly the whitespace at both ends: the result is the
/// part of the text between a run of leading and a run of trailing
/// whitespace, and it neither starts nor ends with whitespace.
pub proof fn law_trim_removes_only_surrounding_whitespace(s: Seq<char>)
    ensures
        exists|a: int, b: int|
            0 <= a <= b <= s.len() && trim_ws(s) == s.subrange(a, b) && (forall|j: int|
                0 <= j < a ==> is_whitespace(#[trigger] s[j])) && (forall|j: int|
                b <= j < s.len() ==> is_whitespace(#[trigger] s[j])),
        trim_ws(s).len() > 0 ==> !is_whitespace(trim_ws(s)[0]) && !is_whitespace(trim_ws(s).last()),
{
    let a = lemma_trim_start(s);
    let u = s.skip(a);
    let k = lemma_trim_end(u);
    let b = a + k;
    assert(trim_ws(s) == u.take(k));
    assert(u.take(k) == s.subrange(a, b));
    assert forall|j: int| b <= j < s.len() implies is_whitespace(#[trigger] s[j]) by {
        assert(s[j] == u[j - a]);
    }
    if k > 0 {
        assert(u[0] == s[a]);
        assert(trim_ws(s)[0] == u[0]);
        assert(trim_ws(s).last() == u[k - 1]);
    }
}

/// Replacing the empty pattern puts the marker before every character and
/// at the end: the text grows by one marker per character plus one.
pub proof fn law_empty_pattern_replacement_length(s: Seq<char>, marker: Seq<char>)
    ensures
        replace_all(s, seq![], marker).len() == s.len() + (s.len() + 1) * marker.len(),
    decreases s.len(),
{
    let e: Seq<char> = seq![];
    let n = s.len() as int;
    let m = marker.len() as int;
    if n > 0 {
        law_empty_pattern_replacement_length(s.drop_first(), marker);
        assert(replace_all(s, e, marker) == marker + seq![s[0]] + replace_all(s.drop_first(), e, marker));
        assert(n * m + m == (n + 1) * m) by (nonlinear_arith);
    } else {
        assert(replace_all(s, e, marker) == marker);
        assert((n + 1) * m == m) by (nonlinear_arith)
            requires
                n == 0,
        ;
    }
}

/// The query text of a query with one more pair is the earlier query text,
/// `&`, and the new pair as `key=value`, both percent-encoded.
pub proof fn law_query_pairs_are_joined(
    query: Seq<(Seq<char>, Seq<char>)>,
    key: Seq<char>,
    value: Seq<char>,
)
    ensures
        query_text(query.push((key, value))) == if query.len() == 0 {
            url_encoded(key) + seq!['='] + url_encoded(value)
        } else {
            query_text(query) + seq!['&'] + url_encoded(key) + seq!['='] + url_encoded(value)
        },
{
    assert(query.push((key, value)).drop_last() == query);
}

/// A `+` sign before the decimal form of a non-negative `i64` is accepted and
/// changes nothing.
pub proof fn law_plus_sign_accepted(t: i64)
    requires
        t >= 0,
    ensures
        parse_i64_spec(seq!['+'] + int_decimal(t as int)) == Some(t),
{
    lemma_nat_decimal(t as nat);
    let s = seq!['+'] + nat_decimal(t as nat);
    assert(s.drop_first() == nat_decimal(t as nat));
}

/// A delivery whose secret is set, whose signature header parses, and whose
/// delivery timestamp (if any) matches, but whose timestamp is more than the
/// tolerance away from the clock (either way), is refused as outside the
/// tolerance, with the distance (at most `i64::MAX`) and the tolerance.
pub proof fn law_stale_delivery_is_refused(
    secret: Seq<char>,
    tolerance: i64,
    payload: Seq<char>,
    signature: Seq<char>,
    delivery: Option<i64>,
    now: u64,
    t: i64,
    v1: Seq<char>,
)
    requires
        secret.len() > 0,
        parse_signature_spec(signature) == Some((t, v1)),
        delivery is None || delivery == Some(t),
        ({
            let c = (now as i64) as int;
            c - t > tolerance || t - c > tolerance
        }),
    ensures
        webhook_outcome(secret, tolerance, payload, signature, delivery, Some(now)) == Some(
            WebhookFailure::TimestampOutsideTolerance(
                ({
                    let c = (now as i64) as int;
                    let d = if c >= t {
                        c - t
                    } else {
                        t - c
                    };
                    if d > i64::MAX {
                        i64::MAX
                    } else {
                        d as i64
                    }
                }),
                tolerance,
            ),
        ),
{
}

/// The value found for a header name regardless of case is the value of the
/// last pair whose name, in ASCII lowercase, is that name; there is one
/// exactly when some pair's name is.
pub proof fn law_header_found_regardless_of_case(pairs: Seq<(Seq<char>, Seq<char>)>, name: Seq<char>)
    ensures
        last_lowercase_match(pairs, name) is Some <==> exists|i: int|
            0 <= i < pairs.len() && ascii_lowercase(#[trigger] pairs[i].0) == name,
        last_lowercase_match(pairs, name) matches Some(v) ==> exists|i: int|
            0 <= i < pairs.len() && ascii_lowercase(#[trigger] pairs[i].0) == name && pairs[i].1 == v
                && forall|j: int| i < j < pairs.len() ==> ascii_lowercase(#[trigger] pairs[j].0) != name,
    decreases pairs.len(),
{
    if pairs.len() > 0 {
        let init = pairs.drop_last();
        law_header_found_regardless_of_case(init, name);
        let n = pairs.len() - 1;
        if ascii_lowercase(pairs[n].0) == name {
            assert(pairs.last() == pairs[n]);
        } else {
            assert forall|i: int| 0 <= i < init.len() implies init[i] == pairs[i] by {}
            if exists|i: int| 0 <= i < pairs.len() && ascii_lowercase(#[trigger] pairs[i].0) == name {
                let i = choose|i: int| 0 <= i < pairs.len() && ascii_lowercase(#[trigger] pairs[i].0) == name;
                assert(i < n);
                assert(init[i] == pairs[i]);
            }
            if let Some(v) = last_lowercase_match(pairs, name) {
                let i = choose|i: int|
                    0 <= i < init.len() && ascii_lowercase(#[trigger] init[i].0) == name && init[i].1 == v
                        && forall|j: int| i < j < init.len() ==> ascii_lowercase(#[trigger] init[j].0) != name;
                assert(pairs[i] == init[i]);
                assert forall|j: int| i < j < pairs.len() implies ascii_lowercase(#[trigger] pairs[j].0) != name by {
                    if j < n {
                        assert(pairs[j] == init[j]);
                    }
                }
            }
        }
    }
}

/// A request's URL is the base URL, `/`, and the path without its leading
/// slashes, followed by `?` and the query text when there is a query.
pub proof fn law_request_url(base_url: Seq<char>, path: Seq<char>, query: Seq<(Seq<char>, Seq<char>)>)
    requires
        path.len() == 0 || path[0] != '/',
    ensures
        query.len() == 0 ==> request_url(base_url, path, query) == base_url + seq!['/'] + path,
        query.len() > 0 ==> request_url(base_url, path, query) == base_url + seq!['/'] + path
            + seq!['?'] + query_text(query),
{
}

/// A request without the caller's headers carries the JSON `accept` and
/// `content-type` headers and the library's user agent.
pub proof fn law_default_headers_are_sent(auth: AuthMode, token: Seq<char>)
    ensures
        request_headers(auth, token, seq![])["accept"@] == "application/json"@,
        request_headers(auth, token, seq![])["content-type"@] == "application/json"@,
        request_headers(auth, token, seq![])["user-agent"@] == USER_AGENT@,
{
    reveal_strlit("accept");
    reveal_strlit("content-type");
    reveal_strlit("user-agent");
    reveal_strlit("authorization");
    reveal_strlit("x-lettermint-token");
    let d = default_headers();
    let e: Seq<(Seq<char>, Seq<char>)> = seq![];
    assert(merge_headers(d, e) == d);
    assert("accept"@.len() == 6 && "content-type"@.len() == 12 && "user-agent"@.len() == 10);
    assert("authorization"@.len() == 13 && "x-lettermint-token"@.len() == 18);
    assert("accept"@ != "content-type"@);
    assert("accept"@ != "user-agent"@);
    assert("content-type"@ != "user-agent"@);
    assert("accept"@ != "authorization"@ && "accept"@ != "x-lettermint-token"@);
    assert("content-type"@ != "authorization"@ && "content-type"@ != "x-lettermint-token"@);
    assert("user-agent"@ != "authorization"@ && "user-agent"@ != "x-lettermint-token"@);
}

/// ASCII lowercase keeps the length, turns each capital `A`..`Z` into its
/// small letter and keeps every other character.
pub proof fn law_ascii_lowercase(s: Seq<char>, i: int)
    ensures
        ascii_lowercase(s).len() == s.len(),
        0 <= i < s.len() && 'A' <= s[i] <= 'Z' ==> ascii_lowercase(s)[i] as u32 == s[i] as u32 + 32,
        0 <= i < s.len() && !('A' <= s[i] <= 'Z') ==> ascii_lowercase(s)[i] == s[i],
{
}

} // verus!
