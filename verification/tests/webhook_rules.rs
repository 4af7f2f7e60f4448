use hmac::{Hmac, Mac};
use lettermint::strmap::StringMap;
use lettermint::webhook::{
    parse_signature, validate_timestamp, verify_signature, DEFAULT_TOLERANCE_SECONDS,
    DELIVERY_HEADER, SIGNATURE_HEADER,
};
use lettermint::{Error, Webhook};
use sha2::Sha256;

const NOW: u64 = 1_700_000_000;
const PAYLOAD: &str = r#"{"event":"message.delivered","data":{"message_id":"msg_123"}}"#;

fn tag_hex(payload: &str, secret: &str, timestamp: i64) -> String {
    let mut mac = Hmac::<Sha256>::new_from_slice(secret.as_bytes()).unwrap();
    mac.update(format!("{timestamp}.{payload}").as_bytes());
    hex::encode(mac.finalize().into_bytes())
}

fn header(payload: &str, secret: &str, timestamp: i64) -> String {
    format!("t={timestamp},v1={}", tag_hex(payload, secret, timestamp))
}

#[test]
fn signature_header_parses() {
    assert_eq!(parse_signature("t=5,v1=ab"), Some((5, "ab".to_string())));
    assert_eq!(parse_signature(" t = -12 , v1 = cd "), Some((-12, "cd".to_string())));
    assert_eq!(parse_signature("v0=zz,t=1,junk,v1=x,t=2"), Some((2, "x".to_string())));
    assert_eq!(parse_signature("t=1"), None);
    assert_eq!(parse_signature("v1=ab"), None);
    assert_eq!(parse_signature("t=abc,v1=ab"), None);
    assert_eq!(parse_signature("t=1,v1=ab,t=x"), None);
    assert_eq!(parse_signature(""), None);
    assert_eq!(parse_signature("t=+7,v1="), Some((7, String::new())));
}

#[test]
fn signature_header_round_trips() {
    for (timestamp, signature) in [(-5i64, "a=b c"), (0, ""), (i64::MAX, "v1=t"), (i64::MIN, "x")] {
        let text = format!("t={timestamp},v1={signature}");
        assert_eq!(parse_signature(&text), Some((timestamp, signature.to_string())));
    }
}

#[test]
fn timestamp_tolerance_reports_distance() {
    assert!(validate_timestamp(1_000, 300, Some(1_300)).is_ok());
    assert!(validate_timestamp(1_600, 300, Some(1_300)).is_ok());
    assert!(matches!(
        validate_timestamp(1_000, 300, Some(1_301)),
        Err(Error::TimestampOutsideTolerance { difference_seconds: 301, tolerance_seconds: 300 })
    ));
    assert!(matches!(
        validate_timestamp(2_000, 10, Some(1_000)),
        Err(Error::TimestampOutsideTolerance { difference_seconds: 1_000, tolerance_seconds: 10 })
    ));
    assert!(matches!(
        validate_timestamp(0, 0, None),
        Err(Error::InvalidSignatureFormat)
    ));
    assert!(matches!(
        validate_timestamp(i64::MIN, 5, Some(10)),
        Err(Error::TimestampOutsideTolerance { difference_seconds: i64::MAX, tolerance_seconds: 5 })
    ));
}

#[test]
fn signatures_are_checked_against_the_secret() {
    let good = tag_hex("{}", "whsec", 42);
    assert!(verify_signature("{}", 42, &good, "whsec").is_ok());
    assert!(verify_signature("{}", 42, &good.to_uppercase(), "whsec").is_ok());
    assert!(matches!(verify_signature("{}", 43, &good, "whsec"), Err(Error::InvalidSignature)));
    assert!(matches!(verify_signature("{ }", 42, &good, "whsec"), Err(Error::InvalidSignature)));
    assert!(matches!(verify_signature("{}", 42, &good, "other"), Err(Error::InvalidSignature)));
    assert!(matches!(verify_signature("{}", 42, "abc", "whsec"), Err(Error::InvalidSignature)));
    assert!(matches!(verify_signature("{}", 42, "zz", "whsec"), Err(Error::InvalidSignature)));
}

#[test]
fn fresh_signed_delivery_is_accepted() {
    let timestamp = NOW as i64 - 30;
    let signature = header(PAYLOAD, "whsec_test", timestamp);
    let value = Webhook::new("whsec_test")
        .verify_at(PAYLOAD, &signature, Some(timestamp), Some(NOW))
        .unwrap();
    assert_eq!(
        value.get("data").and_then(|d| d.get("message_id")).and_then(|v| v.as_str()),
        Some("msg_123")
    );
    assert_eq!(DEFAULT_TOLERANCE_SECONDS, 300);
}

#[test]
fn every_refusal_has_its_error() {
    let timestamp = NOW as i64;
    let signature = header(PAYLOAD, "whsec_test", timestamp);
    let hook = Webhook::new("whsec_test");
    assert!(matches!(
        Webhook::new("").verify_at(PAYLOAD, &signature, None, Some(NOW)),
        Err(Error::MissingWebhookSecret)
    ));
    assert!(matches!(
        hook.verify_at(PAYLOAD, "v1=abcd", None, Some(NOW)),
        Err(Error::InvalidSignatureFormat)
    ));
    assert!(matches!(
        hook.verify_at(PAYLOAD, &signature, Some(timestamp + 1), Some(NOW)),
        Err(Error::TimestampMismatch)
    ));
    assert!(matches!(
        hook.verify_at(PAYLOAD, &signature, None, Some(NOW + 301)),
        Err(Error::TimestampOutsideTolerance { difference_seconds: 301, tolerance_seconds: 300 })
    ));
    assert!(matches!(
        hook.verify_at(PAYLOAD, &signature, None, None),
        Err(Error::InvalidSignatureFormat)
    ));
    assert!(matches!(
        hook.verify_at("{\"event\":\"other\"}", &signature, None, Some(NOW)),
        Err(Error::InvalidSignature)
    ));
    let not_json = "not json";
    let signed = header(not_json, "whsec_test", timestamp);
    assert!(matches!(
        hook.verify_at(not_json, &signed, None, Some(NOW)),
        Err(Error::InvalidWebhookJson(_))
    ));
}

#[test]
fn tolerance_can_be_widened() {
    let timestamp = NOW as i64 - 600;
    let signature = header(PAYLOAD, "whsec_test", timestamp);
    assert!(Webhook::new("whsec_test").verify_at(PAYLOAD, &signature, None, Some(NOW)).is_err());
    assert!(Webhook::new("whsec_test")
        .with_tolerance(600)
        .verify_at(PAYLOAD, &signature, None, Some(NOW))
        .is_ok());
}

#[test]
fn headers_are_found_in_any_case() {
    let timestamp = std::time::SystemTime::now()
        .duration_since(std::time::UNIX_EPOCH)
        .unwrap()
        .as_secs() as i64;
    let signature = header(PAYLOAD, "whsec_test", timestamp);
    let mut headers = StringMap::new();
    headers.insert("X-Lettermint-Signature".to_string(), signature);
    headers.insert("X-LETTERMINT-DELIVERY".to_string(), timestamp.to_string());
    let value = Webhook::new("whsec_test").verify_headers(PAYLOAD, &headers).unwrap();
    assert_eq!(value.get("event").and_then(|v| v.as_str()), Some("message.delivered"));
    let at = Webhook::new("whsec_test")
        .verify_headers_at(PAYLOAD, &headers, Some(timestamp as u64 + 10))
        .unwrap();
    assert_eq!(at.get("event").and_then(|v| v.as_str()), Some("message.delivered"));
    assert!(matches!(
        Webhook::new("whsec_test").verify_headers_at(PAYLOAD, &headers, Some(timestamp as u64 + 301)),
        Err(Error::TimestampOutsideTolerance { difference_seconds: 301, .. })
    ));
    assert_eq!(SIGNATURE_HEADER, "x-lettermint-signature");
    assert_eq!(DELIVERY_HEADER, "x-lettermint-delivery");
}

#[test]
fn missing_or_malformed_headers_are_a_format_error() {
    let hook = Webhook::new("whsec_test");
    let mut only_signature = StringMap::new();
    only_signature.insert(SIGNATURE_HEADER.to_string(), "t=1,v1=ab".to_string());
    assert!(matches!(
        hook.verify_headers(PAYLOAD, &only_signature),
        Err(Error::InvalidSignatureFormat)
    ));
    let mut bad_delivery = StringMap::new();
    bad_delivery.insert(SIGNATURE_HEADER.to_string(), "t=1,v1=ab".to_string());
    bad_delivery.insert(DELIVERY_HEADER.to_string(), "soon".to_string());
    assert!(matches!(
        hook.verify_headers(PAYLOAD, &bad_delivery),
        Err(Error::InvalidSignatureFormat)
    ));
    let mut mismatch = StringMap::new();
    mismatch.insert(SIGNATURE_HEADER.to_string(), "t=1,v1=ab".to_string());
    mismatch.insert(DELIVERY_HEADER.to_string(), "2".to_string());
    assert!(matches!(
        hook.verify_headers(PAYLOAD, &mismatch),
        Err(Error::TimestampMismatch)
    ));
}
