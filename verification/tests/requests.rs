use lettermint::client::{
    check_headers, ping_reply, response_error, AuthMode, HttpClient, HttpRequest, HttpResponse,
    ReqwestTransport, USER_AGENT, VERSION,
};
use lettermint::email::{validate_message_tags, MessageTag, SendMailRequest};
use lettermint::endpoints::{resource_path, resource_path2, segment, EMPTY_BODY};
use lettermint::json::JsonValue;
use lettermint::strmap::StringMap;
use lettermint::{Error, Lettermint};

fn header<'a>(request: &'a HttpRequest, name: &str) -> Option<&'a String> {
    request.headers.get(name)
}

#[test]
fn email_ping_uses_sending_auth() {
    let email = Lettermint::email_with_transport("sending-token", ()).unwrap();
    let request = email.ping();
    assert_eq!(request.method, "GET");
    assert_eq!(request.url, "https://api.lettermint.co/v1/ping");
    assert_eq!(header(&request, "x-lettermint-token").unwrap(), "sending-token");
    assert!(!request.headers.contains_key("authorization"));
    assert!(request.body.is_none());
    assert_eq!(ping_reply(" pong\n"), "pong");
}

#[test]
fn api_ping_uses_bearer_auth() {
    let api = Lettermint::api_with_transport("api-token", ()).unwrap();
    let request = api.ping();
    assert_eq!(header(&request, "authorization").unwrap(), "Bearer api-token");
    assert!(!request.headers.contains_key("x-lettermint-token"));
    assert_eq!(ping_reply(" pong"), "pong");
}

#[test]
fn default_headers_are_sent() {
    let email = Lettermint::email_with_transport("tok", ()).unwrap();
    let request = email.ping();
    assert_eq!(header(&request, "accept").unwrap(), "application/json");
    assert_eq!(header(&request, "content-type").unwrap(), "application/json");
    assert_eq!(header(&request, "user-agent").unwrap(), "Lettermint/1.0.0 (Rust)");
    assert_eq!(request.headers.len(), 4);
}

#[test]
fn empty_token_is_refused() {
    assert!(matches!(
        Lettermint::email_with_transport("", ()),
        Err(Error::MissingToken)
    ));
    assert!(matches!(
        Lettermint::api_with_transport("", ()),
        Err(Error::MissingToken)
    ));
    assert!(matches!(
        HttpClient::with_transport("", AuthMode::Api, 7u8),
        Err(Error::MissingToken)
    ));
}

#[test]
fn caller_headers_are_lowercased_and_cannot_replace_credentials() {
    let client = HttpClient::with_transport("secret-token", AuthMode::Sending, ()).unwrap();
    let mut extra = StringMap::new();
    extra.insert("X-Campaign".to_string(), "spring".to_string());
    extra.insert("X-Lettermint-Token".to_string(), "forged".to_string());
    extra.insert("Authorization".to_string(), "Bearer forged".to_string());
    extra.insert("Accept".to_string(), "text/plain".to_string());
    let headers = client.headers(Some(&extra));
    assert_eq!(headers.get("x-campaign").unwrap(), "spring");
    assert_eq!(headers.get("x-lettermint-token").unwrap(), "secret-token");
    assert!(!headers.contains_key("authorization"));
    assert_eq!(headers.get("accept").unwrap(), "text/plain");
    assert!(!headers.contains_key("X-Campaign"));
}

#[test]
fn base_url_loses_trailing_slashes_and_path_leading_slashes() {
    let client = HttpClient::with_transport("t", AuthMode::Api, ())
        .unwrap()
        .with_base_url("https://example.test/api///");
    assert_eq!(client.url("//domains", &[]), "https://example.test/api/domains");
    assert_eq!(client.url("domains", &[]), "https://example.test/api/domains");
    assert_eq!(client.auth(), AuthMode::Api);
}

#[test]
fn query_pairs_are_percent_encoded_and_joined() {
    let client = HttpClient::with_transport("t", AuthMode::Api, ()).unwrap();
    assert_eq!(
        client.url("/x", &[("a b", "c&d"), ("e", "é/~")]),
        "https://api.lettermint.co/v1/x?a%20b=c%26d&e=%C3%A9%2F~"
    );
}

#[test]
fn domain_requests_map_query_and_path() {
    let api = Lettermint::api_with_transport("api-token", ()).unwrap();
    let list = api.domains().list(&[("page[size]", "5")]);
    let show = api.domains().retrieve("domain 1");
    let created = api.domains().create("{\"domain\":\"new.example\"}".to_string());
    assert_eq!(list.url, "https://api.lettermint.co/v1/domains?page%5Bsize%5D=5");
    assert_eq!(show.url, "https://api.lettermint.co/v1/domains/domain%201");
    assert_eq!(show.method, "GET");
    assert_eq!(created.method, "POST");
    assert_eq!(created.url, "https://api.lettermint.co/v1/domains");
    assert_eq!(created.body.as_deref(), Some("{\"domain\":\"new.example\"}"));
}

#[test]
fn domain_dns_verification_posts_an_empty_object() {
    let api = Lettermint::api_with_transport("api-token", ()).unwrap();
    let all = api.domains().verify_dns_records("d1");
    let one = api.domains().verify_dns_record("d1", "rec/2");
    assert_eq!(all.url, "https://api.lettermint.co/v1/domains/d1/dns-records/verify");
    assert_eq!(one.url, "https://api.lettermint.co/v1/domains/d1/dns-records/rec%2F2/verify");
    assert_eq!(one.method, "POST");
    assert_eq!(one.body.as_deref(), Some(EMPTY_BODY));
    assert_eq!(EMPTY_BODY, "{}");
}

#[test]
fn message_requests_map_paths() {
    let api = Lettermint::api_with_transport("api-token", ()).unwrap();
    assert_eq!(
        api.messages().source("message id").url,
        "https://api.lettermint.co/v1/messages/message%20id/source"
    );
    assert_eq!(
        api.messages().html("message id").url,
        "https://api.lettermint.co/v1/messages/message%20id/html"
    );
    assert_eq!(
        api.messages().text("message id").url,
        "https://api.lettermint.co/v1/messages/message%20id/text"
    );
    let process = api.messages().process("message id");
    assert_eq!(
        process.url,
        "https://api.lettermint.co/v1/messages/message%20id/process"
    );
    assert_eq!(process.method, "POST");
}

#[test]
fn team_requests_map_paths() {
    let api = Lettermint::api_with_transport("api-token", ()).unwrap();
    assert_eq!(api.team().roles().url, "https://api.lettermint.co/v1/team/roles");
    assert_eq!(
        api.team().member("user/id").url,
        "https://api.lettermint.co/v1/team/members/user%2Fid"
    );
    let update = api
        .team()
        .update_member_assignment("user/id", "{\"role_id\":\"role_123\"}".to_string());
    assert_eq!(update.method, "PUT");
    assert_eq!(
        update.url,
        "https://api.lettermint.co/v1/team/members/user%2Fid/assignment"
    );
    assert!(update.body.as_deref().unwrap().contains("\"role_id\":\"role_123\""));
    assert_eq!(
        api.blocked_file_types().url,
        "https://api.lettermint.co/v1/blocked-file-types"
    );
    assert_eq!(api.blocked_file_types().method, "GET");
}

#[test]
fn path_segments_are_percent_encoded() {
    assert_eq!(segment("user/id"), "user%2Fid");
    assert_eq!(segment("a-b_c.d~e"), "a-b_c.d~e");
    assert_eq!(resource_path("/webhooks/", "w 1", "/test"), "/webhooks/w%201/test");
    assert_eq!(
        resource_path2("/projects/", "p1", "/members/", "u?1", ""),
        "/projects/p1/members/u%3F1"
    );
}

#[test]
fn email_send_requests() {
    let email = Lettermint::email_with_transport("sending-token", ()).unwrap();
    let message = SendMailRequest::default();
    let single = email.send(&message, "{}".to_string()).unwrap();
    assert_eq!(single.method, "POST");
    assert_eq!(single.url, "https://api.lettermint.co/v1/send");
    let batch = email.send_batch(&[], "[]".to_string()).unwrap();
    assert_eq!(batch.url, "https://api.lettermint.co/v1/send/batch");
    assert!(!batch.headers.contains_key("idempotency-key"));
    let keyed = email.send_batch_with_idempotency_key(&[], "[]".to_string(), "batch-7").unwrap();
    assert_eq!(keyed.url, "https://api.lettermint.co/v1/send/batch");
    assert_eq!(header(&keyed, "idempotency-key").unwrap(), "batch-7");
    assert_eq!(header(&keyed, "x-lettermint-token").unwrap(), "sending-token");
}

#[test]
fn builder_fills_the_message_and_sends_the_idempotency_key() {
    let email = Lettermint::email_with_transport("sending-token", ()).unwrap();
    let builder = email
        .email()
        .from("sender@example.com")
        .to("first@example.com")
        .subject("First")
        .html("<p>Hello</p>")
        .attach("invoice.pdf", "base64-pdf")
        .idempotency_key("idem-1");
    {
        let payload = builder.payload();
        assert_eq!(payload.from, "sender@example.com");
        assert_eq!(payload.to, vec!["first@example.com".to_string()]);
        assert_eq!(payload.subject, "First");
        assert_eq!(payload.html.as_deref(), Some("<p>Hello</p>"));
        let attachments = payload.attachments.as_ref().unwrap();
        assert_eq!(attachments.len(), 1);
        assert_eq!(attachments[0].filename, "invoice.pdf");
        assert_eq!(attachments[0].content, "base64-pdf");
        assert!(attachments[0].content_type.is_none());
    }
    let first = builder.send("{\"from\":\"sender@example.com\"}".to_string());
    assert_eq!(first.url, "https://api.lettermint.co/v1/send");
    assert_eq!(header(&first, "idempotency-key").unwrap(), "idem-1");

    let second_builder = email
        .email()
        .from("sender@example.com")
        .to("second@example.com")
        .subject("Second");
    assert!(second_builder.payload().attachments.is_none());
    let second = second_builder.send("{}".to_string());
    assert!(!second.headers.contains_key("idempotency-key"));
}

#[test]
fn builder_collects_lists_maps_and_options() {
    let email = Lettermint::email_with_transport("sending-token", ()).unwrap();
    let builder = email
        .email()
        .to("a@example.com")
        .to("b@example.com")
        .cc("c@example.com")
        .bcc("d@example.com")
        .reply_to("e@example.com")
        .header("X-One", "1")
        .header("X-One", "2")
        .metadata("campaign", "2025-03")
        .tag("newsletter")
        .route("my-route")
        .scheduled_at("2030-01-01T00:00:00Z")
        .text("plain")
        .attach_with_options(
            "logo.png",
            "b64",
            Some("logo".to_string()),
            Some("image/png".to_string()),
        );
    let payload = builder.payload();
    assert_eq!(payload.to, vec!["a@example.com".to_string(), "b@example.com".to_string()]);
    assert_eq!(payload.cc.as_ref().unwrap(), &vec!["c@example.com".to_string()]);
    assert_eq!(payload.bcc.as_ref().unwrap(), &vec!["d@example.com".to_string()]);
    assert_eq!(payload.reply_to.as_ref().unwrap(), &vec!["e@example.com".to_string()]);
    let headers = payload.headers.as_ref().unwrap();
    assert_eq!(headers.get("X-One").unwrap(), "2");
    assert_eq!(headers.len(), 1);
    assert_eq!(payload.metadata.as_ref().unwrap().get("campaign").unwrap(), "2025-03");
    assert_eq!(payload.tag.as_deref(), Some("newsletter"));
    assert_eq!(payload.route.as_deref(), Some("my-route"));
    assert_eq!(payload.scheduled_at.as_deref(), Some("2030-01-01T00:00:00Z"));
    assert_eq!(payload.text.as_deref(), Some("plain"));
    let attachment = &payload.attachments.as_ref().unwrap()[0];
    assert_eq!(attachment.content_id.as_deref(), Some("logo"));
    assert_eq!(attachment.content_type.as_deref(), Some("image/png"));
}

fn response(status: u16, reason: &str, body: &str) -> HttpResponse {
    HttpResponse { status, reason: reason.to_string(), body: body.to_string() }
}

fn text_of(value: Option<&JsonValue>) -> Option<&str> {
    value.and_then(|v| v.as_str())
}

#[test]
fn validation_error_names_its_type() {
    let client = HttpClient::with_transport("tok", AuthMode::Sending, ()).unwrap();
    let body = r#"{"message":"bad","error":"InvalidRecipient"}"#;
    match client.error_from_response(response(422, "Unprocessable Entity", body)) {
        Error::Validation { error_type, body } => {
            assert_eq!(error_type, "InvalidRecipient");
            assert_eq!(text_of(body.as_ref().unwrap().get("message")), Some("bad"));
        }
        other => panic!("unexpected {other:?}"),
    }
    match client.error_from_response(response(422, "Unprocessable Entity", "not json")) {
        Error::Validation { error_type, body } => {
            assert_eq!(error_type, "ValidationError");
            assert!(body.is_none());
        }
        other => panic!("unexpected {other:?}"),
    }
    match client.error_from_response(response(422, "Unprocessable Entity", r#"{"error":true}"#)) {
        Error::Validation { error_type, .. } => assert_eq!(error_type, "ValidationError"),
        other => panic!("unexpected {other:?}"),
    }
}

#[test]
fn http_error_hides_the_token() {
    let client = HttpClient::with_transport("tok-123", AuthMode::Api, ()).unwrap();
    let body = r#"{"message":"token tok-123 is invalid","list":["tok-123tok-123",42,null],"tok-123":false}"#;
    match client.error_from_response(response(401, "Unauthorized", body)) {
        Error::Http { status, message, body: Some(value) } => {
            assert_eq!(status, 401);
            assert_eq!(message, "Unauthorized");
            assert_eq!(text_of(value.get("message")), Some("token [REDACTED] is invalid"));
            match value.get("list") {
                Some(JsonValue::Array(items)) => {
                    assert_eq!(items[0].as_str(), Some("[REDACTED][REDACTED]"));
                    assert!(matches!(&items[1], JsonValue::Number(n) if n == "42"));
                    assert!(matches!(&items[2], JsonValue::Null));
                }
                other => panic!("unexpected {other:?}"),
            }
            assert!(matches!(value.get("tok-123"), Some(JsonValue::Bool(false))));
        }
        other => panic!("unexpected {other:?}"),
    }
}

#[test]
fn responses_below_400_pass() {
    let client = HttpClient::with_transport("tok", AuthMode::Api, ()).unwrap();
    let ok = client.finish_response(response(204, "No Content", "")).unwrap();
    assert_eq!(ok.status, 204);
    assert!(matches!(
        client.finish_response(response(404, "Not Found", "")),
        Err(Error::Http { status: 404, body: None, .. })
    ));
    assert!(matches!(
        client.finish_response(response(400, "Bad Request", "[]")),
        Err(Error::Http { status: 400, body: Some(JsonValue::Array(_)), .. })
    ));
    let passed = client.finish_response(response(399, "", "{oops")).unwrap();
    assert_eq!(passed.body, "{oops");
}

#[test]
fn request_builders_set_method_and_body() {
    let client = HttpClient::with_transport("tok", AuthMode::Api, ()).unwrap();
    assert_eq!(client.put("/team", "{\"a\":1}".to_string()).method, "PUT");
    let deleted = client.delete("/webhooks/w1");
    assert_eq!(deleted.method, "DELETE");
    assert!(deleted.body.is_none());
    assert_eq!(deleted.url, "https://api.lettermint.co/v1/webhooks/w1");
    let posted = client.post("/suppressions", "{}".to_string());
    assert_eq!(posted.body.as_deref(), Some("{}"));
}

#[test]
fn http_error_body_without_the_token_is_kept() {
    let client = HttpClient::with_transport("tok-123", AuthMode::Sending, ()).unwrap();
    match client.error_from_response(response(500, "Internal Server Error", r#"["tok-12 is close"]"#)) {
        Error::Http { body: Some(JsonValue::Array(items)), message, .. } => {
            assert_eq!(message, "Internal Server Error");
            assert_eq!(items[0].as_str(), Some("tok-12 is close"));
        }
        other => panic!("unexpected {other:?}"),
    }
}

#[test]
fn invalid_headers_are_refused_by_name_in_key_order() {
    let mut headers = StringMap::new();
    headers.insert("x-good".to_string(), "value\twith tab".to_string());
    assert!(check_headers(&headers).is_ok());
    headers.insert("x bad".to_string(), "v".to_string());
    headers.insert("z-bad-value".to_string(), "line\nbreak".to_string());
    headers.insert("a-bad-value".to_string(), "del\u{7f}".to_string());
    match check_headers(&headers) {
        Err(Error::InvalidHeader(name)) => assert_eq!(name, "a-bad-value"),
        other => panic!("unexpected {other:?}"),
    }
    let mut empty_name = StringMap::new();
    empty_name.insert(String::new(), "v".to_string());
    assert!(matches!(check_headers(&empty_name), Err(Error::InvalidHeader(n)) if n.is_empty()));
    let mut unicode = StringMap::new();
    unicode.insert("x-ok".to_string(), "é".to_string());
    assert!(check_headers(&unicode).is_ok());
    unicode.insert("x-é".to_string(), "v".to_string());
    assert!(matches!(check_headers(&unicode), Err(Error::InvalidHeader(n)) if n == "x-é"));
}

#[test]
fn message_tags_are_validated() {
    assert!(MessageTag::new("invalid name", "value").is_err());
    assert!(MessageTag::new("__LETTERMINT_internal", "value").is_err());
    assert!(MessageTag::new("", "value").is_err());
    let tag = MessageTag::new("campaign", "welcome").unwrap();
    assert_eq!(tag.name, "campaign");
    assert_eq!(tag.value, "welcome");
    assert!(matches!(
        MessageTag::new("a b", "v"),
        Err(Error::Validation { error_type, body: None }) if error_type == "InvalidMessageTag"
    ));
    let valid = vec![MessageTag::new("Camp_1-x", "v").unwrap()];
    assert!(validate_message_tags(&valid, false).is_ok());
    assert!(validate_message_tags(&[], true).is_ok());
    assert!(matches!(
        validate_message_tags(&valid, true),
        Err(Error::Validation { error_type, .. }) if error_type == "ConflictingMessageTags"
    ));
    let raw = vec![MessageTag { name: "bad name".to_string(), value: "v".to_string() }];
    assert!(matches!(
        validate_message_tags(&raw, false),
        Err(Error::Validation { error_type, .. }) if error_type == "InvalidMessageTag"
    ));
}

#[test]
fn sends_refuse_invalid_tags() {
    let email = Lettermint::email_with_transport("sending-token", ()).unwrap();
    let good = email.email().from("a@example.com").to("b@example.com").subject("Hi");
    let mut message = SendMailRequest::default();
    message.from = good.payload().from.clone();
    message.tags = Some(vec![MessageTag::new("campaign", "welcome").unwrap()]);
    let single = email.send(&message, "{}".to_string()).unwrap();
    assert_eq!(single.url, "https://api.lettermint.co/v1/send");
    let mut bad = SendMailRequest::default();
    bad.tags = Some(vec![MessageTag { name: "__LETTERMINT_x".to_string(), value: "v".to_string() }]);
    assert!(matches!(email.send(&bad, "{}".to_string()), Err(Error::Validation { .. })));
    let mut both = SendMailRequest::default();
    both.tag = Some("news".to_string());
    both.tags = Some(vec![MessageTag::new("campaign", "welcome").unwrap()]);
    let batch = vec![message, both, bad];
    match email.send_batch(&batch, "[]".to_string()) {
        Err(Error::Validation { error_type, .. }) => assert_eq!(error_type, "ConflictingMessageTags"),
        other => panic!("unexpected {other:?}"),
    }
    assert!(email.send_batch_with_idempotency_key(&batch, "[]".to_string(), "k").is_err());
    let fine = vec![SendMailRequest::default()];
    assert_eq!(
        email.send_batch_with_idempotency_key(&fine, "[]".to_string(), "k").unwrap().url,
        "https://api.lettermint.co/v1/send/batch"
    );
}

#[test]
fn default_transport_sends_the_library_user_agent() {
    let transport = ReqwestTransport::new().unwrap();
    assert_eq!(transport.user_agent(), "Lettermint/1.0.0 (Rust)");
    assert_eq!(transport.user_agent(), format!("Lettermint/{} (Rust)", VERSION));
    let email = Lettermint::email("sending-token").unwrap();
    assert_eq!(email.http().transport().user_agent(), USER_AGENT);
}

#[test]
fn response_errors_from_parsed_bodies() {
    let body = JsonValue::Object(vec![("error".to_string(), JsonValue::Str("Quota".to_string()))]);
    match response_error(422, "Unprocessable Entity".to_string(), Some(body), "tok") {
        Error::Validation { error_type, .. } => assert_eq!(error_type, "Quota"),
        other => panic!("unexpected {other:?}"),
    }
    let body = JsonValue::Str("xyz-secret-xyz".to_string());
    match response_error(403, "Forbidden".to_string(), Some(body), "secret") {
        Error::Http { status, message, body: Some(value) } => {
            assert_eq!(status, 403);
            assert_eq!(message, "Forbidden");
            assert_eq!(value.as_str(), Some("xyz-[REDACTED]-xyz"));
            assert!(!value.as_str().unwrap().contains("secret"));
        }
        other => panic!("unexpected {other:?}"),
    }
    assert!(matches!(
        response_error(500, "Internal Server Error".to_string(), None, "tok"),
        Error::Http { status: 500, body: None, .. }
    ));
}
