# lettermint

A client library for the Lettermint email service, written in Verus.

The library (`src/`) builds every request of the Sending and Team APIs
(method, URL, headers, body), interprets error responses, and verifies
webhook deliveries. Each public function carries a contract that Verus
proves; the properties that span several functions are stated and proved
in `src/laws.rs`.

- `src/text.rs`: character-level string operations (trimming, splitting,
  integer parsing and printing, replacement), specified over `Seq<char>`.
- `src/strmap.rs`: an ordered string map with the semantics of a
  `BTreeMap<String, String>`.
- `src/external.rs`: the calls into `serde_json`, `hex`, `hmac`/`sha2`,
  `urlencoding`, `reqwest` (client and header checks) and the system clock,
  each with the contract it is trusted to meet.
- `src/json.rs`: JSON error bodies, their error type and token redaction.
- `src/client.rs`: credentials, URLs, headers and response handling.
- `src/endpoints.rs`: one request per API operation.
- `src/email.rs`: the message type, its builder and tag validation.
- `src/webhook.rs`: signature header parsing, timestamp tolerance and
  HMAC-SHA256 signature checks.

`app/` sends the requests over a transport (`reqwest` by default), converts
JSON with `serde`, and gives the errors their messages.
