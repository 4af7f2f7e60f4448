//! The API client: credentials and base URL, the requests it sends (URL,
//! headers, body) and how it reads the responses. Sending is left to a
//! transport, which the client carries but never calls.

use vstd::prelude::*;
use crate::error::Error;
use vstd::utf8::encode_utf8;
use crate::external::{
    build_http_client, header_name_ok, header_name_valid, header_value_ok, header_value_valid,
    parse_json, parsed_json, url_encode, url_encoded,
};
use crate::json::{error_type_of, is_redaction, redact, validation_error_type, JsonValue, REDACTED};
use crate::strmap::{StringMap, pair_views};
use crate::text::{
    ascii_lowercase, chars_eq, chars_of, push_str_chars, string_of, to_ascii_lowercase,
    trim_end_char, trim_end_matches, trim_start_char, trim_start_matches, trim_whitespace,
    trim_ws,
};

verus! {

/// The base URL of the Lettermint API.
pub const DEFAULT_BASE_URL: &'static str = "https://api.lettermint.co/v1";

/// The version of this library.
pub const VERSION: &'static str = "1.0.0";

/// The `user-agent` header that requests carry.
pub const USER_AGENT: &'static str = "Lettermint/1.0.0 (Rust)";

/// How a client authenticates: the Sending API takes the token in the
/// `x-lettermint-token` header, the Team API as a bearer token.
#[derive(Clone, Copy, Debug, PartialEq, Eq, Structural)]
pub enum AuthMode {
    Sending,
    Api,
}

/// A request, ready for a transport to send.
#[derive(Debug)]
pub struct HttpRequest {
    pub method: String,
    pub url: String,
    pub headers: StringMap,
    pub body: Option<String>,
}

/// A response as a transport received it.
#[derive(Clone, Debug)]
pub struct HttpResponse {
    pub status: u16,
    pub reason: String,
    pub body: String,
}

/// The default transport: a `reqwest` client that sends the library's
/// user agent.
pub struct ReqwestTransport {
    client: reqwest::Client,
    user_agent: String,
}

impl ReqwestTransport {
    /// Builds the `reqwest` client with the library's user agent.
    pub fn new() -> (r: Result<ReqwestTransport, Error>)
        ensures
            r matches Ok(t) ==> t.user_agent_spec() == USER_AGENT@,
            r matches Err(e) ==> e is Request,
    {
        match build_http_client(USER_AGENT) {
            Ok((client, user_agent)) => Ok(ReqwestTransport { client, user_agent }),
            Err(message) => Err(Error::Request(message)),
        }
    }

    /// The user agent that the client was built with.
    pub closed spec fn user_agent_spec(&self) -> Seq<char> {
        self.user_agent@
    }

    /// The user agent that the client was built with.
    pub fn user_agent(&self) -> (r: &str)
        ensures
            r@ == self.user_agent_spec(),
    {
        self.user_agent.as_str()
    }

    /// The `reqwest` client that the transport holds.
    pub closed spec fn client_spec(&self) -> reqwest::Client {
        self.client
    }

    /// The `reqwest` client that sends the requests.
    pub fn client(&self) -> (r: &reqwest::Client)
        ensures
            *r == self.client_spec(),
    {
        &self.client
    }
}

/// The text of a query: `key=value` pairs, both percent-encoded, joined by `&`.
pub open spec fn query_text(query: Seq<(Seq<char>, Seq<char>)>) -> Seq<char>
    decreases query.len(),
{
    if query.len() == 0 {
        seq![]
    } else {
        let pair = url_encoded(query.last().0) + seq!['='] + url_encoded(query.last().1);
        if query.len() == 1 {
            pair
        } else {
            query_text(query.drop_last()) + seq!['&'] + pair
        }
    }
}

/// The character views of a query given as pairs of string slices.
pub open spec fn query_views(query: Seq<(&str, &str)>) -> Seq<(Seq<char>, Seq<char>)> {
    Seq::new(query.len(), |i: int| (query[i].0@, query[i].1@))
}

/// The URL of a request: the base URL, `/`, the path without its leading
/// slashes, and `?` with the query text when there is a query.
pub open spec fn request_url(base_url: Seq<char>, path: Seq<char>, query: Seq<(Seq<char>, Seq<char>)>) -> Seq<
    char,
> {
    let url = base_url + seq!['/'] + trim_start_char(path, '/');
    if query.len() == 0 {
        url
    } else {
        url + seq!['?'] + query_text(query)
    }
}

/// The headers every request starts with.
pub open spec fn default_headers() -> Map<Seq<char>, Seq<char>> {
    Map::<Seq<char>, Seq<char>>::empty().insert("accept"@, "application/json"@).insert(
        "content-type"@,
        "application/json"@,
    ).insert("user-agent"@, USER_AGENT@)
}

/// Whether a (lowercase) header name is one that carries credentials.
pub open spec fn is_auth_header(name: Seq<char>) -> bool {
    name == "authorization"@ || name == "x-lettermint-token"@
}

/// `base` with the caller's headers added in order under their lowercase
/// names, except the credential headers, which callers cannot set.
pub open spec fn merge_headers(base: Map<Seq<char>, Seq<char>>, extra: Seq<(Seq<char>, Seq<char>)>) -> Map<
    Seq<char>,
    Seq<char>,
>
    decreases extra.len(),
{
    if extra.len() == 0 {
        base
    } else {
        let merged = merge_headers(base, extra.drop_last());
        let name = ascii_lowercase(extra.last().0);
        if is_auth_header(name) {
            merged
        } else {
            merged.insert(name, extra.last().1)
        }
    }
}

/// `headers` with the credential header of the authentication mode.
pub open spec fn with_credentials(headers: Map<Seq<char>, Seq<char>>, auth: AuthMode, token: Seq<char>) -> Map<
    Seq<char>,
    Seq<char>,
> {
    match auth {
        AuthMode::Sending => headers.insert("x-lettermint-token"@, token),
        AuthMode::Api => headers.insert("authorization"@, "Bearer "@ + token),
    }
}

/// The headers of a request: the defaults, then the caller's, then the
/// credentials.
pub open spec fn request_headers(auth: AuthMode, token: Seq<char>, extra: Seq<(Seq<char>, Seq<char>)>) -> Map<
    Seq<char>,
    Seq<char>,
> {
    with_credentials(merge_headers(default_headers(), extra), auth, token)
}

/// Whether `b` is the error body `a` with the token redacted.
pub open spec fn is_redacted_body(a: Option<JsonValue>, b: Option<JsonValue>, token: Seq<char>) -> bool {
    match a {
        None => b is None,
        Some(x) => b matches Some(y) && is_redaction(x, y, token, REDACTED@),
    }
}

/// Whether `e` is the error for a response with status `status`, reason
/// phrase `reason` and body text `body`, of a client with the token `token`:
/// for `422` a validation error with the error type of the parsed body and
/// the parsed body; otherwise an HTTP error with the status, the reason
/// phrase and the parsed body without the token.
pub open spec fn is_response_error(e: Error, status: u16, reason: Seq<char>, body: Seq<char>, token: Seq<char>) -> bool {
    is_error_for(e, status, reason, parsed_json(body), token)
}

/// Whether `e` is the error for a response with status `status` and reason
/// phrase `reason` whose body parsed as `parsed`, of a client with the token
/// `token`: for `422` a validation error with the error type of the body and
/// the body; otherwise an HTTP error with the status, the reason phrase and
/// the body without the token.
pub open spec fn is_error_for(e: Error, status: u16, reason: Seq<char>, parsed: Option<JsonValue>, token: Seq<char>) -> bool {
    if status == 422 {
        e matches Error::Validation { error_type, body: b } && error_type@ == validation_error_type(
            parsed,
        ) && b == parsed
    } else {
        e matches Error::Http { status: s, message, body: b } && s == status && message@ == reason
            && is_redacted_body(parsed, b, token)
    }
}

/// The error for an error response with status `status` and reason phrase
/// `reason` whose body parsed as `body`, of a client with the token `token`.
pub fn response_error(status: u16, reason: String, body: Option<JsonValue>, token: &str) -> (r: Error)
    ensures
        is_error_for(r, status, reason@, body, token@),
{
    if status == 422 {
        let error_type = error_type_of(&body);
        return Error::Validation { error_type, body };
    }
    let redacted = match body {
        None => None,
        Some(value) => {
            let token_chars = chars_of(token);
            let replacement = chars_of(REDACTED);
            Some(redact(value, token_chars.as_slice(), replacement.as_slice()))
        },
    };
    Error::Http { status, message: reason, body: redacted }
}

/// The name of the first header, in order, whose name or value HTTP does not
/// accept (`HeaderName::from_bytes`, `HeaderValue::from_str` on the UTF-8
/// bytes), if any.
pub open spec fn first_invalid_header(pairs: Seq<(Seq<char>, Seq<char>)>) -> Option<Seq<char>>
    decreases pairs.len(),
{
    if pairs.len() == 0 {
        None
    } else if !header_name_valid(encode_utf8(pairs[0].0)) || !header_value_valid(
        encode_utf8(pairs[0].1),
    ) {
        Some(pairs[0].0)
    } else {
        first_invalid_header(pairs.drop_first())
    }
}

/// Whether `status` is an error status.
pub open spec fn is_error_status_spec(status: u16) -> bool {
    status >= 400
}

/// Whether a response with this status is an error.
pub fn is_error_status(status: u16) -> (r: bool)
    ensures
        r == is_error_status_spec(status),
        r == (status >= 400),
{
    status >= 400
}

/// The character view of an optional string.
pub open spec fn opt_string_view(o: Option<String>) -> Option<Seq<char>> {
    match o {
        Some(s) => Some(s@),
        None => None,
    }
}

/// Whether `r` is the request that `client` makes for `method` on `path`
/// with the query `query`, the body `body` and the caller's headers `extra`.
pub open spec fn is_request<T>(
    r: HttpRequest,
    client: HttpClient<T>,
    method: Seq<char>,
    path: Seq<char>,
    query: Seq<(Seq<char>, Seq<char>)>,
    body: Option<Seq<char>>,
    extra: Seq<(Seq<char>, Seq<char>)>,
) -> bool {
    &&& r.method@ == method
    &&& r.url@ == request_url(client.base_url_spec(), path, query)
    &&& r.headers@ == request_headers(client.auth_spec(), client.token_spec(), extra)
    &&& opt_string_view(r.body) == body
}

/// A client of the Lettermint API: its token, how it authenticates, the base
/// URL, and the transport that sends its requests.
pub struct HttpClient<T> {
    token: String,
    auth: AuthMode,
    base_url: String,
    transport: T,
}

impl<T> HttpClient<T> {
    /// The API token.
    pub closed spec fn token_spec(&self) -> Seq<char> {
        self.token@
    }

    /// The authentication mode.
    pub closed spec fn auth_spec(&self) -> AuthMode {
        self.auth
    }

    /// The base URL.
    pub closed spec fn base_url_spec(&self) -> Seq<char> {
        self.base_url@
    }

    /// The transport.
    pub closed spec fn transport_spec(&self) -> T {
        self.transport
    }

    #[verifier::type_invariant]
    spec fn has_token(&self) -> bool {
        self.token@.len() > 0
    }

    /// A client that sends through `transport`; refused when the token is
    /// empty.
    pub fn with_transport(token: &str, auth: AuthMode, transport: T) -> (r: Result<HttpClient<T>, Error>)
        ensures
            r is Err <==> token@.len() == 0,
            r matches Err(e) ==> e is MissingToken,
            r matches Ok(c) ==> c.token_spec() == token@ && c.auth_spec() == auth && c.base_url_spec()
                == DEFAULT_BASE_URL@ && c.transport_spec() == transport,
    {
        if token.is_empty() {
            return Err(Error::MissingToken);
        }
        Ok(HttpClient {
            token: token.to_owned(),
            auth,
            base_url: DEFAULT_BASE_URL.to_owned(),
            transport,
        })
    }

    /// The same client with another base URL, without its trailing slashes.
    pub fn with_base_url(self, base_url: &str) -> (r: HttpClient<T>)
        ensures
            r.token_spec() == self.token_spec(),
            r.auth_spec() == self.auth_spec(),
            r.transport_spec() == self.transport_spec(),
            r.base_url_spec() == trim_end_char(base_url@, '/'),
    {
        proof {
            use_type_invariant(&self);
        }
        let cs = chars_of(base_url);
        let trimmed = trim_end_matches(cs.as_slice(), '/');
        HttpClient {
            token: self.token,
            auth: self.auth,
            base_url: string_of(trimmed.as_slice()),
            transport: self.transport,
        }
    }

    /// The transport.
    pub fn transport(&self) -> (r: &T)
        ensures
            *r == self.transport_spec(),
    {
        &self.transport
    }

    /// The authentication mode.
    pub fn auth(&self) -> (r: AuthMode)
        ensures
            r == self.auth_spec(),
    {
        self.auth
    }

    /// The URL of a request to `path` with the query `query`.
    pub fn url(&self, path: &str, query: &[(&str, &str)]) -> (r: String)
        ensures
            r@ == request_url(self.base_url_spec(), path@, query_views(query@)),
    {
        let mut url = self.base_url.clone();
        url.push('/');
        let pc = chars_of(path);
        let trimmed = trim_start_matches(pc.as_slice(), '/');
        let trimmed_path = string_of(trimmed.as_slice());
        push_str_chars(&mut url, trimmed_path.as_str());
        let ghost base = url@;
        let ghost qv = query_views(query@);
        if query.len() > 0 {
            url.push('?');
            let ghost head = url@;
            let n = query.len();
            let mut i: usize = 0;
            while i < n
                invariant
                    n == query@.len(),
                    qv == query_views(query@),
                    n > 0,
                    i <= n,
                    i == 0 ==> url@ == head,
                    i > 0 ==> url@ == head + query_text(qv.take(i as int)),
                decreases n - i,
            {
                let ghost before = url@;
                if i > 0 {
                    url.push('&');
                }
                let (key, value) = query[i];
                let ek = url_encode(key);
                push_str_chars(&mut url, ek.as_str());
                url.push('=');
                let ev = url_encode(value);
                push_str_chars(&mut url, ev.as_str());
                proof {
                    let t = qv.take(i + 1);
                    assert(t.drop_last() == qv.take(i as int));
                    assert(t.last() == (key@, value@));
                    if i == 0 {
                        assert(t.len() == 1);
                    }
                }
                i = i + 1;
            }
            assert(qv.take(n as int) == qv);
        }
        url
    }

    /// The headers of a request with the caller's headers `extra`.
    pub fn headers(&self, extra: Option<&StringMap>) -> (r: StringMap)
        ensures
            r@ == request_headers(
                self.auth_spec(),
                self.token_spec(),
                match extra {
                    Some(m) => m.pairs(),
                    None => seq![],
                },
            ),
    {
        let mut out = StringMap::new();
        out.insert("accept".to_owned(), "application/json".to_owned());
        out.insert("content-type".to_owned(), "application/json".to_owned());
        out.insert("user-agent".to_owned(), USER_AGENT.to_owned());
        assert(out@ == default_headers());
        let ghost extra_pairs: Seq<(Seq<char>, Seq<char>)> = match extra {
            Some(m) => m.pairs(),
            None => seq![],
        };
        if let Some(m) = extra {
            let entries = m.entries();
            let auth_name = chars_of("authorization");
            let token_name = chars_of("x-lettermint-token");
            let n = entries.len();
            let mut i: usize = 0;
            assert(extra_pairs.take(0).len() == 0);
            while i < n
                invariant
                    n == entries@.len(),
                    pair_views(entries@) == extra_pairs,
                    auth_name@ == "authorization"@,
                    token_name@ == "x-lettermint-token"@,
                    i <= n,
                    out@ == merge_headers(default_headers(), extra_pairs.take(i as int)),
                decreases n - i,
            {
                let lower = to_ascii_lowercase(entries[i].0.as_str());
                let lc = chars_of(lower.as_str());
                assert(extra_pairs.take(i + 1).drop_last() == extra_pairs.take(i as int));
                assert(extra_pairs[i as int] == (entries@[i as int].0@, entries@[i as int].1@));
                if !chars_eq(lc.as_slice(), auth_name.as_slice()) && !chars_eq(
                    lc.as_slice(),
                    token_name.as_slice(),
                ) {
                    out.insert(lower, entries[i].1.clone());
                }
                i = i + 1;
            }
            assert(extra_pairs.take(n as int) == extra_pairs);
        }
        match self.auth {
            AuthMode::Sending => {
                out.insert("x-lettermint-token".to_owned(), self.token.clone());
            },
            AuthMode::Api => {
                let mut bearer = "Bearer ".to_owned();
                push_str_chars(&mut bearer, self.token.as_str());
                out.insert("authorization".to_owned(), bearer);
            },
        }
        out
    }

    /// The request for `method` on `path` with the query `query`, the
    /// serialized body `body` and the caller's headers `extra`.
    pub fn build_request(
        &self,
        method: &str,
        path: &str,
        query: &[(&str, &str)],
        body: Option<String>,
        extra: Option<&StringMap>,
    ) -> (r: HttpRequest)
        ensures
            r.method@ == method@,
            r.url@ == request_url(self.base_url_spec(), path@, query_views(query@)),
            r.headers@ == request_headers(
                self.auth_spec(),
                self.token_spec(),
                match extra {
                    Some(m) => m.pairs(),
                    None => seq![],
                },
            ),
            r.body == body,
    {
        HttpRequest {
            method: method.to_owned(),
            url: self.url(path, query),
            headers: self.headers(extra),
            body,
        }
    }

    /// The error for an error response, whose body is read as JSON: a `422`
    /// is a validation error with the body's error type; any other status is
    /// an HTTP error with the reason phrase and the body without the token.
    pub fn error_from_response(&self, response: HttpResponse) -> (r: Error)
        ensures
            is_response_error(r, response.status, response.reason@, response.body@, self.token_spec()),
    {
        let body = match parse_json(response.body.as_str()) {
            Ok(value) => Some(value),
            Err(_) => None,
        };
        response_error(response.status, response.reason, body, self.token.as_str())
    }

    /// The result of a request that got `response`: the response itself
    /// unless its status is an error, and then the error that
    /// `error_from_response` makes of it.
    pub fn finish_response(&self, response: HttpResponse) -> (r: Result<HttpResponse, Error>)
        ensures
            response.status >= 400 ==> r is Err,
            response.status < 400 ==> r == Ok::<HttpResponse, Error>(response),
            !is_error_status_spec(response.status) ==> r == Ok::<HttpResponse, Error>(response),
            is_error_status_spec(response.status) ==> (r matches Err(e) && is_response_error(
                e,
                response.status,
                response.reason@,
                response.body@,
                self.token_spec(),
            )),
    {
        if is_error_status(response.status) {
            Err(self.error_from_response(response))
        } else {
            Ok(response)
        }
    }
}

/// Checks that every header of `headers` is one that HTTP accepts, in key
/// order; the first that is not is refused by its name.
pub fn check_headers(headers: &StringMap) -> (r: Result<(), Error>)
    ensures
        match first_invalid_header(headers.pairs()) {
            None => r is Ok,
            Some(name) => r matches Err(Error::InvalidHeader(n)) && n@ == name,
        },
{
    let entries = headers.entries();
    let n = entries.len();
    let mut i: usize = 0;
    assert(headers.pairs().skip(0) == headers.pairs());
    while i < n
        invariant
            n == entries@.len(),
            pair_views(entries@) == headers.pairs(),
            i <= n,
            first_invalid_header(headers.pairs()) == first_invalid_header(
                headers.pairs().skip(i as int),
            ),
        decreases n - i,
    {
        let ghost rest = headers.pairs().skip(i as int);
        assert(rest[0] == (entries@[i as int].0@, entries@[i as int].1@));
        assert(rest.drop_first() == headers.pairs().skip(i + 1));
        let key = &entries[i].0;
        let value = &entries[i].1;
        if !header_name_ok(key.as_str().as_bytes()) || !header_value_ok(value.as_str()) {
            return Err(Error::InvalidHeader(key.clone()));
        }
        i = i + 1;
    }
    assert(headers.pairs().skip(n as int).len() == 0);
    Ok(())
}

impl HttpClient<ReqwestTransport> {
    /// A client with the default `reqwest` transport. The transport is built
    /// first, so a failure to build it is reported whatever the token.
    pub fn new(token: &str, auth: AuthMode) -> (r: Result<HttpClient<ReqwestTransport>, Error>)
        ensures
            token@.len() == 0 ==> r is Err,
            r matches Err(Error::MissingToken) ==> token@.len() == 0,
            r matches Err(e) ==> e is MissingToken || e is Request,
            r matches Ok(c) ==> c.token_spec() == token@ && c.auth_spec() == auth
                && c.base_url_spec() == DEFAULT_BASE_URL@
                && c.transport_spec().user_agent_spec() == USER_AGENT@,
    {
        let transport = match ReqwestTransport::new() {
            Ok(t) => t,
            Err(e) => return Err(e),
        };
        HttpClient::with_transport(token, auth, transport)
    }
}

impl<T> HttpClient<T> {
    /// A `GET` request.
    pub fn get(&self, path: &str, query: &[(&str, &str)]) -> (r: HttpRequest)
        ensures
            is_request(r, *self, "GET"@, path@, query_views(query@), None, seq![]),
    {
        self.build_request("GET", path, query, None, None)
    }

    /// A `POST` request with the JSON body `body`.
    pub fn post(&self, path: &str, body: String) -> (r: HttpRequest)
        ensures
            is_request(r, *self, "POST"@, path@, seq![], Some(body@), seq![]),
    {
        self.build_request("POST", path, &[], Some(body), None)
    }

    /// A `POST` request with the JSON body `body` and the caller's headers.
    pub fn post_with_headers(&self, path: &str, body: String, headers: Option<&StringMap>) -> (r: HttpRequest)
        ensures
            is_request(
                r,
                *self,
                "POST"@,
                path@,
                seq![],
                Some(body@),
                match headers {
                    Some(m) => m.pairs(),
                    None => seq![],
                },
            ),
    {
        self.build_request("POST", path, &[], Some(body), headers)
    }

    /// A `PUT` request with the JSON body `body`.
    pub fn put(&self, path: &str, body: String) -> (r: HttpRequest)
        ensures
            is_request(r, *self, "PUT"@, path@, seq![], Some(body@), seq![]),
    {
        self.build_request("PUT", path, &[], Some(body), None)
    }

    /// A `DELETE` request.
    pub fn delete(&self, path: &str) -> (r: HttpRequest)
        ensures
            is_request(r, *self, "DELETE"@, path@, seq![], None, seq![]),
    {
        self.build_request("DELETE", path, &[], None, None)
    }
}

/// The reply of the ping endpoint: its body without surrounding whitespace.
pub fn ping_reply(body: &str) -> (r: String)
    ensures
        r@ == trim_ws(body@),
{
    let cs = chars_of(body);
    let trimmed = trim_whitespace(cs.as_slice());
    string_of(trimmed.as_slice())
}

/// A client of the Sending API.
pub struct EmailClient<T> {
    client: HttpClient<T>,
}

impl<T> EmailClient<T> {
    /// The underlying client.
    pub closed spec fn http_spec(&self) -> HttpClient<T> {
        self.client
    }

    /// The underlying client.
    pub fn http(&self) -> (r: &HttpClient<T>)
        ensures
            *r == self.http_spec(),
    {
        &self.client
    }

    /// The request of a ping.
    pub fn ping(&self) -> (r: HttpRequest)
        ensures
            is_request(r, self.http_spec(), "GET"@, "/ping"@, seq![], None, seq![]),
    {
        self.client.get("/ping", &[])
    }
}

/// A client of the Team API.
pub struct ApiClient<T> {
    client: HttpClient<T>,
}

impl<T> ApiClient<T> {
    /// The underlying client.
    pub closed spec fn http_spec(&self) -> HttpClient<T> {
        self.client
    }

    /// The underlying client.
    pub fn http(&self) -> (r: &HttpClient<T>)
        ensures
            *r == self.http_spec(),
    {
        &self.client
    }

    /// The request of a ping.
    pub fn ping(&self) -> (r: HttpRequest)
        ensures
            is_request(r, self.http_spec(), "GET"@, "/ping"@, seq![], None, seq![]),
    {
        self.client.get("/ping", &[])
    }
}

/// The entry point: clients for the Sending API and the Team API.
pub struct Lettermint;

impl Lettermint {
    /// A Sending API client with the default transport.
    pub fn email(token: &str) -> (r: Result<EmailClient<ReqwestTransport>, Error>)
        ensures
            token@.len() == 0 ==> r is Err,
            r matches Err(Error::MissingToken) ==> token@.len() == 0,
            r matches Ok(c) ==> c.http_spec().token_spec() == token@ && c.http_spec().auth_spec()
                == AuthMode::Sending && c.http_spec().base_url_spec() == DEFAULT_BASE_URL@
                && c.http_spec().transport_spec().user_agent_spec() == USER_AGENT@,
            r matches Err(e) ==> e is MissingToken || e is Request,
    {
        match HttpClient::<ReqwestTransport>::new(token, AuthMode::Sending) {
            Ok(client) => Ok(EmailClient { client }),
            Err(e) => Err(e),
        }
    }

    /// A Team API client with the default transport.
    pub fn api(token: &str) -> (r: Result<ApiClient<ReqwestTransport>, Error>)
        ensures
            token@.len() == 0 ==> r is Err,
            r matches Err(Error::MissingToken) ==> token@.len() == 0,
            r matches Ok(c) ==> c.http_spec().token_spec() == token@ && c.http_spec().auth_spec()
                == AuthMode::Api && c.http_spec().base_url_spec() == DEFAULT_BASE_URL@
                && c.http_spec().transport_spec().user_agent_spec() == USER_AGENT@,
            r matches Err(e) ==> e is MissingToken || e is Request,
    {
        match HttpClient::<ReqwestTransport>::new(token, AuthMode::Api) {
            Ok(client) => Ok(ApiClient { client }),
            Err(e) => Err(e),
        }
    }

    /// A Sending API client that sends through `transport`.
    pub fn email_with_transport<T>(token: &str, transport: T) -> (r: Result<EmailClient<T>, Error>)
        ensures
            r is Err <==> token@.len() == 0,
            r matches Err(e) ==> e is MissingToken,
            r matches Ok(c) ==> c.http_spec().token_spec() == token@ && c.http_spec().auth_spec()
                == AuthMode::Sending && c.http_spec().base_url_spec() == DEFAULT_BASE_URL@
                && c.http_spec().transport_spec() == transport,
    {
        match HttpClient::with_transport(token, AuthMode::Sending, transport) {
            Ok(client) => Ok(EmailClient { client }),
            Err(e) => Err(e),
        }
    }

    /// A Team API client that sends through `transport`.
    pub fn api_with_transport<T>(token: &str, transport: T) -> (r: Result<ApiClient<T>, Error>)
        ensures
            r is Err <==> token@.len() == 0,
            r matches Err(e) ==> e is MissingToken,
            r matches Ok(c) ==> c.http_spec().token_spec() == token@ && c.http_spec().auth_spec()
                == AuthMode::Api && c.http_spec().base_url_spec() == DEFAULT_BASE_URL@
                && c.http_spec().transport_spec() == transport,
    {
        match HttpClient::with_transport(token, AuthMode::Api, transport) {
            Ok(client) => Ok(ApiClient { client }),
            Err(e) => Err(e),
        }
    }
}

} // verus!
