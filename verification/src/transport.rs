//! Typed requests, bounded responses and the decisions of one HTTP exchange.

use vstd::prelude::*;

use crate::error::{ClassifiedError, ErrorKind};
use crate::instant::Duration;
use crate::retry;
use crate::retry::RetryPolicy;
use crate::text;

verus! {

pub const MAX_SECRET_BYTES: usize = 16 * 1024;

pub const MAX_AUTHORIZATION_SCHEME_BYTES: usize = 32;

pub const MAX_REQUEST_BODY_BYTES: usize = 4 * 1024 * 1024;

pub const MAX_PUBLIC_REQUEST_HEADERS: usize = 32;

pub const MAX_PUBLIC_HEADER_VALUE_BYTES: usize = 8 * 1024;

pub const MAX_ACCEPTED_STATUSES: usize = 16;

pub const MAX_RESPONSE_HEADERS: usize = 32;

pub const MAX_RESPONSE_HEADER_VALUE_BYTES: usize = 8 * 1024;

pub const MAX_RESPONSE_BYTES: usize = 16 * 1024 * 1024;

pub const MAX_REDIRECTS: u8 = 10;

/// Typed values permitted in the request `Accept` header.
#[derive(Debug, Clone, Copy, PartialEq, Eq, Structural)]
pub enum RequestAccept {
    Any,
    Json,
    Html,
}

impl RequestAccept {
    pub open spec fn text(self) -> Seq<char> {
        match self {
            RequestAccept::Any => "*/*"@,
            RequestAccept::Json => "application/json"@,
            RequestAccept::Html => "text/html,application/xhtml+xml"@,
        }
    }

    /// The header value.
    pub fn as_str(self) -> (r: &'static str)
        ensures
            r@ == self.text(),
    {
        match self {
            RequestAccept::Any => "*/*",
            RequestAccept::Json => "application/json",
            RequestAccept::Html => "text/html,application/xhtml+xml",
        }
    }
}

/// Typed values permitted in the request `Content-Type` header.
#[derive(Debug, Clone, Copy, PartialEq, Eq, Structural)]
pub enum RequestContentType {
    Json,
    FormUrlEncoded,
    FormUrlEncodedUtf8,
    AwsJson10,
    AwsJson11,
}

impl RequestContentType {
    pub open spec fn text(self) -> Seq<char> {
        match self {
            RequestContentType::Json => "application/json"@,
            RequestContentType::FormUrlEncoded => "application/x-www-form-urlencoded"@,
            RequestContentType::FormUrlEncodedUtf8 =>
                "application/x-www-form-urlencoded; charset=utf-8"@,
            RequestContentType::AwsJson10 => "application/x-amz-json-1.0"@,
            RequestContentType::AwsJson11 => "application/x-amz-json-1.1"@,
        }
    }

    /// The header value.
    pub fn as_str(self) -> (r: &'static str)
        ensures
            r@ == self.text(),
    {
        match self {
            RequestContentType::Json => "application/json",
            RequestContentType::FormUrlEncoded => "application/x-www-form-urlencoded",
            RequestContentType::FormUrlEncodedUtf8 =>
                "application/x-www-form-urlencoded; charset=utf-8",
            RequestContentType::AwsJson10 => "application/x-amz-json-1.0",
            RequestContentType::AwsJson11 => "application/x-amz-json-1.1",
        }
    }
}

/// Safe transport construction and execution failures.
#[derive(Debug, Clone, Copy, PartialEq, Eq, Structural)]
pub enum TransportError {
    /// Request or redirect target failed endpoint policy.
    Endpoint,
    /// Typed request or configuration value was invalid.
    InvalidConfiguration,
    /// Cooperative cancellation won the request race.
    Cancelled,
    /// Per-attempt deadline elapsed.
    Timeout,
    /// Connection, TLS, or request transmission failed.
    Network,
    /// Response exceeded its explicit byte ceiling.
    ResponseTooLarge,
    /// Response framing, redirects, or body stream was malformed.
    MalformedResponse,
    /// Redirect count exceeded its explicit ceiling.
    TooManyRedirects,
    /// HTTP 401.
    AuthenticationExpired,
    /// HTTP 403.
    PermissionDenied,
    /// HTTP 408.
    RequestTimeout,
    /// HTTP 429.
    RateLimited { retry_after: Option<Duration> },
    /// HTTP 5xx.
    ProviderUnavailable { status: u16, retry_after: Option<Duration> },
    /// Other non-success HTTP response.
    Api { status: u16 },
}

impl TransportError {
    /// The stable class of a transport failure.
    pub open spec fn class(self) -> ErrorKind {
        match self {
            TransportError::AuthenticationExpired => ErrorKind::AuthenticationExpired,
            TransportError::PermissionDenied => ErrorKind::PermissionDenied,
            TransportError::RateLimited { .. } => ErrorKind::RateLimited,
            TransportError::ProviderUnavailable { .. } => ErrorKind::ProviderUnavailable,
            TransportError::Cancelled
            | TransportError::Timeout
            | TransportError::Network
            | TransportError::RequestTimeout => ErrorKind::Network,
            TransportError::ResponseTooLarge
            | TransportError::MalformedResponse
            | TransportError::TooManyRedirects => ErrorKind::Parse,
            TransportError::Endpoint
            | TransportError::InvalidConfiguration
            | TransportError::Api { .. } => ErrorKind::Api,
        }
    }

    /// Whether the one-retry policy may retry the failure.
    pub open spec fn retryable(self) -> bool {
        self is Timeout || self is Network || self is RequestTimeout || self is RateLimited
            || self is ProviderUnavailable
    }

    /// The delay that the server asked for.
    pub open spec fn server_delay(self) -> Option<Duration> {
        match self {
            TransportError::RateLimited { retry_after } => retry_after,
            TransportError::ProviderUnavailable { retry_after, .. } => retry_after,
            _ => None,
        }
    }

    /// The failure under class `kind`, with the server's delay in whole seconds
    /// and at least one.
    pub open spec fn as_class(self, kind: ErrorKind) -> ClassifiedError {
        ClassifiedError {
            kind,
            retry_after_seconds: match self.server_delay() {
                Some(delay) => Some(
                    if delay.seconds == 0 {
                        1
                    } else {
                        delay.seconds
                    },
                ),
                None => None,
            },
        }
    }

    /// Projects transport state to the stable error vocabulary.
    pub fn classified(&self) -> (r: ClassifiedError)
        ensures
            r == self.as_class(self.class()),
    {
        let kind = match self {
            TransportError::AuthenticationExpired => ErrorKind::AuthenticationExpired,
            TransportError::PermissionDenied => ErrorKind::PermissionDenied,
            TransportError::RateLimited { .. } => ErrorKind::RateLimited,
            TransportError::ProviderUnavailable { .. } => ErrorKind::ProviderUnavailable,
            TransportError::Cancelled
            | TransportError::Timeout
            | TransportError::Network
            | TransportError::RequestTimeout => ErrorKind::Network,
            TransportError::ResponseTooLarge
            | TransportError::MalformedResponse
            | TransportError::TooManyRedirects => ErrorKind::Parse,
            TransportError::Endpoint
            | TransportError::InvalidConfiguration
            | TransportError::Api { .. } => ErrorKind::Api,
        };
        self.classified_as(kind)
    }

    /// The failure under a chosen class.
    pub fn classified_as(&self, kind: ErrorKind) -> (r: ClassifiedError)
        ensures
            r == self.as_class(kind),
    {
        let retry_after_seconds = match self.retry_after() {
            Some(delay) => Some(
                if delay.seconds == 0 {
                    1
                } else {
                    delay.seconds
                },
            ),
            None => None,
        };
        ClassifiedError { kind, retry_after_seconds }
    }

    /// The numeric HTTP status of a failure that came from a completed response.
    pub fn http_status(&self) -> (r: Option<u16>)
        ensures
            r == (match *self {
                TransportError::AuthenticationExpired => Some(401u16),
                TransportError::PermissionDenied => Some(403u16),
                TransportError::RequestTimeout => Some(408u16),
                TransportError::RateLimited { .. } => Some(429u16),
                TransportError::ProviderUnavailable { status, .. } => Some(status),
                TransportError::Api { status } => Some(status),
                _ => None,
            }),
    {
        match self {
            TransportError::AuthenticationExpired => Some(401),
            TransportError::PermissionDenied => Some(403),
            TransportError::RequestTimeout => Some(408),
            TransportError::RateLimited { .. } => Some(429),
            TransportError::ProviderUnavailable { status, .. } => Some(*status),
            TransportError::Api { status } => Some(*status),
            _ => None,
        }
    }

    /// Whether the one-retry policy may retry this failure.
    pub fn is_retryable(&self) -> (r: bool)
        ensures
            r == self.retryable(),
    {
        matches!(
            self,
            TransportError::Timeout
            | TransportError::Network
            | TransportError::RequestTimeout
            | TransportError::RateLimited { .. }
            | TransportError::ProviderUnavailable { .. }
        )
    }

    /// Bounded server-requested delay, if any.
    pub fn retry_after(&self) -> (r: Option<Duration>)
        ensures
            r == self.server_delay(),
    {
        match self {
            TransportError::RateLimited { retry_after } => *retry_after,
            TransportError::ProviderUnavailable { retry_after, .. } => *retry_after,
            _ => None,
        }
    }
}

/// Explicit timeout, size, redirect, and retry ceilings.
#[derive(Debug, Clone, Copy, PartialEq, Eq, Structural)]
pub struct TransportConfig {
    pub connect_timeout: Duration,
    pub request_timeout: Duration,
    pub max_response_bytes: usize,
    pub max_redirects: u8,
    pub retry: RetryPolicy,
}

/// A span that is not empty.
pub open spec fn nonzero(span: Duration) -> bool {
    span.seconds != 0 || span.nanos != 0
}

impl TransportConfig {
    /// Deadlines are not zero, and every ceiling is within its limit.
    pub open spec fn valid(self) -> bool {
        &&& nonzero(self.connect_timeout)
        &&& nonzero(self.request_timeout)
        &&& 0 < self.max_response_bytes <= MAX_RESPONSE_BYTES
        &&& self.max_redirects <= MAX_REDIRECTS
        &&& self.retry.valid()
    }

    /// Creates a bounded transport configuration.
    pub fn new(
        connect_timeout: Duration,
        request_timeout: Duration,
        max_response_bytes: usize,
        max_redirects: u8,
        retry: RetryPolicy,
    ) -> (r: Result<TransportConfig, TransportError>)
        ensures
            ({
                let config = TransportConfig {
                    connect_timeout,
                    request_timeout,
                    max_response_bytes,
                    max_redirects,
                    retry,
                };
                r == (if config.valid() {
                    Ok::<TransportConfig, TransportError>(config)
                } else {
                    Err(TransportError::InvalidConfiguration)
                })
            }),
    {
        if connect_timeout.is_zero() || request_timeout.is_zero() || max_response_bytes == 0
            || max_response_bytes > MAX_RESPONSE_BYTES || max_redirects > MAX_REDIRECTS
            || !retry.is_valid() {
            return Err(TransportError::InvalidConfiguration);
        }
        Ok(
            TransportConfig {
                connect_timeout,
                request_timeout,
                max_response_bytes,
                max_redirects,
                retry,
            },
        )
    }
}

/// Characters of an RFC 9110 token.
pub open spec fn token_char(c: char) -> bool {
    ||| text::ascii_alphanumeric(c)
    ||| c == '!'
    ||| c == '#'
    ||| c == '$'
    ||| c == '%'
    ||| c == '&'
    ||| c == '\''
    ||| c == '*'
    ||| c == '+'
    ||| c == '-'
    ||| c == '.'
    ||| c == '^'
    ||| c == '_'
    ||| c == '`'
    ||| c == '|'
    ||| c == '~'
}

/// Whether the text is made of token characters alone.
pub open spec fn all_token(s: Seq<char>) -> bool {
    forall|i: int| 0 <= i < s.len() ==> token_char(#[trigger] s[i])
}

/// The header name that a text denotes, in lower case.
pub open spec fn header_name(s: Seq<char>) -> Option<Seq<char>> {
    if 1 <= s.len() <= 65535 && all_token(s) {
        Some(text::lower(s))
    } else {
        None
    }
}

/// Whether a text can stand as a header value: no control character but tab.
pub open spec fn header_value_ok(s: Seq<char>) -> bool {
    forall|i: int|
        0 <= i < s.len() ==> (((#[trigger] s[i]) as u32 >= 32 && s[i] as u32 != 127) || s[i]
            == '\t')
}

/// The text of a header value made of visible ASCII, blanks and tabs.
pub open spec fn visible_text(bytes: Seq<u8>) -> Option<Seq<char>> {
    if forall|i: int|
        0 <= i < bytes.len() ==> (32 <= #[trigger] bytes[i] < 127 || bytes[i] == 9) {
        Some(Seq::new(bytes.len(), |i: int| bytes[i] as char))
    } else {
        None
    }
}

/// `reqwest::header::HeaderName::from_bytes` accepts one to 65535 token
/// characters and folds ASCII letters to lower case.
#[verifier::external_body]
pub(crate) fn parse_header_name(name: &str) -> (r: Option<String>)
    ensures
        r.deep_view() == header_name(name@),
{
    reqwest::header::HeaderName::from_bytes(name.as_bytes()).ok().map(|n| n.as_str().to_owned())
}

/// `reqwest::header::HeaderValue::from_str` accepts every byte but ASCII
/// control characters other than tab.
#[verifier::external_body]
pub(crate) fn is_header_value(value: &str) -> (r: bool)
    ensures
        r == header_value_ok(value@),
{
    reqwest::header::HeaderValue::from_str(value).is_ok()
}

/// The text of a header value: blanks, tabs and visible ASCII only.
pub fn header_text(value: &[u8]) -> (r: Option<String>)
    ensures
        r.deep_view() == visible_text(value@),
{
    let mut out = String::new();
    let ghost whole = Seq::new(value@.len(), |i: int| value@[i] as char);
    let mut i: usize = 0;
    while i < value.len()
        invariant
            i <= value@.len(),
            whole == Seq::new(value@.len(), |i: int| value@[i] as char),
            out@ == whole.take(i as int),
            forall|j: int| 0 <= j < i ==> (32 <= #[trigger] value@[j] < 127 || value@[j] == 9),
        decreases value@.len() - i,
    {
        let byte: u8 = value[i];
        if !((32 <= byte && byte < 127) || byte == 9) {
            assert(!(32 <= value@[i as int] < 127 || value@[i as int] == 9));
            return None;
        }
        out.push(byte as char);
        i += 1;
    }
    assert(whole.take(value@.len() as int) =~= whole);
    Some(out)
}

/// Whether a byte is a token character.
pub fn is_http_token_byte(byte: u8) -> (r: bool)
    ensures
        r == token_char(byte as char),
{
    let c = byte as char;
    is_token_char(c)
}

fn is_token_char(c: char) -> (r: bool)
    ensures
        r == token_char(c),
{
    ('0' <= c && c <= '9') || ('a' <= c && c <= 'z') || ('A' <= c && c <= 'Z') || c == '!' || c
        == '#' || c == '$' || c == '%' || c == '&' || c == '\'' || c == '*' || c == '+' || c == '-'
        || c == '.' || c == '^' || c == '_' || c == '`' || c == '|' || c == '~'
}

/// Bounded secret used only by typed authentication headers.
pub struct SecretValue {
    pub value: String,
}

/// Whether a text can be a secret: not empty, bounded and on one line.
pub open spec fn secret_ok(s: Seq<char>) -> bool {
    s.len() > 0 && text::byte_len(s) <= MAX_SECRET_BYTES && !s.contains('\r') && !s.contains('\n')
}

/// Whether a character slice holds `c`.
fn holds(s: &[char], c: char) -> (r: bool)
    ensures
        r == s@.contains(c),
{
    let found = text::position(s, c, 0);
    proof {
        text::lemma_find_char_bounds(s@, c, 0);
        if found is Some {
            assert(s@[found->0 as int] == c);
        }
    }
    found.is_some()
}

impl SecretValue {
    pub fn new(value: String) -> (r: Result<SecretValue, TransportError>)
        ensures
            match r {
                Ok(secret) => secret_ok(value@) && secret.value@ == value@,
                Err(error) => !secret_ok(value@) && error == TransportError::InvalidConfiguration,
            },
    {
        let chars = text::chars_of(value.as_str());
        if chars.len() == 0 || value.as_str().len() > MAX_SECRET_BYTES || holds(
            chars.as_slice(),
            '\r',
        ) || holds(chars.as_slice(), '\n') {
            return Err(TransportError::InvalidConfiguration);
        }
        Ok(SecretValue { value })
    }
}

/// Authentication forms attached only to a validated endpoint. Each is one header:
/// signatures over the whole request, as cloud services want them, are not among
/// them.
pub enum Authentication {
    /// `Authorization: Bearer ...`.
    Bearer(SecretValue),
    /// `Authorization: <scheme> ...`.
    AuthorizationScheme { scheme: String, value: SecretValue },
    /// Provider-specific secret header.
    ApiKey { name: String, value: SecretValue },
    /// Explicit manual Cookie header.
    Cookie(SecretValue),
}

/// Header names that an API key may not use.
pub open spec fn reserved_api_key(name: Seq<char>) -> bool {
    ||| name == "authorization"@
    ||| name == "cookie"@
    ||| name == "content-length"@
    ||| name == "location"@
    ||| name == "connection"@
    ||| name == "host"@
    ||| name == "proxy-authenticate"@
    ||| name == "proxy-authorization"@
    ||| name == "set-cookie"@
    ||| name == "te"@
    ||| name == "trailer"@
    ||| name == "transfer-encoding"@
    ||| name == "upgrade"@
    ||| name == "www-authenticate"@
}

/// Header names that metadata may not use.
pub open spec fn reserved_public(name: Seq<char>) -> bool {
    reserved_api_key(name) || name == "accept"@ || name == "content-type"@
}

fn is_reserved_api_key_header(name: &str) -> (r: bool)
    ensures
        r == reserved_api_key(name@),
{
    text::same_text(name, "authorization") || text::same_text(name, "cookie") || text::same_text(
        name,
        "content-length",
    ) || text::same_text(name, "location") || text::same_text(name, "connection")
        || text::same_text(name, "host") || text::same_text(name, "proxy-authenticate")
        || text::same_text(name, "proxy-authorization") || text::same_text(name, "set-cookie")
        || text::same_text(name, "te") || text::same_text(name, "trailer") || text::same_text(
        name,
        "transfer-encoding",
    ) || text::same_text(name, "upgrade") || text::same_text(name, "www-authenticate")
}

fn is_reserved_public_header(name: &str) -> (r: bool)
    ensures
        r == reserved_public(name@),
{
    is_reserved_api_key_header(name) || text::same_text(name, "accept") || text::same_text(
        name,
        "content-type",
    )
}

impl Authentication {
    /// The header that carries the authentication.
    pub open spec fn header_view(self) -> (Seq<char>, Seq<char>) {
        match self {
            Authentication::Bearer(secret) => ("authorization"@, "Bearer "@ + secret.value@),
            Authentication::AuthorizationScheme { scheme, value } => (
                "authorization"@,
                scheme@ + " "@ + value.value@,
            ),
            Authentication::ApiKey { name, value } => (name@, value.value@),
            Authentication::Cookie(secret) => ("cookie"@, secret.value@),
        }
    }

    /// Creates bearer authentication.
    pub fn bearer(value: String) -> (r: Result<Authentication, TransportError>)
        ensures
            match r {
                Ok(auth) => secret_ok(value@) && (auth matches Authentication::Bearer(secret)
                    && secret.value@ == value@),
                Err(error) => !secret_ok(value@) && error == TransportError::InvalidConfiguration,
            },
    {
        match SecretValue::new(value) {
            Ok(secret) => Ok(Authentication::Bearer(secret)),
            Err(error) => Err(error),
        }
    }

    /// Creates a vendor authorization scheme such as `Token`.
    pub fn authorization_scheme(scheme: &str, value: String) -> (r: Result<
        Authentication,
        TransportError,
    >)
        ensures
            match r {
                Ok(auth) => scheme_ok(scheme@) && secret_ok(value@) && (auth matches
                    Authentication::AuthorizationScheme { scheme: s, value: secret } && s@
                    == scheme@ && secret.value@ == value@),
                Err(error) => !(scheme_ok(scheme@) && secret_ok(value@)) && error
                    == TransportError::InvalidConfiguration,
            },
    {
        let chars = text::chars_of(scheme);
        if chars.len() == 0 || scheme.len() > MAX_AUTHORIZATION_SCHEME_BYTES {
            return Err(TransportError::InvalidConfiguration);
        }
        let mut i: usize = 0;
        while i < chars.len()
            invariant
                i <= chars@.len(),
                chars@ == scheme@,
                forall|j: int| 0 <= j < i ==> token_char(#[trigger] chars@[j]),
            decreases chars@.len() - i,
        {
            if !is_token_char(chars[i]) {
                assert(!token_char(scheme@[i as int]));
                return Err(TransportError::InvalidConfiguration);
            }
            i += 1;
        }
        match SecretValue::new(value) {
            Ok(secret) => Ok(
                Authentication::AuthorizationScheme { scheme: scheme.to_owned(), value: secret },
            ),
            Err(error) => Err(error),
        }
    }

    /// Creates a provider-specific API-key header.
    pub fn api_key(name: &str, value: String) -> (r: Result<Authentication, TransportError>)
        ensures
            match r {
                Ok(auth) => api_key_name_ok(name@) && secret_ok(value@) && (auth matches
                    Authentication::ApiKey { name: n, value: secret } && n@ == text::lower(name@)
                    && secret.value@ == value@),
                Err(error) => !(api_key_name_ok(name@) && secret_ok(value@)) && error
                    == TransportError::InvalidConfiguration,
            },
    {
        let name = match parse_header_name(name) {
            Some(name) => name,
            None => return Err(TransportError::InvalidConfiguration),
        };
        if is_reserved_api_key_header(name.as_str()) {
            return Err(TransportError::InvalidConfiguration);
        }
        match SecretValue::new(value) {
            Ok(secret) => Ok(Authentication::ApiKey { name, value: secret }),
            Err(error) => Err(error),
        }
    }

    /// Creates an explicit manual Cookie header.
    pub fn cookie(value: String) -> (r: Result<Authentication, TransportError>)
        ensures
            match r {
                Ok(auth) => secret_ok(value@) && (auth matches Authentication::Cookie(secret)
                    && secret.value@ == value@),
                Err(error) => !secret_ok(value@) && error == TransportError::InvalidConfiguration,
            },
    {
        match SecretValue::new(value) {
            Ok(secret) => Ok(Authentication::Cookie(secret)),
            Err(error) => Err(error),
        }
    }

    /// The header that carries the authentication, where its value can stand in
    /// a header.
    pub fn header(&self) -> (r: Result<(String, String), TransportError>)
        ensures
            match r {
                Ok(pair) => header_value_ok(self.header_view().1) && (pair.0@, pair.1@)
                    == self.header_view(),
                Err(error) => !header_value_ok(self.header_view().1) && error
                    == TransportError::InvalidConfiguration,
            },
    {
        let (name, value) = match self {
            Authentication::Bearer(secret) => {
                let mut value = "Bearer ".to_owned();
                value.append(secret.value.as_str());
                ("authorization".to_owned(), value)
            },
            Authentication::AuthorizationScheme { scheme, value } => {
                let mut line = scheme.clone();
                line.append(" ");
                line.append(value.value.as_str());
                ("authorization".to_owned(), line)
            },
            Authentication::ApiKey { name, value } => (name.clone(), value.value.clone()),
            Authentication::Cookie(secret) => ("cookie".to_owned(), secret.value.clone()),
        };
        if is_header_value(value.as_str()) {
            Ok((name, value))
        } else {
            Err(TransportError::InvalidConfiguration)
        }
    }
}

/// Whether a text can be an authorization scheme.
pub open spec fn scheme_ok(s: Seq<char>) -> bool {
    s.len() > 0 && text::byte_len(s) <= MAX_AUTHORIZATION_SCHEME_BYTES && all_token(s)
}

/// Whether a text can name an API-key header.
pub open spec fn api_key_name_ok(s: Seq<char>) -> bool {
    header_name(s) is Some && !reserved_api_key(text::lower(s))
}

/// Request methods of the transport.
#[derive(Debug, Clone, Copy, PartialEq, Eq, Structural)]
pub enum Method {
    Get,
    Post,
}

/// Reusable request description.
pub struct HttpRequest {
    pub method: Method,
    pub url: String,
    pub authentication: Option<Authentication>,
    pub public_headers: Vec<(String, String)>,
    pub sensitive_headers: Vec<(String, String)>,
    pub accepted_statuses: Vec<u16>,
    pub response_headers: Vec<String>,
    pub body: Vec<u8>,
    pub accept: Option<RequestAccept>,
    pub content_type: Option<RequestContentType>,
}

/// Whether one of the header pairs is named `name`.
pub open spec fn names_header(headers: Seq<(Seq<char>, Seq<char>)>, name: Seq<char>) -> bool {
    exists|i: int| 0 <= i < headers.len() && (#[trigger] headers[i]).0 == name
}

/// Whether a status is a client or server error.
pub open spec fn error_status(status: u16) -> bool {
    400 <= status <= 599
}

/// Whether a list of statuses can be accepted as normal responses.
pub open spec fn statuses_ok(statuses: Seq<u16>) -> bool {
    &&& statuses.len() <= MAX_ACCEPTED_STATUSES
    &&& forall|i: int| 0 <= i < statuses.len() ==> error_status(#[trigger] statuses[i])
    &&& statuses.no_duplicates()
}

/// The response headers that a list of names selects.
pub open spec fn selected_names(names: Seq<Seq<char>>) -> Seq<Seq<char>> {
    names.map_values(|n: Seq<char>| text::lower(n))
}

/// Whether a list of names can be selected from a response.
pub open spec fn selection_ok(names: Seq<Seq<char>>) -> bool {
    &&& names.len() <= MAX_RESPONSE_HEADERS
    &&& forall|i: int|
        0 <= i < names.len() ==> header_name(#[trigger] names[i]) is Some && !reserved_api_key(
            text::lower(names[i]),
        )
    &&& selected_names(names).no_duplicates()
}

/// Whether header names are distinct and none is reserved.
pub open spec fn distinct_unreserved(headers: Seq<(Seq<char>, Seq<char>)>) -> bool {
    &&& forall|i: int| 0 <= i < headers.len() ==> !reserved_public((#[trigger] headers[i]).0)
    &&& forall|i: int, j: int|
        0 <= i < j < headers.len() ==> (#[trigger] headers[i]).0 != (#[trigger] headers[j]).0
}

impl HttpRequest {
    /// Headers are few, distinct and not reserved; the body is bounded.
    pub open spec fn wf(self) -> bool {
        &&& self.public_headers@.len() + self.sensitive_headers@.len() <= MAX_PUBLIC_REQUEST_HEADERS
        &&& self.body@.len() <= MAX_REQUEST_BODY_BYTES
        &&& statuses_ok(self.accepted_statuses@)
        &&& self.response_headers@.len() <= MAX_RESPONSE_HEADERS
        &&& distinct_unreserved(self.metadata())
    }

    /// The public headers and behind them the sensitive ones.
    pub open spec fn metadata(self) -> Seq<(Seq<char>, Seq<char>)> {
        self.public_headers.deep_view() + self.sensitive_headers.deep_view()
    }

    /// Whether one more metadata header named `name` may be attached.
    pub open spec fn may_attach(self, name: Seq<char>) -> bool {
        &&& self.public_headers@.len() + self.sensitive_headers@.len() < MAX_PUBLIC_REQUEST_HEADERS
        &&& header_name(name) is Some
        &&& !reserved_public(text::lower(name))
        &&& !names_header(self.public_headers.deep_view(), text::lower(name))
        &&& !names_header(self.sensitive_headers.deep_view(), text::lower(name))
    }

    /// A request without metadata.
    pub open spec fn bare(self, method: Method, url: Seq<char>, body: Seq<u8>) -> bool {
        &&& self.method == method
        &&& self.url@ == url
        &&& self.authentication is None
        &&& self.public_headers@.len() == 0
        &&& self.sensitive_headers@.len() == 0
        &&& self.accepted_statuses@.len() == 0
        &&& self.response_headers@.len() == 0
        &&& self.body@ == body
    }

    /// A request without metadata beside its authentication.
    pub open spec fn bare_but_auth(self, method: Method, url: Seq<char>, body: Seq<u8>) -> bool {
        (HttpRequest { authentication: None, ..self }).bare(method, url, body)
    }

    /// Creates a body-free GET request.
    pub fn get(url: String) -> (r: HttpRequest)
        ensures
            r.bare(Method::Get, url@, seq![]),
            r.accept is None,
            r.content_type is None,
            r.wf(),
    {
        HttpRequest {
            method: Method::Get,
            url,
            authentication: None,
            public_headers: Vec::new(),
            sensitive_headers: Vec::new(),
            accepted_statuses: Vec::new(),
            response_headers: Vec::new(),
            body: Vec::new(),
            accept: None,
            content_type: None,
        }
    }

    /// Creates a body-free GET request that advertises JSON response support.
    pub fn get_json(url: String) -> (r: HttpRequest)
        ensures
            r.bare(Method::Get, url@, seq![]),
            r.accept == Some(RequestAccept::Json),
            r.content_type is None,
            r.wf(),
    {
        let mut request = HttpRequest::get(url);
        request.accept = Some(RequestAccept::Json);
        request
    }

    /// Creates a bounded POST request body.
    pub fn post(url: String, body: Vec<u8>) -> (r: Result<HttpRequest, TransportError>)
        ensures
            match r {
                Ok(q) => body@.len() <= MAX_REQUEST_BODY_BYTES && q.bare(Method::Post, url@, body@)
                    && q.accept is None && q.content_type is None && q.wf(),
                Err(error) => body@.len() > MAX_REQUEST_BODY_BYTES && error
                    == TransportError::InvalidConfiguration,
            },
    {
        if body.len() > MAX_REQUEST_BODY_BYTES {
            return Err(TransportError::InvalidConfiguration);
        }
        Ok(
            HttpRequest {
                method: Method::Post,
                url,
                authentication: None,
                public_headers: Vec::new(),
                sensitive_headers: Vec::new(),
                accepted_statuses: Vec::new(),
                response_headers: Vec::new(),
                body,
                accept: None,
                content_type: None,
            },
        )
    }

    /// Creates a bounded JSON POST request body.
    pub fn post_json(url: String, body: Vec<u8>) -> (r: Result<HttpRequest, TransportError>)
        ensures
            match r {
                Ok(q) => body@.len() <= MAX_REQUEST_BODY_BYTES && q.bare(Method::Post, url@, body@)
                    && q.accept == Some(RequestAccept::Json) && q.content_type == (if body@.len()
                    > 0 {
                    Some(RequestContentType::Json)
                } else {
                    None
                }) && q.wf(),
                Err(error) => body@.len() > MAX_REQUEST_BODY_BYTES && error
                    == TransportError::InvalidConfiguration,
            },
    {
        let has_body = body.len() > 0;
        let mut request = match HttpRequest::post(url, body) {
            Ok(request) => request,
            Err(error) => return Err(error),
        };
        request.accept = Some(RequestAccept::Json);
        if has_body {
            request.content_type = Some(RequestContentType::Json);
        }
        Ok(request)
    }

    /// Attaches typed authentication.
    pub fn authentication(self, authentication: Authentication) -> (r: HttpRequest)
        ensures
            r == (HttpRequest { authentication: Some(authentication), ..self }),
            self.wf() ==> r.wf(),
    {
        let mut request = self;
        request.authentication = Some(authentication);
        assert(request.metadata() == self.metadata());
        request
    }

    /// Sets the `Accept` value.
    pub fn accept(self, accept: RequestAccept) -> (r: HttpRequest)
        ensures
            r == (HttpRequest { accept: Some(accept), ..self }),
            self.wf() ==> r.wf(),
    {
        let mut request = self;
        request.accept = Some(accept);
        assert(request.metadata() == self.metadata());
        request
    }

    /// Sets the `Content-Type` value.
    pub fn content_type(self, content_type: RequestContentType) -> (r: HttpRequest)
        ensures
            r == (HttpRequest { content_type: Some(content_type), ..self }),
            self.wf() ==> r.wf(),
    {
        let mut request = self;
        request.content_type = Some(content_type);
        assert(request.metadata() == self.metadata());
        request
    }

    /// Requests an explicit JSON content type for a body-free request.
    pub fn empty_json_content_type(self) -> (r: HttpRequest)
        ensures
            r == (HttpRequest { content_type: Some(RequestContentType::Json), ..self }),
            self.wf() ==> r.wf(),
    {
        self.content_type(RequestContentType::Json)
    }

    /// Allows a bounded set of error statuses to return as normal responses.
    pub fn accepted_statuses(self, statuses: &[u16]) -> (r: Result<HttpRequest, TransportError>)
        ensures
            match r {
                Ok(q) => statuses_ok(statuses@) && q.accepted_statuses@ == statuses@ && q == (
                HttpRequest { accepted_statuses: q.accepted_statuses, ..self }) && (self.wf()
                    ==> q.wf()),
                Err(error) => !statuses_ok(statuses@) && error
                    == TransportError::InvalidConfiguration,
            },
    {
        if statuses.len() > MAX_ACCEPTED_STATUSES {
            return Err(TransportError::InvalidConfiguration);
        }
        let mut accepted: Vec<u16> = Vec::new();
        let mut i: usize = 0;
        while i < statuses.len()
            invariant
                i <= statuses@.len() <= MAX_ACCEPTED_STATUSES,
                accepted@ == statuses@.take(i as int),
                statuses_ok(accepted@),
            decreases statuses@.len() - i,
        {
            let status: u16 = statuses[i];
            if !(400 <= status && status <= 599) {
                assert(!error_status(statuses@[i as int]));
                return Err(TransportError::InvalidConfiguration);
            }
            let mut k: usize = 0;
            while k < accepted.len()
                invariant
                    i < statuses@.len(),
                    status == statuses@[i as int],
                    accepted@ == statuses@.take(i as int),
                    k <= accepted@.len(),
                    forall|j: int| 0 <= j < k ==> accepted@[j] != status,
                decreases accepted@.len() - k,
            {
                if accepted[k] == status {
                    assert(statuses@[k as int] == statuses@[i as int]);
                    return Err(TransportError::InvalidConfiguration);
                }
                k += 1;
            }
            accepted.push(status);
            i += 1;
        }
        assert(statuses@.take(statuses@.len() as int) =~= statuses@);
        let mut request = self;
        request.accepted_statuses = accepted;
        assert(request.metadata() == self.metadata());
        Ok(request)
    }

    /// Selects the only response headers retained by the transport.
    pub fn response_headers(self, names: &Vec<&str>) -> (r: Result<HttpRequest, TransportError>)
        ensures
            match r {
                Ok(q) => selection_ok(names.deep_view()) && q.response_headers.deep_view()
                    == selected_names(names.deep_view()) && q == (HttpRequest {
                    response_headers: q.response_headers,
                    ..self
                }) && (self.wf() ==> q.wf()),
                Err(error) => !selection_ok(names.deep_view()) && error
                    == TransportError::InvalidConfiguration,
            },
    {
        let ghost all = names.deep_view();
        if names.len() > MAX_RESPONSE_HEADERS {
            return Err(TransportError::InvalidConfiguration);
        }
        let mut selected: Vec<String> = Vec::new();
        let mut i: usize = 0;
        while i < names.len()
            invariant
                all == names.deep_view(),
                i <= names@.len() <= MAX_RESPONSE_HEADERS,
                selected@.len() == i,
                forall|j: int|
                    0 <= j < i ==> header_name(#[trigger] all[j]) is Some && !reserved_api_key(
                        text::lower(all[j]),
                    ) && selected@[j]@ == text::lower(all[j]),
                forall|j: int, k: int|
                    0 <= j < k < i ==> (#[trigger] selected@[j])@ != (#[trigger] selected@[k])@,
            decreases names@.len() - i,
        {
            assert(all[i as int] == names@[i as int]@);
            let name = match parse_header_name(names[i]) {
                Some(name) => name,
                None => {
                    assert(header_name(all[i as int]) is None);
                    return Err(TransportError::InvalidConfiguration);
                },
            };
            if is_reserved_api_key_header(name.as_str()) {
                assert(reserved_api_key(text::lower(all[i as int])));
                return Err(TransportError::InvalidConfiguration);
            }
            let mut k: usize = 0;
            while k < selected.len()
                invariant
                    all == names.deep_view(),
                    i < names@.len(),
                    selected@.len() == i,
                    name@ == text::lower(all[i as int]),
                    k <= selected@.len(),
                    forall|j: int| 0 <= j < i ==> (#[trigger] selected@[j])@ == text::lower(all[j]),
                    forall|j: int| 0 <= j < k ==> (#[trigger] selected@[j])@ != name@,
                decreases selected@.len() - k,
            {
                if text::same_text(selected[k].as_str(), name.as_str()) {
                    assert(selected_names(all)[k as int] == selected_names(all)[i as int]);
                    return Err(TransportError::InvalidConfiguration);
                }
                k += 1;
            }
            selected.push(name);
            i += 1;
        }
        assert(selected.deep_view() =~= selected_names(all));
        assert(selection_ok(all)) by {
            assert forall|j: int, k: int|
                0 <= j < selected_names(all).len() && 0 <= k < selected_names(all).len() && j
                    != k implies selected_names(all)[j] != selected_names(all)[k] by {
                assert(selected_names(all)[j] == selected@[j]@);
                assert(selected_names(all)[k] == selected@[k]@);
            }
        }
        let mut request = self;
        request.response_headers = selected;
        assert(request.metadata() == self.metadata());
        Ok(request)
    }

    /// Whether a metadata header of that name is attached.
    fn has_metadata_header(&self, name: &str) -> (r: bool)
        ensures
            r == (names_header(self.public_headers.deep_view(), name@) || names_header(
                self.sensitive_headers.deep_view(),
                name@,
            )),
    {
        has_header(&self.public_headers, name) || has_header(&self.sensitive_headers, name)
    }

    /// Attaches one bounded, explicitly non-secret metadata header.
    pub fn public_header(self, name: &str, value: &str) -> (r: Result<HttpRequest, TransportError>)
        requires
            self.wf(),
        ensures
            match r {
                Ok(q) => self.may_attach(name@) && text::byte_len(value@)
                    <= MAX_PUBLIC_HEADER_VALUE_BYTES && header_value_ok(value@)
                    && q.public_headers.deep_view() == self.public_headers.deep_view().push(
                    (text::lower(name@), value@),
                ) && q == (HttpRequest { public_headers: q.public_headers, ..self }) && q.wf(),
                Err(error) => !(self.may_attach(name@) && text::byte_len(value@)
                    <= MAX_PUBLIC_HEADER_VALUE_BYTES && header_value_ok(value@)) && error
                    == TransportError::InvalidConfiguration,
            },
    {
        if self.public_headers.len() + self.sensitive_headers.len() >= MAX_PUBLIC_REQUEST_HEADERS
            || value.len() > MAX_PUBLIC_HEADER_VALUE_BYTES {
            return Err(TransportError::InvalidConfiguration);
        }
        let lower = match parse_header_name(name) {
            Some(lower) => lower,
            None => return Err(TransportError::InvalidConfiguration),
        };
        if is_reserved_public_header(lower.as_str()) || self.has_metadata_header(lower.as_str()) {
            return Err(TransportError::InvalidConfiguration);
        }
        if !is_header_value(value) {
            return Err(TransportError::InvalidConfiguration);
        }
        let mut request = self;
        let ghost before = request.public_headers.deep_view();
        let ghost behind = request.sensitive_headers.deep_view();
        request.public_headers.push((lower, value.to_owned()));
        proof {
            let pair = (text::lower(name@), value@);
            assert(request.public_headers.deep_view() =~= before.push(pair));
            assert(request.metadata() =~= before.push(pair) + behind);
            lemma_insert_keeps_distinct(before, behind, pair);
        }
        Ok(request)
    }

    /// Attaches one bounded metadata header whose value stays secret.
    pub fn sensitive_header(self, name: &str, value: String) -> (r: Result<
        HttpRequest,
        TransportError,
    >)
        requires
            self.wf(),
        ensures
            match r {
                Ok(q) => self.may_attach(name@) && secret_ok(value@) && text::byte_len(value@)
                    <= MAX_PUBLIC_HEADER_VALUE_BYTES && q.sensitive_headers.deep_view()
                    == self.sensitive_headers.deep_view().push((text::lower(name@), value@)) && q
                    == (HttpRequest { sensitive_headers: q.sensitive_headers, ..self }) && q.wf(),
                Err(error) => !(self.may_attach(name@) && secret_ok(value@) && text::byte_len(
                    value@,
                ) <= MAX_PUBLIC_HEADER_VALUE_BYTES) && error
                    == TransportError::InvalidConfiguration,
            },
    {
        if self.public_headers.len() + self.sensitive_headers.len() >= MAX_PUBLIC_REQUEST_HEADERS {
            return Err(TransportError::InvalidConfiguration);
        }
        let lower = match parse_header_name(name) {
            Some(lower) => lower,
            None => return Err(TransportError::InvalidConfiguration),
        };
        if is_reserved_public_header(lower.as_str()) || self.has_metadata_header(lower.as_str()) {
            return Err(TransportError::InvalidConfiguration);
        }
        let secret = match SecretValue::new(value) {
            Ok(secret) => secret,
            Err(error) => return Err(error),
        };
        if secret.value.as_str().len() > MAX_PUBLIC_HEADER_VALUE_BYTES {
            return Err(TransportError::InvalidConfiguration);
        }
        let mut request = self;
        let ghost before = request.public_headers.deep_view();
        let ghost behind = request.sensitive_headers.deep_view();
        request.sensitive_headers.push((lower, secret.value));
        proof {
            let pair = (text::lower(name@), value@);
            assert(request.sensitive_headers.deep_view() =~= behind.push(pair));
            assert(before + behind.push(pair) =~= (before + behind).push(pair) + seq![]);
            assert((before + behind) + seq![] =~= before + behind);
            assert forall|i: int| 0 <= i < (before + behind).len() implies (#[trigger] (before
                + behind)[i]).0 != pair.0 by {
                if i < before.len() {
                    assert(before[i].0 != pair.0);
                } else {
                    assert(behind[i - before.len()].0 != pair.0);
                }
            }
            lemma_insert_keeps_distinct(before + behind, seq![], pair);
        }
        Ok(request)
    }
}

/// Putting a pair with a new, unreserved name between two lists of pairs keeps
/// the names distinct and unreserved.
proof fn lemma_insert_keeps_distinct(
    before: Seq<(Seq<char>, Seq<char>)>,
    behind: Seq<(Seq<char>, Seq<char>)>,
    pair: (Seq<char>, Seq<char>),
)
    requires
        !reserved_public(pair.0),
        !names_header(before, pair.0),
        !names_header(behind, pair.0),
        distinct_unreserved(before + behind),
    ensures
        distinct_unreserved(before.push(pair) + behind),
{
    let all = before.push(pair) + behind;
    let old_all = before + behind;
    let n = before.len() as int;
    assert forall|i: int| 0 <= i < all.len() implies !reserved_public((#[trigger] all[i]).0) by {
        if i < n {
            assert(all[i] == old_all[i]);
        } else if i > n {
            assert(all[i] == old_all[i - 1]);
        }
    }
    assert forall|i: int, j: int| 0 <= i < j < all.len() implies (#[trigger] all[i]).0 != (
    #[trigger] all[j]).0 by {
        let a = if i <= n {
            i
        } else {
            i - 1
        };
        let b = if j <= n {
            j
        } else {
            j - 1
        };
        if i == n {
            assert(all[j] == behind[j - n - 1]);
            assert(behind[j - n - 1].0 != pair.0);
        } else if j == n {
            assert(all[i] == before[i]);
            assert(before[i].0 != pair.0);
        } else {
            assert(all[i] == old_all[a]);
            assert(all[j] == old_all[b]);
        }
    }
}

fn has_header(headers: &Vec<(String, String)>, name: &str) -> (r: bool)
    ensures
        r == names_header(headers.deep_view(), name@),
{
    let ghost all = headers.deep_view();
    let mut i: usize = 0;
    while i < headers.len()
        invariant
            all == headers.deep_view(),
            i <= headers@.len(),
            forall|j: int| 0 <= j < i ==> (#[trigger] all[j]).0 != name@,
        decreases headers@.len() - i,
    {
        assert(all[i as int].0 == headers@[i as int].0@);
        if text::same_text(headers[i].0.as_str(), name) {
            assert(all[i as int].0 == name@);
            return true;
        }
        i += 1;
    }
    false
}

/// Whether a text is a header name in lower case that metadata may use.
pub open spec fn metadata_name(name: Seq<char>) -> bool {
    header_name(name) == Some(name) && text::lower(name) == name && !reserved_public(name)
}

/// Makes the reserved header names known.
pub proof fn reveal_reserved()
    ensures
        "authorization"@.len() == 13,
        "authorization"@[0] == 'a',
        "authorization"@[1] == 'u',
        "cookie"@.len() == 6,
        "cookie"@[0] == 'c',
        "cookie"@[1] == 'o',
        "content-length"@.len() == 14,
        "content-length"@[0] == 'c',
        "content-length"@[1] == 'o',
        "location"@.len() == 8,
        "location"@[0] == 'l',
        "location"@[1] == 'o',
        "connection"@.len() == 10,
        "connection"@[0] == 'c',
        "connection"@[1] == 'o',
        "host"@.len() == 4,
        "host"@[0] == 'h',
        "host"@[1] == 'o',
        "proxy-authenticate"@.len() == 18,
        "proxy-authenticate"@[0] == 'p',
        "proxy-authenticate"@[1] == 'r',
        "proxy-authorization"@.len() == 19,
        "proxy-authorization"@[0] == 'p',
        "proxy-authorization"@[1] == 'r',
        "set-cookie"@.len() == 10,
        "set-cookie"@[0] == 's',
        "set-cookie"@[1] == 'e',
        "te"@.len() == 2,
        "te"@[0] == 't',
        "te"@[1] == 'e',
        "trailer"@.len() == 7,
        "trailer"@[0] == 't',
        "trailer"@[1] == 'r',
        "transfer-encoding"@.len() == 17,
        "transfer-encoding"@[0] == 't',
        "transfer-encoding"@[1] == 'r',
        "upgrade"@.len() == 7,
        "upgrade"@[0] == 'u',
        "upgrade"@[1] == 'p',
        "www-authenticate"@.len() == 16,
        "www-authenticate"@[0] == 'w',
        "www-authenticate"@[1] == 'w',
        "accept"@.len() == 6,
        "accept"@[0] == 'a',
        "accept"@[1] == 'c',
        "content-type"@.len() == 12,
        "content-type"@[0] == 'c',
        "content-type"@[1] == 'o',
{
    reveal_strlit("authorization");
    reveal_strlit("cookie");
    reveal_strlit("content-length");
    reveal_strlit("location");
    reveal_strlit("connection");
    reveal_strlit("host");
    reveal_strlit("proxy-authenticate");
    reveal_strlit("proxy-authorization");
    reveal_strlit("set-cookie");
    reveal_strlit("te");
    reveal_strlit("trailer");
    reveal_strlit("transfer-encoding");
    reveal_strlit("upgrade");
    reveal_strlit("www-authenticate");
    reveal_strlit("accept");
    reveal_strlit("content-type");
}

/// The configuration with the given deadlines in seconds and ceilings.
pub open spec fn ceilings(
    connect: u64,
    request: u64,
    max_response_bytes: usize,
    max_redirects: u8,
    retry: RetryPolicy,
) -> TransportConfig {
    TransportConfig {
        connect_timeout: Duration { seconds: connect, nanos: 0 },
        request_timeout: Duration { seconds: request, nanos: 0 },
        max_response_bytes,
        max_redirects,
        retry,
    }
}

/// Creates the configuration with the given deadlines in seconds and ceilings.
pub fn bounded(
    connect: u64,
    request: u64,
    max_response_bytes: usize,
    max_redirects: u8,
    retry: RetryPolicy,
) -> (r: Result<TransportConfig, ClassifiedError>)
    ensures
        ({
            let config = ceilings(connect, request, max_response_bytes, max_redirects, retry);
            r == (if config.valid() {
                Ok::<TransportConfig, ClassifiedError>(config)
            } else {
                Err(crate::error::plain(ErrorKind::Api))
            })
        }),
{
    match TransportConfig::new(
        Duration::from_secs(connect),
        Duration::from_secs(request),
        max_response_bytes,
        max_redirects,
        retry,
    ) {
        Ok(config) => Ok(config),
        Err(e) => Err(e.classified()),
    }
}

/// A failure keeps the wish of the server in whole seconds, and at least one.
pub proof fn law_wishes_are_told_in_seconds(e: TransportError, kind: ErrorKind)
    ensures
        e.as_class(kind).kind == kind,
        e.as_class(kind).retry_after_seconds is Some <==> e.server_delay() is Some,
        e.as_class(kind).retry_after_seconds matches Some(seconds) ==> seconds >= 1 && (
        e.server_delay()->0.seconds >= 1 ==> seconds == e.server_delay()->0.seconds),
{
}

/// A name that can be attached as metadata is a token, names no credential, no
/// content type and nothing of the connection, and was not attached before; there are
/// at most thirty-two of them.
pub proof fn law_attached_names_are_harmless(request: HttpRequest, name: Seq<char>)
    ensures
        request.may_attach(name) ==> {
            &&& name.len() > 0 && forall|i: int| 0 <= i < name.len() ==> token_char(#[trigger] name[i])
            &&& request.public_headers@.len() + request.sensitive_headers@.len() < 32
            &&& text::lower(name) != "authorization"@
            &&& text::lower(name) != "cookie"@
            &&& text::lower(name) != "set-cookie"@
            &&& text::lower(name) != "host"@
            &&& text::lower(name) != "location"@
            &&& text::lower(name) != "content-length"@
            &&& text::lower(name) != "content-type"@
            &&& text::lower(name) != "accept"@
            &&& text::lower(name) != "transfer-encoding"@
            &&& text::lower(name) != "connection"@
            &&& text::lower(name) != "upgrade"@
            &&& text::lower(name) != "te"@
            &&& text::lower(name) != "trailer"@
            &&& text::lower(name) != "proxy-authorization"@
            &&& text::lower(name) != "proxy-authenticate"@
            &&& text::lower(name) != "www-authenticate"@
            &&& !names_header(request.public_headers.deep_view(), text::lower(name))
            &&& !names_header(request.sensitive_headers.deep_view(), text::lower(name))
        },
{
}

/// Selected response headers never hold a credential, and there are at most
/// thirty-two of them.
pub proof fn law_selections_hold_no_credentials(names: Seq<Seq<char>>, i: int)
    requires
        0 <= i < names.len(),
    ensures
        selection_ok(names) ==> names.len() <= 32 && text::lower(names[i]) != "set-cookie"@
            && text::lower(names[i]) != "www-authenticate"@ && text::lower(names[i])
            != "authorization"@ && text::lower(names[i]) != "cookie"@,
{
}

/// A configuration holds its deadlines in seconds, each in its place.
pub proof fn law_deadlines_are_kept(
    connect: u64,
    request: u64,
    max_response_bytes: usize,
    max_redirects: u8,
    retry: RetryPolicy,
)
    ensures
        ({
            let config = ceilings(connect, request, max_response_bytes, max_redirects, retry);
            &&& config.connect_timeout.seconds == connect && config.connect_timeout.nanos == 0
            &&& config.request_timeout.seconds == request && config.request_timeout.nanos == 0
            &&& config.max_response_bytes == max_response_bytes
            &&& config.max_redirects == max_redirects
            &&& config.retry == retry
        }),
{
}

} // verus!
