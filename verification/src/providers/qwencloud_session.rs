//! Qwen Cloud session: routes, cookies, the security token and the requests.

use vstd::prelude::*;
use vstd::slice::slice_subrange;

use crate::capture::ManualCaptureError;
use crate::error;
use crate::error::{ClassifiedError, ErrorKind};
use crate::json;
use crate::json::{Json, Tree};
use crate::providers::qwencloud;
use crate::providers::qwencloud_usage;
use crate::registry::ProviderId;
use crate::retry;
use crate::retry::RetryPolicy;
use crate::text;
use crate::transport;
use crate::transport::{
    Authentication, HttpRequest, Method, RequestAccept, RequestContentType, TransportConfig,
    TransportError,
};
use crate::urls;
use crate::urls::{EndpointClass, UrlParts, UrlView};
use crate::usage::ProviderSource;

verus! {

pub const MAX_COOKIE_HEADER_BYTES: usize = 16 * 1024;

/// Whether a text can be a token: not empty, bounded, without control
/// characters.
pub open spec fn token_ok(s: Seq<char>) -> bool {
    s.len() > 0 && text::byte_len(s) <= qwencloud_usage::MAX_TOKEN_BYTES && !text::has_control(s)
}

/// Whether a text can be a token.
pub fn valid_token(value: &[char]) -> (r: bool)
    ensures
        r == token_ok(value@),
{
    if value.len() == 0 {
        return false;
    }
    let copy = text::text_of(value);
    copy.as_str().len() <= qwencloud_usage::MAX_TOKEN_BYTES && !text::any_control(value)
}

/// Name and value of one cookie, both trimmed.
pub open spec fn cookie_pair(part: Seq<char>) -> Option<(Seq<char>, Seq<char>)> {
    match text::split_at_first(text::trimmed(part), '=') {
        Some((name, value)) => Some((text::trimmed(name), text::trimmed(value))),
        None => None,
    }
}

fn read_cookie(part: &[char]) -> (r: Option<(&[char], &[char])>)
    ensures
        match r {
            Some(pair) => cookie_pair(part@) == Some((pair.0@, pair.1@)),
            None => cookie_pair(part@) is None,
        },
{
    match text::split_once(text::trim(part), '=') {
        Some((name, value)) => Some((text::trim(name), text::trim(value))),
        None => None,
    }
}

/// Whether one cookie is an authentication ticket with a usable value.
pub open spec fn ticket(part: Seq<char>) -> bool {
    match cookie_pair(part) {
        Some((name, value)) => (name == "login_aliyunid_ticket"@ || name
            == "login_qwencloud_ticket"@ || name == "qwen_sso_ticket"@) && token_ok(value),
        None => false,
    }
}

/// Whether a cookie header holds an authentication ticket.
pub fn has_qwen_auth_ticket(header: &str) -> (r: bool)
    ensures
        r == exists|i: int|
            0 <= i < text::pieces(header@, ';').len() && ticket(
                #[trigger] text::pieces(header@, ';')[i],
            ),
{
    let chars = text::chars_of(header);
    let parts = text::split(chars.as_slice(), ';');
    let ghost all = text::pieces(header@, ';');
    let mut i: usize = 0;
    while i < parts.len()
        invariant
            all == text::pieces(header@, ';'),
            parts@.len() == all.len(),
            forall|j: int| 0 <= j < parts@.len() ==> (#[trigger] parts@[j])@ == all[j],
            i <= parts@.len(),
            forall|j: int| 0 <= j < i ==> !ticket(#[trigger] all[j]),
        decreases parts@.len() - i,
    {
        assert(parts@[i as int]@ == all[i as int]);
        if let Some((name, value)) = read_cookie(parts[i]) {
            if (text::equals(name, "login_aliyunid_ticket") || text::equals(
                name,
                "login_qwencloud_ticket",
            ) || text::equals(name, "qwen_sso_ticket")) && valid_token(value) {
                assert(ticket(all[i as int]));
                return true;
            }
        }
        i += 1;
    }
    false
}

/// The usable value of one cookie under a name, without regard to case.
pub open spec fn value_under(part: Seq<char>, expected: Seq<char>) -> Option<Seq<char>> {
    match cookie_pair(part) {
        Some((name, value)) => if text::same_ignoring_case(name, expected) && token_ok(value) {
            Some(value)
        } else {
            None
        },
        None => None,
    }
}

fn read_value<'a>(part: &'a [char], expected: &[char]) -> (r: Option<&'a [char]>)
    ensures
        match r {
            Some(value) => value_under(part@, expected@) == Some(value@),
            None => value_under(part@, expected@) is None,
        },
{
    match read_cookie(part) {
        Some((name, value)) => if text::eq_ignore_case(name, expected) && valid_token(value) {
            Some(value)
        } else {
            None
        },
        None => None,
    }
}

/// The first usable value under a name among the cookies at or behind `from`.
pub open spec fn first_value(parts: Seq<Seq<char>>, expected: Seq<char>, from: int) -> Option<
    Seq<char>,
>
    decreases parts.len() - from,
{
    if from < 0 || from >= parts.len() {
        None
    } else {
        match value_under(parts[from], expected) {
            Some(value) => Some(value),
            None => first_value(parts, expected, from + 1),
        }
    }
}

/// The first usable cookie value under a name.
pub fn cookie_value(header: &str, expected: &str) -> (r: Option<String>)
    ensures
        r.deep_view() == first_value(text::pieces(header@, ';'), expected@, 0),
{
    let wanted = text::chars_of(expected);
    let chars = text::chars_of(header);
    let parts = text::split(chars.as_slice(), ';');
    let ghost all = text::pieces(header@, ';');
    let mut i: usize = 0;
    while i < parts.len()
        invariant
            all == text::pieces(header@, ';'),
            wanted@ == expected@,
            parts@.len() == all.len(),
            forall|j: int| 0 <= j < parts@.len() ==> (#[trigger] parts@[j])@ == all[j],
            i <= parts@.len(),
            first_value(all, expected@, 0) == first_value(all, expected@, i as int),
        decreases parts@.len() - i,
    {
        assert(parts@[i as int]@ == all[i as int]);
        if let Some(value) = read_value(parts[i], wanted.as_slice()) {
            return Some(text::text_of(value));
        }
        i += 1;
    }
    None
}

/// Among the cookies at or behind `from`, the first usable value under a name
/// that mentions the host; where none does, the last usable value, and where
/// there is none either, `fallback`.
pub open spec fn preferred_value(
    parts: Seq<Seq<char>>,
    expected: Seq<char>,
    host: Option<Seq<char>>,
    from: int,
    fallback: Option<Seq<char>>,
) -> Option<Seq<char>>
    decreases parts.len() - from,
{
    if from < 0 || from >= parts.len() {
        fallback
    } else {
        match value_under(parts[from], expected) {
            Some(value) => if host is Some && text::contains(value, host->0) {
                Some(value)
            } else {
                preferred_value(parts, expected, host, from + 1, Some(value))
            },
            None => preferred_value(parts, expected, host, from + 1, fallback),
        }
    }
}

/// The usable cookie value under a name, preferring one that mentions the host.
pub fn preferred_cookie_value(header: &str, expected: &str, host: Option<&str>) -> (r: Option<
    String,
>)
    ensures
        r.deep_view() == preferred_value(
            text::pieces(header@, ';'),
            expected@,
            optional_text(host),
            0,
            None,
        ),
{
    let wanted = text::chars_of(expected);
    let chars = text::chars_of(header);
    let parts = text::split(chars.as_slice(), ';');
    let ghost all = text::pieces(header@, ';');
    let ghost wanted_host = optional_text(host);
    let mut fallback: Option<String> = None;
    let mut i: usize = 0;
    while i < parts.len()
        invariant
            all == text::pieces(header@, ';'),
            wanted_host == optional_text(host),
            wanted@ == expected@,
            parts@.len() == all.len(),
            forall|j: int| 0 <= j < parts@.len() ==> (#[trigger] parts@[j])@ == all[j],
            i <= parts@.len(),
            preferred_value(all, expected@, wanted_host, 0, None) == preferred_value(
                all,
                expected@,
                wanted_host,
                i as int,
                fallback.deep_view(),
            ),
        decreases parts@.len() - i,
    {
        assert(parts@[i as int]@ == all[i as int]);
        if let Some(value) = read_value(parts[i], wanted.as_slice()) {
            if let Some(h) = host {
                if text::has(value, h) {
                    return Some(text::text_of(value));
                }
            }
            fallback = Some(text::text_of(value));
        }
        i += 1;
    }
    fallback
}

/// The characters of an optional text.
pub open spec fn optional_text(s: Option<&str>) -> Option<Seq<char>> {
    match s {
        Some(t) => Some(t@),
        None => None,
    }
}

/// Whether a page is a login page of the service.
pub open spec fn login_page(html: Seq<char>) -> bool {
    let page = text::lower(html);
    ||| text::contains(page, "passport.alibabacloud.com"@)
    ||| text::contains(page, "signin.aliyun.com"@)
    ||| text::contains(page, "account.alibabacloud.com/login"@)
    ||| text::contains(page, "login.qwencloud.com"@)
    ||| (text::contains(page, "login"@) && text::contains(page, "password"@) && text::contains(
        page,
        "sign in"@,
    ))
}

/// Whether a page is a login page of the service.
pub fn looks_like_login_page(html: &[char]) -> (r: bool)
    ensures
        r == login_page(html@),
{
    let lower = text::to_lower(html);
    let s = lower.as_slice();
    text::has(s, "passport.alibabacloud.com") || text::has(s, "signin.aliyun.com") || text::has(
        s,
        "account.alibabacloud.com/login",
    ) || text::has(s, "login.qwencloud.com") || (text::has(s, "login") && text::has(s, "password")
        && text::has(s, "sign in"))
}

/// Characters of an identifier.
pub open spec fn word_char(c: char) -> bool {
    text::ascii_alphanumeric(c) || c == '_'
}

/// Whether the text from `at` on, of the given length, is no part of a longer
/// identifier.
pub open spec fn stands_alone(s: Seq<char>, at: int, length: int) -> bool {
    &&& !(at > 0 && word_char(s[at - 1]))
    &&& !(at + length < s.len() && word_char(s[at + length]))
}

fn is_word_char(c: char) -> (r: bool)
    ensures
        r == word_char(c),
{
    ('0' <= c && c <= '9') || ('a' <= c && c <= 'z') || ('A' <= c && c <= 'Z') || c == '_'
}

/// Whether the text from `offset` on, of the given length, is no part of a
/// longer identifier.
pub fn identifier_boundary(s: &[char], offset: usize, length: usize) -> (r: bool)
    requires
        offset + length <= s@.len(),
    ensures
        r == stands_alone(s@, offset as int, length as int),
{
    if offset > 0 && is_word_char(s[offset - 1]) {
        return false;
    }
    let end: usize = offset + length;
    !(end < s.len() && is_word_char(s[end]))
}

/// The first position at or behind `at` that holds no ASCII white space.
pub open spec fn behind_blanks(s: Seq<char>, at: int) -> int
    decreases s.len() - at,
{
    if 0 <= at < s.len() && text::ascii_whitespace(s[at]) {
        behind_blanks(s, at + 1)
    } else {
        at
    }
}

fn skip_blanks(s: &[char], at: usize) -> (r: usize)
    requires
        at <= s@.len(),
    ensures
        r == behind_blanks(s@, at as int),
        at <= r <= s@.len(),
{
    let mut i: usize = at;
    while i < s.len() && (s[i] == '\t' || s[i] == '\n' || s[i] == '\x0c' || s[i] == '\r' || s[i]
        == ' ')
        invariant
            at <= i <= s@.len(),
            behind_blanks(s@, at as int) == behind_blanks(s@, i as int),
        decreases s@.len() - i,
    {
        i += 1;
    }
    i
}

/// Whether a character is a quote.
pub open spec fn quote_char(c: char) -> bool {
    c == '\'' || c == '"'
}

/// The quoted token that follows a key at position `at`: the key's closing
/// quote if any, a colon or equals sign, and the token between equal quotes.
pub open spec fn token_behind(s: Seq<char>, at: int) -> Option<Seq<char>> {
    let a = behind_blanks(s, at);
    let b = behind_blanks(
        s,
        if a < s.len() && quote_char(s[a]) {
            a + 1
        } else {
            a
        },
    );
    if !(b < s.len() && (s[b] == ':' || s[b] == '=')) {
        None
    } else {
        let c = behind_blanks(s, b + 1);
        if !(c < s.len() && quote_char(s[c])) {
            None
        } else {
            match text::find_char(s, s[c], c + 1) {
                None => None,
                Some(end) => {
                    let token = text::trimmed(s.subrange(c + 1, end));
                    if token_ok(token) {
                        Some(token)
                    } else {
                        None
                    }
                },
            }
        }
    }
}

fn read_token(s: &[char], at: usize) -> (r: Option<String>)
    requires
        at <= s@.len(),
    ensures
        r.deep_view() == token_behind(s@, at as int),
{
    let a: usize = skip_blanks(s, at);
    let behind: usize = if a < s.len() && (s[a] == '\'' || s[a] == '"') {
        a + 1
    } else {
        a
    };
    let b: usize = skip_blanks(s, behind);
    if !(b < s.len() && (s[b] == ':' || s[b] == '=')) {
        return None;
    }
    let c: usize = skip_blanks(s, b + 1);
    if !(c < s.len() && (s[c] == '\'' || s[c] == '"')) {
        return None;
    }
    match text::position(s, s[c], c + 1) {
        None => None,
        Some(end) => {
            let token = text::trim(slice_subrange(s, c + 1, end));
            if valid_token(token) {
                Some(text::text_of(token))
            } else {
                None
            }
        },
    }
}

/// The token behind the first occurrence of `key` at or behind `from` that
/// stands alone and has one.
pub open spec fn token_for_key(s: Seq<char>, key: Seq<char>, from: int) -> Option<Seq<char>>
    decreases s.len() - from,
{
    if key.len() == 0 || from < 0 {
        None
    } else {
        match text::find_from(s, key, from) {
            None => None,
            Some(at) => if at < from || at + key.len() > s.len() {
                None
            } else if stands_alone(s, at, key.len() as int) && token_behind(s, at + key.len())
                is Some {
                token_behind(s, at + key.len())
            } else {
                token_for_key(s, key, at + key.len())
            },
        }
    }
}

fn find_token(s: &[char], key: &str) -> (r: Option<String>)
    requires
        key@.len() > 0,
    ensures
        r.deep_view() == token_for_key(s@, key@, 0),
{
    let pattern = text::chars_of(key);
    let length: usize = s.len();
    let mut from: usize = 0;
    loop
        invariant
            length == s@.len(),
            pattern@ == key@,
            key@.len() > 0,
            from <= s@.len(),
            token_for_key(s@, key@, 0) == token_for_key(s@, key@, from as int),
        decreases s@.len() - from,
    {
        proof {
            text::lemma_find_from_bounds(s@, key@, from as int);
        }
        match text::find(s, pattern.as_slice(), from) {
            None => return None,
            Some(at) => {
                let end: usize = at + pattern.len();
                if identifier_boundary(s, at, pattern.len()) {
                    let token = read_token(s, end);
                    if token.is_some() {
                        return token;
                    }
                }
                from = end;
            },
        }
    }
}

/// The security token of a dashboard page.
pub open spec fn page_token(html: Seq<char>) -> Option<Seq<char>> {
    match token_for_key(html, "secToken"@, 0) {
        Some(token) => Some(token),
        None => match token_for_key(html, "sec_token"@, 0) {
            Some(token) => Some(token),
            None => token_for_key(html, "csrfToken"@, 0),
        },
    }
}

/// The security token of a dashboard page.
pub fn extract_html_token(html: &[char]) -> (r: Option<String>)
    ensures
        r.deep_view() == page_token(html@),
{
    proof {
        reveal_strlit("secToken");
        reveal_strlit("sec_token");
        reveal_strlit("csrfToken");
    }
    let first = find_token(html, "secToken");
    if first.is_some() {
        return first;
    }
    let second = find_token(html, "sec_token");
    if second.is_some() {
        return second;
    }
    find_token(html, "csrfToken")
}

/// Every token that is taken from a page is a usable token.
pub proof fn law_page_token_usable(html: Seq<char>)
    ensures
        page_token(html) is Some ==> token_ok(page_token(html)->0),
{
    lemma_key_token_usable(html, "secToken"@, 0);
    lemma_key_token_usable(html, "sec_token"@, 0);
    lemma_key_token_usable(html, "csrfToken"@, 0);
}

proof fn lemma_key_token_usable(s: Seq<char>, key: Seq<char>, from: int)
    ensures
        token_for_key(s, key, from) is Some ==> token_ok(token_for_key(s, key, from)->0),
    decreases s.len() - from,
{
    if key.len() > 0 && from >= 0 {
        match text::find_from(s, key, from) {
            Some(at) => {
                if !(at < from || at + key.len() > s.len()) {
                    lemma_key_token_usable(s, key, at + key.len());
                }
            },
            None => {},
        }
    }
}

/// What came of one probe.
pub enum Probe {
    Response { status: u16, body: Vec<u8> },
    Failed(TransportError),
}

/// The failure of a probe that did not give a response.
pub open spec fn probe_class(e: TransportError) -> ErrorKind {
    match e {
        TransportError::AuthenticationExpired
        | TransportError::PermissionDenied
        | TransportError::Api { .. } => ErrorKind::AuthenticationExpired,
        TransportError::ProviderUnavailable { .. }
        | TransportError::RateLimited { .. }
        | TransportError::RequestTimeout
        | TransportError::Timeout
        | TransportError::Network
        | TransportError::Cancelled => ErrorKind::Network,
        TransportError::ResponseTooLarge
        | TransportError::MalformedResponse
        | TransportError::TooManyRedirects => ErrorKind::Parse,
        TransportError::Endpoint | TransportError::InvalidConfiguration => ErrorKind::Api,
    }
}

/// Classifies a probe that did not give a response.
pub fn classify_probe_transport(e: &TransportError) -> (r: ClassifiedError)
    ensures
        r == error::plain(probe_class(*e)),
{
    ClassifiedError::new(
        match e {
            TransportError::AuthenticationExpired
            | TransportError::PermissionDenied
            | TransportError::Api { .. } => ErrorKind::AuthenticationExpired,
            TransportError::ProviderUnavailable { .. }
            | TransportError::RateLimited { .. }
            | TransportError::RequestTimeout
            | TransportError::Timeout
            | TransportError::Network
            | TransportError::Cancelled => ErrorKind::Network,
            TransportError::ResponseTooLarge
            | TransportError::MalformedResponse
            | TransportError::TooManyRedirects => ErrorKind::Parse,
            TransportError::Endpoint | TransportError::InvalidConfiguration => ErrorKind::Api,
        },
    )
}

/// Classifies a failed data request: a denied one is an expired session.
pub fn classify_api_transport(e: &TransportError) -> (r: ClassifiedError)
    ensures
        r == (if *e is PermissionDenied || *e is AuthenticationExpired {
            error::plain(ErrorKind::AuthenticationExpired)
        } else {
            e.as_class(e.class())
        }),
{
    match e {
        TransportError::PermissionDenied | TransportError::AuthenticationExpired => {
            ClassifiedError::new(ErrorKind::AuthenticationExpired)
        },
        other => other.classified(),
    }
}

/// Classifies a rejected capture.
pub fn classify_capture_error(e: ManualCaptureError) -> (r: ClassifiedError)
    ensures
        r == error::plain(
            if e is MissingSecret {
                ErrorKind::MissingCredential
            } else {
                ErrorKind::Parse
            },
        ),
{
    match e {
        ManualCaptureError::MissingSecret => ClassifiedError::new(ErrorKind::MissingCredential),
        _ => ClassifiedError::new(ErrorKind::Parse),
    }
}

/// What the dashboard probe led to: a token, or the failure to report in case
/// no other token is found.
pub enum DashboardOutcome {
    Token(String),
    Continue(Option<ClassifiedError>),
}

/// The token on the dashboard page of a probe.
pub open spec fn dashboard_token(probe: Probe) -> Option<Seq<char>> {
    match probe {
        Probe::Response { status, body } => if status == 200 && vstd::utf8::valid_utf8(body@)
            && !login_page(vstd::utf8::decode_utf8(body@)) {
            page_token(vstd::utf8::decode_utf8(body@))
        } else {
            None
        },
        Probe::Failed(_) => None,
    }
}

/// The failure that a dashboard probe leaves behind.
pub open spec fn dashboard_failure(probe: Probe) -> Option<ClassifiedError> {
    match probe {
        Probe::Response { status, .. } => if status >= 500 {
            Some(error::plain(ErrorKind::Network))
        } else {
            None
        },
        Probe::Failed(e) => Some(error::plain(probe_class(e))),
    }
}

/// The token after the dashboard probe: from the page, or else from the cookie.
pub open spec fn dashboard_result(probe: Probe, cookie: Seq<char>, host: Option<Seq<char>>) -> Option<
    Seq<char>,
> {
    match dashboard_token(probe) {
        Some(token) => Some(token),
        None => preferred_value(text::pieces(cookie, ';'), "sec_token"@, host, 0, None),
    }
}

/// Decides what the dashboard probe led to.
pub fn after_dashboard(probe: &Probe, cookie: &str, host: Option<&str>) -> (r: DashboardOutcome)
    ensures
        match r {
            DashboardOutcome::Token(token) => dashboard_result(*probe, cookie@, optional_text(host))
                == Some(token@),
            DashboardOutcome::Continue(failure) => dashboard_result(
                *probe,
                cookie@,
                optional_text(host),
            ) is None && failure == dashboard_failure(*probe),
        },
{
    let mut failure: Option<ClassifiedError> = None;
    match probe {
        Probe::Response { status, body } => {
            if *status == 200 {
                if let Some(page) = text::utf8_text(body.as_slice()) {
                    let html = text::chars_of(page.as_str());
                    if !looks_like_login_page(html.as_slice()) {
                        if let Some(token) = extract_html_token(html.as_slice()) {
                            return DashboardOutcome::Token(token);
                        }
                    }
                }
            } else if *status >= 500 {
                failure = Some(ClassifiedError::new(ErrorKind::Network));
            }
        },
        Probe::Failed(e) => {
            failure = Some(classify_probe_transport(e));
        },
    }
    match preferred_cookie_value(cookie, "sec_token", host) {
        Some(token) => DashboardOutcome::Token(token),
        None => DashboardOutcome::Continue(failure),
    }
}

/// The first text under `key` in a document, where it is a usable token.
pub open spec fn user_token_under(root: Tree, key: Seq<char>) -> Option<Seq<char>> {
    match json::first_of(
        json::values_for_key(root, key),
        |v: Tree| qwencloud_usage::string_of(v),
        0,
    ) {
        Some(value) => if token_ok(value) {
            Some(value)
        } else {
            None
        },
        None => None,
    }
}

/// The token of a user-info document.
pub open spec fn user_token(root: Tree) -> Option<Seq<char>> {
    match user_token_under(root, "secToken"@) {
        Some(token) => Some(token),
        None => match user_token_under(root, "sec_token"@) {
            Some(token) => Some(token),
            None => match user_token_under(root, "csrfToken"@) {
                Some(token) => Some(token),
                None => user_token_under(root, "token"@),
            },
        },
    }
}

fn read_user_token(root: &Json, key: &str) -> (r: Option<String>)
    ensures
        r.deep_view() == user_token_under(root.tree(), key@),
{
    match qwencloud_usage::find_first_string_for_key(root, key) {
        Some(value) => {
            let chars = text::chars_of(value.as_str());
            if valid_token(chars.as_slice()) {
                Some(value)
            } else {
                None
            }
        },
        None => None,
    }
}

/// The token or the failure after the user-info probe.
pub open spec fn user_info_result(probe: Probe, pending: Option<ClassifiedError>) -> Result<
    Seq<char>,
    ClassifiedError,
> {
    let otherwise = match pending {
        Some(failure) => failure,
        None => error::plain(ErrorKind::AuthenticationExpired),
    };
    match probe {
        Probe::Failed(e) => Err(error::plain(probe_class(e))),
        Probe::Response { status, body } => if status == 200 {
            match qwencloud::bounded_document(body@) {
                Some(root) => match user_token(root) {
                    Some(token) => Ok(token),
                    None => Err(otherwise),
                },
                None => Err(otherwise),
            }
        } else {
            Err(otherwise)
        },
    }
}

/// Decides what the user-info probe led to.
pub fn after_user_info(probe: &Probe, pending: Option<ClassifiedError>) -> (r: Result<
    String,
    ClassifiedError,
>)
    ensures
        match r {
            Ok(token) => user_info_result(*probe, pending) == Ok::<_, ClassifiedError>(token@),
            Err(e) => user_info_result(*probe, pending) == Err::<Seq<char>, _>(e),
        },
{
    match probe {
        Probe::Failed(e) => return Err(classify_probe_transport(e)),
        Probe::Response { status, body } => {
            if *status == 200 {
                if let Ok(root) = qwencloud::parse_bounded_json(body.as_slice()) {
                    if let Some(token) = read_user_token(&root, "secToken") {
                        return Ok(token);
                    }
                    if let Some(token) = read_user_token(&root, "sec_token") {
                        return Ok(token);
                    }
                    if let Some(token) = read_user_token(&root, "csrfToken") {
                        return Ok(token);
                    }
                    if let Some(token) = read_user_token(&root, "token") {
                        return Ok(token);
                    }
                }
            }
        },
    }
    Err(no_token(pending))
}

/// The failure when no probe gave a token.
pub fn no_token(pending: Option<ClassifiedError>) -> (r: ClassifiedError)
    ensures
        r == (match pending {
            Some(failure) => failure,
            None => error::plain(ErrorKind::AuthenticationExpired),
        }),
{
    match pending {
        Some(failure) => failure,
        None => ClassifiedError::new(ErrorKind::AuthenticationExpired),
    }
}

/// The SHA-256 digest of some bytes.
pub uninterp spec fn sha256(bytes: Seq<u8>) -> Seq<u8>;

/// `sha2::Sha256::digest`, which always gives 32 bytes. The digest is named
/// `sha256`.
#[verifier::external_body]
pub(crate) fn digest(bytes: &[u8]) -> (r: Vec<u8>)
    ensures
        r@ == sha256(bytes@),
        r@.len() == 32,
{
    <sha2::Sha256 as sha2::Digest>::digest(bytes).to_vec()
}

/// The lower-case hexadecimal digit of a number below sixteen.
pub open spec fn hex_digit(n: int) -> char {
    if n < 10 {
        ((0x30 + n) as u32) as char
    } else {
        ((0x57 + n) as u32) as char
    }
}

fn to_hex_digit(n: u8) -> (r: char)
    requires
        n < 16,
    ensures
        r == hex_digit(n as int),
{
    if n < 10 {
        (0x30 + n) as char
    } else {
        (0x57 + n) as char
    }
}

/// The bytes of a digest with the version and variant bits of a random UUID.
pub open spec fn uuid_bytes(bytes: Seq<u8>) -> Seq<u8> {
    bytes.take(16).update(6, (bytes[6] & 0x0f) | 0x40).update(8, (bytes[8] & 0x3f) | 0x80)
}

/// The first `n` bytes in hexadecimal, with hyphens before the bytes at
/// positions four, six, eight and ten.
pub open spec fn hyphenated(bytes: Seq<u8>, n: int) -> Seq<char>
    decreases n,
{
    if n <= 0 {
        seq![]
    } else {
        let before = hyphenated(bytes, n - 1);
        let at = n - 1;
        let start = if at == 4 || at == 6 || at == 8 || at == 10 {
            before.push('-')
        } else {
            before
        };
        start.push(hex_digit(bytes[at] as int / 16)).push(hex_digit(bytes[at] as int % 16))
    }
}

/// The trace identifier of a request.
pub open spec fn trace_text(seconds: i64, sequence: u64) -> Seq<char> {
    hyphenated(
        uuid_bytes(
            sha256(
                vstd::bytes::spec_u64_to_le_bytes(seconds as u64)
                    + vstd::bytes::spec_u64_to_le_bytes(sequence),
            ),
        ),
        16,
    )
}

/// The trace identifier of the request with this sequence number, made at
/// `seconds` since the epoch.
pub fn trace_id(seconds: i64, sequence: u64) -> (r: String)
    ensures
        r@ == trace_text(seconds, sequence),
{
    let mut bytes = vstd::bytes::u64_to_le_bytes(seconds as u64);
    let mut more = vstd::bytes::u64_to_le_bytes(sequence);
    bytes.append(&mut more);
    let full = digest(bytes.as_slice());
    let ghost whole = full@;
    let mut short: Vec<u8> = Vec::new();
    let mut k: usize = 0;
    while k < 16
        invariant
            k <= 16,
            full@.len() == 32,
            short@ == full@.take(k as int),
        decreases 16 - k,
    {
        short.push(full[k]);
        k += 1;
    }
    let sixth: u8 = (full[6] & 0x0f) | 0x40;
    let eighth: u8 = (full[8] & 0x3f) | 0x80;
    short.set(6, sixth);
    short.set(8, eighth);
    let mut r = String::new();
    let mut i: usize = 0;
    while i < 16
        invariant
            i <= 16,
            short@.len() == 16,
            r@ == hyphenated(short@, i as int),
        decreases 16 - i,
    {
        if i == 4 || i == 6 || i == 8 || i == 10 {
            r.push('-');
        }
        r.push(to_hex_digit(short[i] / 16));
        r.push(to_hex_digit(short[i] % 16));
        i += 1;
    }
    r
}

/// Fixed dashboard and data-gateway routes.
pub struct QwenCloudRouteSet {
    pub dashboard: String,
    pub user_info: String,
    pub usage: String,
    pub subscription: String,
    pub quota_config: String,
    pub class: EndpointClass,
}

/// Query of a data-gateway call.
pub open spec fn api_query(api: Seq<char>) -> Seq<(Seq<char>, Seq<char>)> {
    seq![
        ("action"@, "IntlBroadScopeAspnGateway"@),
        ("product"@, "sfm_bailian"@),
        ("api"@, api),
        ("_v"@, "undefined"@),
    ]
}

/// URL of a data-gateway call.
pub open spec fn api_url_of(origin: Seq<char>, api: Seq<char>) -> Option<Seq<char>> {
    urls::url_with_pairs(urls::url_at_path(origin, "/data/api.json"@), api_query(api))
}

fn api_url(origin: &str, api: &str) -> (r: Option<String>)
    ensures
        r.deep_view() == api_url_of(origin@, api@),
{
    let url = match urls::with_path(origin, "/data/api.json") {
        Some(url) => url,
        None => return None,
    };
    let pairs: Vec<(String, String)> = vec![
        ("action".to_owned(), "IntlBroadScopeAspnGateway".to_owned()),
        ("product".to_owned(), "sfm_bailian".to_owned()),
        ("api".to_owned(), api.to_owned()),
        ("_v".to_owned(), "undefined".to_owned()),
    ];
    assert(pairs.deep_view() =~= api_query(api@));
    urls::extend_pairs(url.as_str(), &pairs)
}

/// Whether the two origins may be used under a class: bare origins that the
/// endpoint policy accepts, the service's own ones for public use, and no class
/// but public and loopback.
pub open spec fn origins_ok(
    dashboard: UrlView,
    data: UrlView,
    class: EndpointClass,
    dashboard_allowed: bool,
    data_allowed: bool,
) -> bool {
    &&& urls::bare(dashboard)
    &&& urls::bare(data)
    &&& dashboard_allowed
    &&& data_allowed
    &&& match class {
        EndpointClass::PublicHttps => dashboard.origin == "https://home.qwencloud.com"@
            && data.origin == "https://cs-data.qwencloud.com"@,
        EndpointClass::LoopbackDevelopment => true,
        _ => false,
    }
}

/// Whether a route set holds the routes below the two origins.
pub open spec fn routes_below(r: QwenCloudRouteSet, dashboard: Seq<char>, data: Seq<char>) -> bool {
    &&& urls::url_at_path(dashboard, "/billing/subscription/token-plan-individual"@) == Some(
        r.dashboard@,
    )
    &&& urls::url_at_path(dashboard, "/tool/user/info.json"@) == Some(r.user_info@)
    &&& api_url_of(data, "zeldaHttp.apikeyMgr./tokenplan/personal/api/v2/usage"@) == Some(r.usage@)
    &&& api_url_of(data, "zeldaHttp.apikeyMgr./tokenplan/personal/api/v2/subscription"@) == Some(
        r.subscription@,
    )
    &&& api_url_of(data, "zeldaHttp.apikeyMgr./tokenplan/personal/api/v2/quota-config"@) == Some(
        r.quota_config@,
    )
}

/// Whether every route below the two origins is a URL.
pub open spec fn routes_exist(dashboard: Seq<char>, data: Seq<char>) -> bool {
    &&& urls::url_at_path(dashboard, "/billing/subscription/token-plan-individual"@) is Some
    &&& urls::url_at_path(dashboard, "/tool/user/info.json"@) is Some
    &&& api_url_of(data, "zeldaHttp.apikeyMgr./tokenplan/personal/api/v2/usage"@) is Some
    &&& api_url_of(data, "zeldaHttp.apikeyMgr./tokenplan/personal/api/v2/subscription"@) is Some
    &&& api_url_of(data, "zeldaHttp.apikeyMgr./tokenplan/personal/api/v2/quota-config"@) is Some
}

impl QwenCloudRouteSet {
    /// Routes below two origins. `dashboard_allowed` and `data_allowed` are the
    /// verdicts of the endpoint policy on them.
    pub fn from_origins(
        dashboard: &UrlParts,
        data: &UrlParts,
        class: EndpointClass,
        dashboard_allowed: bool,
        data_allowed: bool,
    ) -> (r: Result<QwenCloudRouteSet, ClassifiedError>)
        ensures
            match r {
                Ok(routes) => origins_ok(
                    dashboard.value(),
                    data.value(),
                    class,
                    dashboard_allowed,
                    data_allowed,
                ) && routes_below(routes, dashboard.href@, data.href@) && routes.class == class,
                Err(e) => !(origins_ok(
                    dashboard.value(),
                    data.value(),
                    class,
                    dashboard_allowed,
                    data_allowed,
                ) && routes_exist(dashboard.href@, data.href@)) && e == error::plain(
                    ErrorKind::Api,
                ),
            },
    {
        if !urls::is_bare_origin(dashboard) || !urls::is_bare_origin(data) || !dashboard_allowed
            || !data_allowed {
            return Err(ClassifiedError::new(ErrorKind::Api));
        }
        match class {
            EndpointClass::PublicHttps => {
                if !text::same_text(dashboard.origin.as_str(), "https://home.qwencloud.com")
                    || !text::same_text(data.origin.as_str(), "https://cs-data.qwencloud.com") {
                    return Err(ClassifiedError::new(ErrorKind::Api));
                }
            },
            EndpointClass::LoopbackDevelopment => {},
            _ => return Err(ClassifiedError::new(ErrorKind::Api)),
        }
        let page = urls::with_path(
            dashboard.href.as_str(),
            "/billing/subscription/token-plan-individual",
        );
        let user_info = urls::with_path(dashboard.href.as_str(), "/tool/user/info.json");
        let usage = api_url(
            data.href.as_str(),
            "zeldaHttp.apikeyMgr./tokenplan/personal/api/v2/usage",
        );
        let subscription = api_url(
            data.href.as_str(),
            "zeldaHttp.apikeyMgr./tokenplan/personal/api/v2/subscription",
        );
        let quota_config = api_url(
            data.href.as_str(),
            "zeldaHttp.apikeyMgr./tokenplan/personal/api/v2/quota-config",
        );
        match (page, user_info, usage, subscription, quota_config) {
            (Some(page), Some(user_info), Some(usage), Some(subscription), Some(quota_config)) => Ok(
                QwenCloudRouteSet {
                    dashboard: page,
                    user_info,
                    usage,
                    subscription,
                    quota_config,
                    class,
                },
            ),
            _ => Err(ClassifiedError::new(ErrorKind::Api)),
        }
    }
}

/// Cookie headers of one session.
pub struct SessionHeaders {
    pub dashboard: Option<String>,
    pub user_info: Option<String>,
    pub api: String,
}

/// Whether a text can be sent as the session's cookie header.
pub open spec fn cookie_header_ok(cookie: Seq<char>) -> bool {
    text::byte_len(cookie) <= MAX_COOKIE_HEADER_BYTES && transport::secret_ok(cookie)
}

/// Checks that a text can be sent as the session's cookie header.
pub fn validate_cookie_header(cookie: &str) -> (r: Result<(), ClassifiedError>)
    ensures
        match r {
            Ok(_) => cookie_header_ok(cookie@),
            Err(e) => !cookie_header_ok(cookie@) && e == error::plain(ErrorKind::Api),
        },
{
    if cookie.len() > MAX_COOKIE_HEADER_BYTES {
        return Err(ClassifiedError::new(ErrorKind::Api));
    }
    match Authentication::cookie(cookie.to_owned()) {
        Ok(_) => Ok(()),
        Err(_) => Err(ClassifiedError::new(ErrorKind::Api)),
    }
}

/// Whether an optional cookie header can be sent.
pub open spec fn optional_cookie_ok(cookie: Option<Seq<char>>) -> bool {
    cookie is Some ==> cookie_header_ok(cookie->0)
}

/// Whether a cookie header holds an authentication ticket.
pub open spec fn holds_ticket(header: Seq<char>) -> bool {
    exists|i: int|
        0 <= i < text::pieces(header, ';').len() && ticket(#[trigger] text::pieces(header, ';')[i])
}

/// The failure of a browser session; `None` where it can be used.
pub open spec fn browser_failure(
    dashboard: Option<Seq<char>>,
    user_info: Option<Seq<char>>,
    api: Option<Seq<char>>,
    jar_empty: bool,
) -> Option<ErrorKind> {
    if !optional_cookie_ok(dashboard) || !optional_cookie_ok(user_info) || !optional_cookie_ok(api)
    {
        Some(ErrorKind::Api)
    } else if api is None || !holds_ticket(api->0) || dashboard is None {
        Some(
            if jar_empty {
                ErrorKind::MissingCredential
            } else {
                ErrorKind::AuthenticationExpired
            },
        )
    } else {
        None
    }
}

fn optional_cookie_sendable(cookie: &Option<String>) -> (r: bool)
    ensures
        r == optional_cookie_ok(cookie.deep_view()),
{
    match cookie {
        Some(value) => validate_cookie_header(value.as_str()).is_ok(),
        None => true,
    }
}

impl SessionHeaders {
    /// One cookie header for every request.
    pub fn manual(cookie: &str) -> (r: Result<SessionHeaders, ClassifiedError>)
        ensures
            match r {
                Ok(headers) => cookie_header_ok(cookie@) && headers.dashboard.deep_view() == Some(
                    cookie@,
                ) && headers.user_info.deep_view() == Some(cookie@) && headers.api@ == cookie@,
                Err(e) => !cookie_header_ok(cookie@) && e == error::plain(ErrorKind::Api),
            },
    {
        match validate_cookie_header(cookie) {
            Ok(_) => Ok(
                SessionHeaders {
                    dashboard: Some(cookie.to_owned()),
                    user_info: Some(cookie.to_owned()),
                    api: cookie.to_owned(),
                },
            ),
            Err(e) => Err(e),
        }
    }

    /// The cookie headers that a browser's jar gives for each route.
    pub fn browser(
        dashboard: Option<String>,
        user_info: Option<String>,
        api: Option<String>,
        jar_empty: bool,
    ) -> (r: Result<SessionHeaders, ClassifiedError>)
        ensures
            ({
                let failure = browser_failure(
                    dashboard.deep_view(),
                    user_info.deep_view(),
                    api.deep_view(),
                    jar_empty,
                );
                match r {
                    Ok(headers) => failure is None && headers.dashboard.deep_view()
                        == dashboard.deep_view() && headers.user_info.deep_view()
                        == user_info.deep_view() && Some(headers.api@) == api.deep_view(),
                    Err(e) => failure is Some && e == error::plain(failure->0),
                }
            }),
    {
        if !optional_cookie_sendable(&dashboard) || !optional_cookie_sendable(&user_info)
            || !optional_cookie_sendable(&api) {
            return Err(ClassifiedError::new(ErrorKind::Api));
        }
        let absent = ClassifiedError::new(
            if jar_empty {
                ErrorKind::MissingCredential
            } else {
                ErrorKind::AuthenticationExpired
            },
        );
        match api {
            None => Err(absent),
            Some(header) => {
                if !has_qwen_auth_ticket(header.as_str()) || dashboard.is_none() {
                    return Err(absent);
                }
                Ok(SessionHeaders { dashboard, user_info, api: header })
            },
        }
    }
}

/// Whether a provider and a source belong to this adapter.
pub fn accepts_scope(provider: ProviderId, source: ProviderSource) -> (r: Result<
    (),
    ClassifiedError,
>)
    ensures
        match r {
            Ok(_) => provider == ProviderId::QwenCloud && (source == ProviderSource::ManualCookie
                || source == ProviderSource::BrowserSession),
            Err(e) => !(provider == ProviderId::QwenCloud && (source
                == ProviderSource::ManualCookie || source == ProviderSource::BrowserSession)) && e
                == error::plain(ErrorKind::Api),
        },
{
    if provider != ProviderId::QwenCloud || !(source == ProviderSource::ManualCookie || source
        == ProviderSource::BrowserSession) {
        return Err(ClassifiedError::new(ErrorKind::Api));
    }
    Ok(())
}

/// The body of a data response, or the failure of its status.
pub fn api_body(status: u16, body: Vec<u8>) -> (r: Result<Vec<u8>, TransportError>)
    ensures
        r == (if status == 200 {
            Ok::<Vec<u8>, TransportError>(body)
        } else {
            Err(TransportError::Api { status })
        }),
{
    if status != 200 {
        return Err(TransportError::Api { status });
    }
    Ok(body)
}

/// An optional response: a failure other than cancellation leaves it out.
pub fn optional_body(result: Result<Vec<u8>, TransportError>) -> (r: Result<
    Option<Vec<u8>>,
    ClassifiedError,
>)
    ensures
        r == (match result {
            Ok(body) => Ok::<Option<Vec<u8>>, ClassifiedError>(Some(body)),
            Err(TransportError::Cancelled) => Err(error::plain(ErrorKind::Network)),
            Err(_) => Ok(None),
        }),
{
    match result {
        Ok(body) => Ok(Some(body)),
        Err(TransportError::Cancelled) => Err(ClassifiedError::new(ErrorKind::Network)),
        Err(_) => Ok(None),
    }
}

/// What a request body tells of the session that sends it.
pub struct Cornerstone {
    pub trace_id: String,
    pub dashboard: String,
    pub dashboard_host: Option<String>,
    pub anonymous_id: Option<String>,
}

/// The page-context object of a request.
pub open spec fn cornerstone_tree(c: Cornerstone) -> Tree {
    let host = match c.dashboard_host {
        Some(host) => host@,
        None => "home.qwencloud.com"@,
    };
    let names = seq![
        "console"@,
        "consoleSite"@,
        "domain"@,
        "feTraceId"@,
        "feURL"@,
        "productCode"@,
        "protocol"@,
        "userNickName"@,
        "userPrincipalName"@,
        "xsp_lang"@,
    ];
    let values = seq![
        Tree::Text("ONE_CONSOLE"@),
        Tree::Text("QWENCLOUD"@),
        Tree::Text(host),
        Tree::Text(c.trace_id@),
        Tree::Text(c.dashboard@),
        Tree::Text("p_efm"@),
        Tree::Text("V2"@),
        Tree::Text(""@),
        Tree::Text(""@),
        Tree::Text("en-US"@),
    ];
    match c.anonymous_id {
        Some(id) => Tree::Object(seq!["X-Anonymous-Id"@] + names, seq![Tree::Text(id@)] + values),
        None => Tree::Object(names, values),
    }
}

/// The parameters of a request.
pub open spec fn params_tree(
    api: Seq<char>,
    parameter: Option<(Seq<char>, Seq<char>)>,
    c: Cornerstone,
) -> Tree {
    let data = match parameter {
        Some((name, value)) => Tree::Object(
            seq![name, "cornerstoneParam"@],
            seq![Tree::Text(value), cornerstone_tree(c)],
        ),
        None => Tree::Object(seq!["cornerstoneParam"@], seq![cornerstone_tree(c)]),
    };
    Tree::Object(
        seq!["Api"@, "Data"@, "V"@],
        seq![Tree::Text(api), data, Tree::Text("1.0"@)],
    )
}

/// The form of a request.
pub open spec fn request_form(
    api: Seq<char>,
    parameter: Option<(Seq<char>, Seq<char>)>,
    token: Seq<char>,
    c: Cornerstone,
) -> Seq<(Seq<char>, Seq<char>)> {
    seq![
        ("product"@, "sfm_bailian"@),
        ("action"@, "IntlBroadScopeAspnGateway"@),
        ("sec_token"@, token),
        ("region"@, "ap-southeast-1"@),
        ("language"@, "en-US"@),
        ("params"@, json::rendered(params_tree(api, parameter, c))),
    ]
}

fn cornerstone(c: &Cornerstone) -> (r: Json)
    ensures
        r.tree() == cornerstone_tree(*c),
{
    let mut fields: Vec<(String, Json)> = Vec::new();
    if let Some(id) = &c.anonymous_id {
        fields.push(("X-Anonymous-Id".to_owned(), json::owned_text(id.as_str())));
    }
    fields.push(("console".to_owned(), json::owned_text("ONE_CONSOLE")));
    fields.push(("consoleSite".to_owned(), json::owned_text("QWENCLOUD")));
    let host = match &c.dashboard_host {
        Some(host) => host.as_str(),
        None => "home.qwencloud.com",
    };
    fields.push(("domain".to_owned(), json::owned_text(host)));
    fields.push(("feTraceId".to_owned(), json::owned_text(c.trace_id.as_str())));
    fields.push(("feURL".to_owned(), json::owned_text(c.dashboard.as_str())));
    fields.push(("productCode".to_owned(), json::owned_text("p_efm")));
    fields.push(("protocol".to_owned(), json::owned_text("V2")));
    fields.push(("userNickName".to_owned(), json::owned_text("")));
    fields.push(("userPrincipalName".to_owned(), json::owned_text("")));
    fields.push(("xsp_lang".to_owned(), json::owned_text("en-US")));
    let r = Json::Object(fields);
    assert(json::keys(r.tree()) =~= json::keys(cornerstone_tree(*c)));
    assert(json::children(r.tree()) =~= json::children(cornerstone_tree(*c)));
    r
}

/// The body of a data request; a security token that cannot be one fails.
pub fn api_request_body(
    api: &str,
    parameter: Option<(&str, &str)>,
    token: &str,
    c: &Cornerstone,
) -> (r: Result<Vec<u8>, TransportError>)
    ensures
        match r {
            Ok(body) => token_ok(token@) && body@ == vstd::utf8::encode_utf8(
                urls::form_encoded(request_form(api@, parameter_view(parameter), token@, *c)),
            ),
            Err(e) => !token_ok(token@) && e == TransportError::InvalidConfiguration,
        },
{
    let chars = text::chars_of(token);
    if !valid_token(chars.as_slice()) {
        return Err(TransportError::InvalidConfiguration);
    }
    let mut data: Vec<(String, Json)> = Vec::new();
    if let Some((name, value)) = parameter {
        data.push((name.to_owned(), json::owned_text(value)));
    }
    data.push(("cornerstoneParam".to_owned(), cornerstone(c)));
    let data_object = Json::Object(data);
    let ghost whole = params_tree(api@, parameter_view(parameter), *c);
    let ghost data_tree = json::children(whole)[1];
    assert(json::keys(data_object.tree()) =~= json::keys(data_tree));
    assert(json::children(data_object.tree()) =~= json::children(data_tree));
    let params = Json::Object(
        vec![
            ("Api".to_owned(), json::owned_text(api)),
            ("Data".to_owned(), data_object),
            ("V".to_owned(), json::owned_text("1.0")),
        ],
    );
    assert(json::keys(params.tree()) =~= json::keys(whole));
    assert(json::children(params.tree()) =~= json::children(whole));
    let rendered = json::render(&params);
    let form: Vec<(String, String)> = vec![
        ("product".to_owned(), "sfm_bailian".to_owned()),
        ("action".to_owned(), "IntlBroadScopeAspnGateway".to_owned()),
        ("sec_token".to_owned(), token.to_owned()),
        ("region".to_owned(), "ap-southeast-1".to_owned()),
        ("language".to_owned(), "en-US".to_owned()),
        ("params".to_owned(), rendered),
    ];
    assert(form.deep_view() =~= request_form(api@, parameter_view(parameter), token@, *c));
    let encoded = urls::form_encode(&form);
    Ok(encoded.as_str().as_bytes_vec())
}

/// Name and value of an optional parameter.
pub open spec fn parameter_view(parameter: Option<(&str, &str)>) -> Option<
    (Seq<char>, Seq<char>),
> {
    match parameter {
        Some((name, value)) => Some((name@, value@)),
        None => None,
    }
}

/// Ceilings of this adapter's transport.
pub fn transport_config() -> (r: Result<TransportConfig, ClassifiedError>)
    ensures
        r == Ok::<TransportConfig, ClassifiedError>(
            transport::ceilings(10, 30, qwencloud::MAX_RESPONSE_BYTES, 0, retry::no_retry()),
        ),
        r->Ok_0.valid(),
{
    transport::bounded(10, 30, qwencloud::MAX_RESPONSE_BYTES, 0, RetryPolicy::none())
}

proof fn lemma_header_names()
    ensures
        transport::metadata_name("origin"@),
        transport::metadata_name("referer"@),
        transport::metadata_name("x-requested-with"@),
        transport::metadata_name("x-xsrf-token"@),
        transport::metadata_name("x-csrf-token"@),
        "origin"@.len() == 6,
        "referer"@.len() == 7,
        "x-requested-with"@.len() == 16,
        "x-xsrf-token"@.len() == 12,
        "x-csrf-token"@.len() == 12,
        "x-xsrf-token"@[2] == 'x',
        "x-csrf-token"@[2] == 'c',
{
    transport::reveal_reserved();
    reveal_strlit("origin");
    reveal_strlit("referer");
    reveal_strlit("x-requested-with");
    reveal_strlit("x-xsrf-token");
    reveal_strlit("x-csrf-token");
    assert(text::lower("origin"@) =~= "origin"@);
    assert(text::lower("referer"@) =~= "referer"@);
    assert(text::lower("x-requested-with"@) =~= "x-requested-with"@);
    assert(text::lower("x-xsrf-token"@) =~= "x-xsrf-token"@);
    assert(text::lower("x-csrf-token"@) =~= "x-csrf-token"@);
}

/// The forgery-protection token of a cookie header.
pub open spec fn csrf_of(cookie: Seq<char>) -> Option<Seq<char>> {
    match first_value(text::pieces(cookie, ';'), "login_aliyunid_csrf"@, 0) {
        Some(token) => Some(token),
        None => first_value(text::pieces(cookie, ';'), "csrf"@, 0),
    }
}

/// Whether a text can be the value of a public header.
pub open spec fn public_value_ok(value: Seq<char>) -> bool {
    text::byte_len(value) <= transport::MAX_PUBLIC_HEADER_VALUE_BYTES && transport::header_value_ok(
        value,
    )
}

/// Whether a data request can be built.
pub open spec fn api_request_ok(
    body: Seq<u8>,
    origin: Seq<char>,
    dashboard: Seq<char>,
    cookie: Seq<char>,
) -> bool {
    &&& body.len() <= transport::MAX_REQUEST_BODY_BYTES
    &&& public_value_ok(origin)
    &&& public_value_ok(dashboard)
    &&& transport::secret_ok(cookie)
}

/// Whether a request is the data request of a session.
pub open spec fn is_api_request(
    q: HttpRequest,
    url: Seq<char>,
    body: Seq<u8>,
    origin: Seq<char>,
    dashboard: Seq<char>,
    cookie: Seq<char>,
) -> bool {
    &&& q.method == Method::Post
    &&& q.url@ == url
    &&& q.body@ == body
    &&& q.accept == Some(RequestAccept::Json)
    &&& q.content_type == Some(RequestContentType::FormUrlEncoded)
    &&& q.accepted_statuses@.len() == 0
    &&& q.response_headers@.len() == 0
    &&& q.public_headers.deep_view() == seq![
        ("origin"@, origin),
        ("referer"@, dashboard),
        ("x-requested-with"@, "XMLHttpRequest"@),
    ]
    &&& q.sensitive_headers.deep_view() == (match csrf_of(cookie) {
        Some(token) => seq![("x-xsrf-token"@, token), ("x-csrf-token"@, token)],
        None => seq![],
    })
    &&& q.authentication is Some
    &&& q.authentication->0.header_view() == ("cookie"@, cookie)
}

/// A cookie value that is a usable token can be sent as a secret header.
proof fn lemma_token_sendable(token: Seq<char>)
    requires
        token_ok(token),
    ensures
        transport::secret_ok(token),
        text::byte_len(token) <= transport::MAX_PUBLIC_HEADER_VALUE_BYTES,
{
    if token.contains('\r') {
        let i = choose|i: int| 0 <= i < token.len() && token[i] == '\r';
        assert(text::control(token[i]));
    }
    if token.contains('\n') {
        let i = choose|i: int| 0 <= i < token.len() && token[i] == '\n';
        assert(text::control(token[i]));
    }
}

proof fn lemma_first_value_usable(parts: Seq<Seq<char>>, expected: Seq<char>, from: int)
    ensures
        first_value(parts, expected, from) is Some ==> token_ok(
            first_value(parts, expected, from)->0,
        ),
    decreases parts.len() - from,
{
    if 0 <= from < parts.len() {
        lemma_first_value_usable(parts, expected, from + 1);
    }
}

/// Builds the data request of a session.
pub fn api_request(
    url: &str,
    body: Vec<u8>,
    origin: &str,
    dashboard: &str,
    cookie: &str,
) -> (r: Result<HttpRequest, TransportError>)
    ensures
        match r {
            Ok(q) => api_request_ok(body@, origin@, dashboard@, cookie@) && is_api_request(
                q,
                url@,
                body@,
                origin@,
                dashboard@,
                cookie@,
            ) && q.wf(),
            Err(e) => !api_request_ok(body@, origin@, dashboard@, cookie@) && e
                == TransportError::InvalidConfiguration,
        },
{
    proof {
        lemma_header_names();
        lemma_first_value_usable(text::pieces(cookie@, ';'), "login_aliyunid_csrf"@, 0);
        lemma_first_value_usable(text::pieces(cookie@, ';'), "csrf"@, 0);
        reveal_strlit("XMLHttpRequest");
        vstd::utf8::is_ascii_chars_encode_utf8("XMLHttpRequest"@);
    }
    let base = match HttpRequest::post(url.to_owned(), body) {
        Ok(base) => base.accept(RequestAccept::Json).content_type(
            RequestContentType::FormUrlEncoded,
        ),
        Err(e) => return Err(e),
    };
    assert(base.public_headers.deep_view() =~= seq![]);
    assert(base.sensitive_headers.deep_view() =~= seq![]);
    let first = match base.public_header("origin", origin) {
        Ok(q) => q,
        Err(e) => return Err(e),
    };
    assert(first.public_headers.deep_view() =~= seq![("origin"@, origin@)]);
    let second = match first.public_header("referer", dashboard) {
        Ok(q) => q,
        Err(e) => return Err(e),
    };
    assert(second.public_headers.deep_view() =~= seq![
        ("origin"@, origin@),
        ("referer"@, dashboard@),
    ]);
    let third = match second.public_header("x-requested-with", "XMLHttpRequest") {
        Ok(q) => q,
        Err(e) => return Err(e),
    };
    assert(third.public_headers.deep_view() =~= seq![
        ("origin"@, origin@),
        ("referer"@, dashboard@),
        ("x-requested-with"@, "XMLHttpRequest"@),
    ]);
    let mut request = match Authentication::cookie(cookie.to_owned()) {
        Ok(authentication) => third.authentication(authentication),
        Err(e) => return Err(e),
    };
    let csrf = match cookie_value(cookie, "login_aliyunid_csrf") {
        Some(token) => Some(token),
        None => cookie_value(cookie, "csrf"),
    };
    if let Some(token) = csrf {
        proof {
            lemma_token_sendable(token@);
        }
        request = match request.sensitive_header("x-xsrf-token", token.clone()) {
            Ok(q) => q,
            Err(e) => return Err(e),
        };
        assert(request.sensitive_headers.deep_view() =~= seq![("x-xsrf-token"@, token@)]);
        request = match request.sensitive_header("x-csrf-token", token) {
            Ok(q) => q,
            Err(e) => return Err(e),
        };
        assert(request.sensitive_headers.deep_view() =~= seq![
            ("x-xsrf-token"@, token@),
            ("x-csrf-token"@, token@),
        ]);
    }
    Ok(request)
}

/// The statuses that a probe accepts.
pub open spec fn probe_statuses() -> Seq<u16> {
    seq![400, 401, 403, 404, 408, 409, 422, 429, 500, 502, 503, 504]
}

/// Builds a probe of the session.
pub fn probe_request(url: &str, cookie: &str, accept: RequestAccept) -> (r: Result<
    HttpRequest,
    TransportError,
>)
    ensures
        match r {
            Ok(q) => transport::secret_ok(cookie@) && q.method == Method::Get && q.url@ == url@
                && q.body@.len() == 0 && q.accept == Some(accept) && q.content_type is None
                && q.accepted_statuses@ == probe_statuses() && q.public_headers@.len() == 0
                && q.sensitive_headers@.len() == 0 && q.response_headers@.len() == 0
                && q.authentication is Some && q.authentication->0.header_view() == (
                "cookie"@,
                cookie@,
            ) && q.wf(),
            Err(e) => !transport::secret_ok(cookie@) && e == TransportError::InvalidConfiguration,
        },
{
    let statuses: Vec<u16> = vec![400, 401, 403, 404, 408, 409, 422, 429, 500, 502, 503, 504];
    assert(statuses@ =~= probe_statuses());
    assert(transport::statuses_ok(statuses@));
    match HttpRequest::get(url.to_owned()).accept(accept).accepted_statuses(statuses.as_slice()) {
        Err(e) => Err(e),
        Ok(q) => match Authentication::cookie(cookie.to_owned()) {
            Ok(authentication) => Ok(q.authentication(authentication)),
            Err(e) => Err(e),
        },
    }
}

/// Of several cookies of a name, the first that holds the host is preferred, and
/// otherwise the last.
pub proof fn law_cookies_of_the_host_are_preferred(
    parts: Seq<Seq<char>>,
    expected: Seq<char>,
    host: Seq<char>,
    from: int,
    fallback: Option<Seq<char>>,
)
    requires
        0 <= from <= parts.len(),
    ensures
        ({
            let found = preferred_value(parts, expected, Some(host), from, fallback);
            &&& (exists|i: int|
                from <= i < parts.len() && #[trigger] of_host(parts[i], expected, host)) ==> exists|
                i: int,
            |
                from <= i < parts.len() && #[trigger] of_host(parts[i], expected, host)
                    && found == value_under(parts[i], expected) && forall|j: int|
                    from <= j < i ==> !(#[trigger] of_host(parts[j], expected, host))
            &&& !(exists|i: int|
                from <= i < parts.len() && #[trigger] of_host(parts[i], expected, host)) ==> found
                == last_value(parts, expected, from, fallback)
        }),
    decreases parts.len() - from,
{
    if from < parts.len() {
        let next = match value_under(parts[from], expected) {
            Some(value) => Some(value),
            None => fallback,
        };
        law_cookies_of_the_host_are_preferred(parts, expected, host, from + 1, next);
        if of_host(parts[from], expected, host) {
            assert(of_host(parts[from], expected, host));
        } else if exists|i: int|
            from <= i < parts.len() && #[trigger] of_host(parts[i], expected, host) {
            let i = choose|i: int|
                from <= i < parts.len() && #[trigger] of_host(parts[i], expected, host);
            assert(from + 1 <= i && of_host(parts[i], expected, host));
            let k = choose|k: int|
                from + 1 <= k < parts.len() && #[trigger] of_host(parts[k], expected, host)
                    && preferred_value(parts, expected, Some(host), from + 1, next) == value_under(
                    parts[k],
                    expected,
                ) && forall|j: int|
                    from + 1 <= j < k ==> !(#[trigger] of_host(parts[j], expected, host));
            assert(of_host(parts[k], expected, host));
        }
    }
}

/// Whether a cookie of a name holds a host.
pub open spec fn of_host(part: Seq<char>, expected: Seq<char>, host: Seq<char>) -> bool {
    value_under(part, expected) matches Some(value) && text::contains(value, host)
}

/// The last cookie of a name at or behind `from`.
pub open spec fn last_value(
    parts: Seq<Seq<char>>,
    expected: Seq<char>,
    from: int,
    fallback: Option<Seq<char>>,
) -> Option<Seq<char>>
    decreases parts.len() - from,
{
    if from < 0 || from >= parts.len() {
        fallback
    } else if value_under(parts[from], expected) is Some {
        last_value(parts, expected, from + 1, value_under(parts[from], expected))
    } else {
        last_value(parts, expected, from + 1, fallback)
    }
}

/// A refused probe tells of an expired session, a lost one of the network; a dashboard
/// fails where its server does.
pub proof fn law_probes_tell_their_failure(e: TransportError, probe: Probe)
    ensures
        e is AuthenticationExpired || e is PermissionDenied ==> probe_class(e)
            == ErrorKind::AuthenticationExpired,
        e.retryable() ==> probe_class(e) == ErrorKind::Network,
        probe matches Probe::Response { status, .. } ==> (dashboard_failure(probe) is Some <==> status
            >= 500),
        probe is Failed ==> dashboard_failure(probe) is Some,
{
}

/// A hexadecimal digit reads back as its number.
pub proof fn law_hex_digits_count(n: int)
    requires
        0 <= n < 16,
    ensures
        n < 10 ==> hex_digit(n) as u32 == '0' as u32 + n,
        n >= 10 ==> hex_digit(n) as u32 == 'a' as u32 + (n - 10),
{
}

} // verus!
