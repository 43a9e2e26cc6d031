//! ZoomMate routes, credentials and requests.

use vstd::prelude::*;
use vstd::slice::slice_subrange;

use crate::encoding;
use crate::error;
use crate::error::{ClassifiedError, ErrorKind};
use crate::instant::Timestamp;
use crate::json;
use crate::json::{Json, Tree};
use crate::registry::ProviderId;
use crate::text;
use crate::transport;
use crate::urls;
use crate::urls::{EndpointClass, UrlParts, UrlView};
use crate::usage::ProviderSource;

verus! {

pub const MAX_TOKEN_BYTES: usize = 16 * 1024;

pub const MAX_BROWSER_SESSIONS: usize = 64;

pub const MAX_RESPONSE_BYTES: u64 = 2 * 1024 * 1024;

/// How long before its expiry a cached token is no longer used, in nanoseconds.
pub const TOKEN_REFRESH_SKEW_NANOS: i128 = 60_000_000_000;

/// Whether an account and a source belong to this adapter.
pub open spec fn scope_ok(provider: ProviderId, source: ProviderSource) -> bool {
    provider == ProviderId::ZoomMate && (source == ProviderSource::ManualCookie || source
        == ProviderSource::BrowserSession)
}

/// Checks an account and a source.
pub fn validate_scope_source(provider: ProviderId, source: ProviderSource) -> (r: Result<
    (),
    ClassifiedError,
>)
    ensures
        match r {
            Ok(_) => scope_ok(provider, source),
            Err(e) => !scope_ok(provider, source) && e == error::plain(ErrorKind::Api),
        },
{
    if provider != ProviderId::ZoomMate || (source != ProviderSource::ManualCookie && source
        != ProviderSource::BrowserSession) {
        return Err(ClassifiedError::new(ErrorKind::Api));
    }
    Ok(())
}

/// A text without a leading `Bearer `, compared without regard to ASCII case.
pub open spec fn without_bearer(s: Seq<char>) -> Seq<char> {
    if s.len() >= 7 && text::same_ignoring_case(s.take(7), "bearer "@) {
        s.skip(7)
    } else {
        s
    }
}

fn strip_bearer(s: &[char]) -> (r: &[char])
    ensures
        r@ == without_bearer(s@),
{
    let n: usize = s.len();
    if n >= 7 {
        let head = slice_subrange(s, 0, 7);
        assert(head@ =~= s@.take(7));
        let wanted = text::chars_of("bearer ");
        if text::eq_ignore_case(head, wanted.as_slice()) {
            let rest = slice_subrange(s, 7, n);
            assert(rest@ =~= s@.skip(7));
            return rest;
        }
    }
    s
}

/// The token that an authorization value holds.
pub open spec fn bearer_of(raw: Seq<char>) -> Option<Seq<char>> {
    let token = without_bearer(text::trimmed(raw));
    if token.len() == 0 || text::byte_len(token) > MAX_TOKEN_BYTES || token.contains('\r')
        || token.contains('\n') {
        None
    } else {
        Some(token)
    }
}

fn holds(s: &[char], c: char) -> (r: bool)
    ensures
        r == s@.contains(c),
{
    let found = text::position(s, c, 0);
    proof {
        text::lemma_find_char_bounds(s@, c, 0);
        if found is Some {
            assert(s@[found->0 as int] == c);
        }
    }
    found.is_some()
}

/// The token that an authorization value holds.
pub fn normalize_bearer_token(raw: &str) -> (r: Result<String, ClassifiedError>)
    ensures
        match r {
            Ok(token) => bearer_of(raw@) == Some(token@),
            Err(e) => bearer_of(raw@) is None && e == error::plain(ErrorKind::MissingCredential),
        },
{
    let chars = text::chars_of(raw);
    let bare = strip_bearer(text::trim(chars.as_slice()));
    let token = text::text_of(bare);
    if bare.len() == 0 || token.as_str().len() > MAX_TOKEN_BYTES || holds(bare, '\r') || holds(
        bare,
        '\n',
    ) {
        return Err(ClassifiedError::new(ErrorKind::MissingCredential));
    }
    Ok(token)
}

/// The claims document of a token.
pub open spec fn claims_bytes(token: Seq<char>) -> Option<Seq<u8>> {
    let parts = text::pieces(without_bearer(text::trimmed(token)), '.');
    if parts.len() < 2 || parts[1].len() == 0 || text::byte_len(parts[1]) > MAX_TOKEN_BYTES {
        None
    } else {
        match encoding::url_safe(parts[1]) {
            Some(bytes) => if bytes.len() > MAX_TOKEN_BYTES {
                None
            } else {
                Some(bytes)
            },
            None => None,
        }
    }
}

/// The number that claims give as expiry.
pub open spec fn expiry_claim(claims: Tree) -> Option<Seq<char>> {
    match json::field(claims, "exp"@) {
        Some(Tree::Number(n)) => Some(n),
        _ => None,
    }
}

/// The number that claims give as expiry.
pub fn read_expiry(claims: &Json) -> (r: Option<String>)
    ensures
        r.deep_view() == expiry_claim(claims.tree()),
{
    match claims.get("exp") {
        Some(Json::Number(n)) => Some(n.clone()),
        _ => None,
    }
}

/// The text of the number that a token gives as its expiry, in seconds.
pub open spec fn token_expiry(token: Seq<char>) -> Option<Seq<char>> {
    match claims_bytes(token) {
        Some(bytes) => match json::parsed_json(bytes) {
            Some(claims) => expiry_claim(claims),
            None => None,
        },
        None => None,
    }
}

/// The text of the number that a token gives as its expiry.
pub fn expiry_from_jwt(token: &str) -> (r: Option<String>)
    ensures
        r.deep_view() == token_expiry(token@),
{
    let chars = text::chars_of(token);
    let bare = strip_bearer(text::trim(chars.as_slice()));
    let parts = text::split(bare, '.');
    let ghost all = text::pieces(bare@, '.');
    if parts.len() < 2 {
        return None;
    }
    assert(parts@[1]@ == all[1]);
    let payload = text::text_of(parts[1]);
    if payload.as_str().is_empty() || payload.as_str().len() > MAX_TOKEN_BYTES {
        return None;
    }
    let bytes = match encoding::decode_url_safe(payload.as_str()) {
        Some(bytes) => bytes,
        None => return None,
    };
    if bytes.len() > MAX_TOKEN_BYTES {
        return None;
    }
    match json::parse(bytes.as_slice()) {
        Some(claims) => read_expiry(&claims),
        None => None,
    }
}

/// Whether a cached token may still be used: more than a minute before it
/// expires.
pub fn cached_bearer_usable(expires_at: Timestamp, now: Timestamp) -> (r: bool)
    requires
        expires_at.in_calendar(),
    ensures
        r == (crate::instant::calendar_nanos(expires_at.nanos - TOKEN_REFRESH_SKEW_NANOS) is Some
            && expires_at.nanos - TOKEN_REFRESH_SKEW_NANOS > now.nanos),
        r ==> expires_at.nanos - now.nanos > 60 * 1_000_000_000,
        !r && now.in_calendar() ==> expires_at.nanos - now.nanos <= 60 * 1_000_000_000,
{
    match Timestamp::from_nanos(expires_at.nanos - TOKEN_REFRESH_SKEW_NANOS) {
        Some(boundary) => boundary.nanos > now.nanos,
        None => false,
    }
}

/// The routes of one host.
pub struct ApiRoutes {
    pub origin: UrlParts,
    pub status: UrlParts,
    pub history: UrlParts,
    pub login: UrlParts,
}

/// What the bare origin of a URL parses to.
pub open spec fn origin_of(url: UrlView) -> Option<UrlView> {
    if url.host is None || url.username.len() > 0 || url.has_password {
        None
    } else {
        parsed_at(url.href, "/"@)
    }
}

/// What a URL with another path, without query and fragment, parses to.
pub open spec fn parsed_at(href: Seq<char>, path: Seq<char>) -> Option<UrlView> {
    match urls::url_at_path(href, path) {
        Some(at) => urls::parsed_url(at),
        None => None,
    }
}

fn parse_at(href: &str, path: &str) -> (r: Option<UrlParts>)
    ensures
        match r {
            Some(url) => parsed_at(href@, path@) == Some(url.value()),
            None => parsed_at(href@, path@) is None,
        },
{
    match urls::with_path(href, path) {
        Some(at) => urls::parse(at.as_str()),
        None => None,
    }
}

/// The query of a login.
pub open spec fn login_query() -> Seq<(Seq<char>, Seq<char>)> {
    seq![("continue"@, "https://zoommate.zoom.us/"@)]
}

/// What the login below an origin parses to.
pub open spec fn login_of(origin: UrlView) -> Option<UrlView> {
    match urls::url_with_pairs(
        urls::url_at_path(origin.href, "/ai-computer/api/v1/login/"@),
        login_query(),
    ) {
        Some(href) => urls::parsed_url(href),
        None => None,
    }
}

/// Whether routes are those below the origin of a URL.
pub open spec fn routes_below(routes: ApiRoutes, url: UrlView) -> bool {
    let origin = routes.origin.value();
    &&& origin_of(url) == Some(origin)
    &&& origin.host is Some
    &&& parsed_at(origin.href, "/ai-computer/api/v1/credits/status"@) == Some(
        routes.status.value(),
    )
    &&& parsed_at(origin.href, "/ai-computer/api/v1/credits/history"@) == Some(
        routes.history.value(),
    )
    &&& login_of(origin) == Some(routes.login.value())
}

/// Whether a URL has routes below its origin.
pub open spec fn has_routes(url: UrlView) -> bool {
    match origin_of(url) {
        Some(origin) => origin.host is Some && parsed_at(
            origin.href,
            "/ai-computer/api/v1/credits/status"@,
        ) is Some && parsed_at(origin.href, "/ai-computer/api/v1/credits/history"@) is Some
            && login_of(origin) is Some,
        None => false,
    }
}

impl ApiRoutes {
    /// The routes below the origin of a URL.
    pub fn new(url: &UrlParts) -> (r: Result<ApiRoutes, ClassifiedError>)
        ensures
            match r {
                Ok(routes) => routes_below(routes, url.value()),
                Err(e) => !has_routes(url.value()) && e == error::plain(ErrorKind::Api),
            },
    {
        if url.host.is_none() || !url.username.as_str().is_empty() || url.has_password {
            return Err(ClassifiedError::new(ErrorKind::Api));
        }
        let origin = match parse_at(url.href.as_str(), "/") {
            Some(origin) => origin,
            None => return Err(ClassifiedError::new(ErrorKind::Api)),
        };
        if origin.host.is_none() {
            return Err(ClassifiedError::new(ErrorKind::Api));
        }
        let status = parse_at(origin.href.as_str(), "/ai-computer/api/v1/credits/status");
        let history = parse_at(origin.href.as_str(), "/ai-computer/api/v1/credits/history");
        let login = match urls::with_path(origin.href.as_str(), "/ai-computer/api/v1/login/") {
            Some(href) => {
                let pairs: Vec<(String, String)> = vec![
                    ("continue".to_owned(), "https://zoommate.zoom.us/".to_owned()),
                ];
                assert(pairs.deep_view() =~= login_query());
                match urls::extend_pairs(href.as_str(), &pairs) {
                    Some(whole) => urls::parse(whole.as_str()),
                    None => None,
                }
            },
            None => None,
        };
        match (status, history, login) {
            (Some(status), Some(history), Some(login)) => Ok(
                ApiRoutes { origin, status, history, login },
            ),
            _ => Err(ClassifiedError::new(ErrorKind::Api)),
        }
    }
}

/// The routes of both hosts, the preferred one first.
pub struct ZoomMateRouteSet {
    pub primary: ApiRoutes,
    pub alternate: ApiRoutes,
    pub class: EndpointClass,
}

/// Whether the routes of a host are at their paths, with the one query that a
/// login has.
pub open spec fn host_ok(routes: ApiRoutes) -> bool {
    &&& routes.status.path@ == "/ai-computer/api/v1/credits/status"@
    &&& routes.history.path@ == "/ai-computer/api/v1/credits/history"@
    &&& routes.login.path@ == "/ai-computer/api/v1/login/"@
    &&& routes.status.query is None
    &&& routes.history.query is None
    &&& routes.login.query is Some
    &&& urls::query_pairs_of(routes.login.query->0@).len() == 1
}

fn check_host(routes: &ApiRoutes) -> (r: bool)
    ensures
        r == host_ok(*routes),
{
    text::same_text(routes.status.path.as_str(), "/ai-computer/api/v1/credits/status")
        && text::same_text(routes.history.path.as_str(), "/ai-computer/api/v1/credits/history")
        && text::same_text(routes.login.path.as_str(), "/ai-computer/api/v1/login/")
        && routes.status.query.is_none() && routes.history.query.is_none() && match &routes.login.query {
        Some(query) => urls::query_pairs(query.as_str()).len() == 1,
        None => false,
    }
}

/// Whether a URL has the origin of a text that parses.
pub open spec fn of_origin(url: UrlView, expected: Seq<char>) -> bool {
    urls::parsed_url(expected) matches Some(e) && url.origin == e.origin
}

fn has_origin(url: &UrlParts, expected: &str) -> (r: bool)
    ensures
        r == of_origin(url.value(), expected@),
{
    match urls::parse(expected) {
        Some(e) => text::same_text(url.origin.as_str(), e.origin.as_str()),
        None => false,
    }
}

/// Whether a production host has no routes.
pub open spec fn production_missing() -> bool {
    !(urls::parsed_url("https://ai.zoom.us"@) matches Some(primary) && urls::parsed_url(
        "https://zoommate.zoom.us"@,
    ) matches Some(alternate) && has_routes(primary) && has_routes(alternate))
}

/// Whether the routes of the production hosts are missing or refused.
pub open spec fn production_refused(allowed: bool) -> bool {
    production_missing() || exists|routes: ZoomMateRouteSet| #[trigger]
        routes.is_production() && !(routes.ok() && allowed)
}

impl ZoomMateRouteSet {
    /// Whether the routes are the fixed ones of two different hosts, in
    /// production of the two production hosts.
    pub open spec fn ok(self) -> bool {
        &&& self.class == EndpointClass::PublicHttps || self.class
            == EndpointClass::LoopbackDevelopment
        &&& self.primary.origin.origin@ != self.alternate.origin.origin@
        &&& self.class == EndpointClass::PublicHttps ==> of_origin(
            self.primary.origin.value(),
            "https://ai.zoom.us"@,
        ) && of_origin(self.alternate.origin.value(), "https://zoommate.zoom.us"@)
        &&& host_ok(self.primary)
        &&& host_ok(self.alternate)
    }

    /// Checks the routes. `allowed` is the verdict of the endpoint and cookie
    /// policies on all of them.
    pub fn validate(&self, allowed: bool) -> (r: Result<(), ClassifiedError>)
        ensures
            match r {
                Ok(_) => self.ok() && allowed,
                Err(e) => !(self.ok() && allowed) && e == error::plain(ErrorKind::Api),
            },
    {
        if (self.class != EndpointClass::PublicHttps && self.class
            != EndpointClass::LoopbackDevelopment) || text::same_text(
            self.primary.origin.origin.as_str(),
            self.alternate.origin.origin.as_str(),
        ) {
            return Err(ClassifiedError::new(ErrorKind::Api));
        }
        if self.class == EndpointClass::PublicHttps && !(has_origin(
            &self.primary.origin,
            "https://ai.zoom.us",
        ) && has_origin(&self.alternate.origin, "https://zoommate.zoom.us")) {
            return Err(ClassifiedError::new(ErrorKind::Api));
        }
        if !check_host(&self.primary) || !check_host(&self.alternate) || !allowed {
            return Err(ClassifiedError::new(ErrorKind::Api));
        }
        Ok(())
    }

    /// Whether these are the routes below two origins.
    pub open spec fn below(self, primary: UrlView, alternate: UrlView, class: EndpointClass) -> bool {
        routes_below(self.primary, primary) && routes_below(self.alternate, alternate)
            && self.class == class
    }

    /// Whether these are the routes of the production hosts.
    pub open spec fn is_production(self) -> bool {
        urls::parsed_url("https://ai.zoom.us"@) matches Some(primary) && urls::parsed_url(
            "https://zoommate.zoom.us"@,
        ) matches Some(alternate) && self.below(primary, alternate, EndpointClass::PublicHttps)
    }

    /// The routes of the production hosts. `allowed` is the verdict of the
    /// endpoint and cookie policies on them.
    pub fn production(allowed: bool) -> (r: Result<ZoomMateRouteSet, ClassifiedError>)
        ensures
            match r {
                Ok(routes) => routes.is_production() && routes.ok() && allowed,
                Err(e) => e == error::plain(ErrorKind::Api) && production_refused(allowed),
            },
    {
        let (primary, alternate) = match (
            urls::parse("https://ai.zoom.us"),
            urls::parse("https://zoommate.zoom.us"),
        ) {
            (Some(primary), Some(alternate)) => (primary, alternate),
            _ => return Err(ClassifiedError::new(ErrorKind::Api)),
        };
        let made = ZoomMateRouteSet::from_origins(
            &primary,
            &alternate,
            EndpointClass::PublicHttps,
            allowed,
        );
        proof {
            if made is Err && has_routes(primary.value()) && has_routes(alternate.value()) {
                let routes = choose|routes: ZoomMateRouteSet|
                    #[trigger] routes.below(
                        primary.value(),
                        alternate.value(),
                        EndpointClass::PublicHttps,
                    ) && !(routes.ok() && allowed);
                assert(routes.is_production());
            }
        }
        made
    }

    /// The routes of two loopback hosts. `allowed` is the verdict of the endpoint
    /// and cookie policies on them.
    pub fn loopback(primary: &UrlParts, alternate: &UrlParts, allowed: bool) -> (r: Result<
        ZoomMateRouteSet,
        ClassifiedError,
    >)
        ensures
            ({
                let class = EndpointClass::LoopbackDevelopment;
                match r {
                    Ok(routes) => routes.below(primary.value(), alternate.value(), class)
                        && routes.ok() && allowed,
                    Err(e) => e == error::plain(ErrorKind::Api) && (!has_routes(primary.value())
                        || !has_routes(alternate.value()) || exists|routes: ZoomMateRouteSet|
                        #[trigger] routes.below(primary.value(), alternate.value(), class) && !(
                        routes.ok() && allowed)),
                }
            }),
    {
        ZoomMateRouteSet::from_origins(
            primary,
            alternate,
            EndpointClass::LoopbackDevelopment,
            allowed,
        )
    }

    /// The routes below two origins. `allowed` is the verdict of the endpoint and
    /// cookie policies on them.
    pub fn from_origins(
        primary: &UrlParts,
        alternate: &UrlParts,
        class: EndpointClass,
        allowed: bool,
    ) -> (r: Result<ZoomMateRouteSet, ClassifiedError>)
        ensures
            match r {
                Ok(routes) => routes.below(primary.value(), alternate.value(), class)
                    && routes.ok() && allowed,
                Err(e) => e == error::plain(ErrorKind::Api) && (!has_routes(primary.value())
                    || !has_routes(alternate.value()) || exists|routes: ZoomMateRouteSet|
                    #[trigger] routes.below(primary.value(), alternate.value(), class) && !(
                    routes.ok() && allowed)),
            },
    {
        let first = match ApiRoutes::new(primary) {
            Ok(first) => first,
            Err(e) => return Err(e),
        };
        let second = match ApiRoutes::new(alternate) {
            Ok(second) => second,
            Err(e) => return Err(e),
        };
        let routes = ZoomMateRouteSet { primary: first, alternate: second, class };
        match routes.validate(allowed) {
            Ok(_) => Ok(routes),
            Err(e) => {
                assert(routes.below(primary.value(), alternate.value(), class));
                Err(e)
            },
        }
    }
}

/// The host that a captured URL names: the first, the second, or none.
pub open spec fn captured_host(url: UrlView) -> Option<usize> {
    if url.path != "/ai-computer/api/v1/credits/status"@ || url.query is Some {
        None
    } else {
        match url.host {
            Some(host) => if text::same_ignoring_case(host, "ai.zoom.us"@) {
                Some(0usize)
            } else if text::same_ignoring_case(host, "zoommate.zoom.us"@) {
                Some(1usize)
            } else {
                None
            },
            None => None,
        }
    }
}

/// The host that a captured URL names.
pub fn preferred_host(url: &UrlParts) -> (r: Result<usize, ClassifiedError>)
    ensures
        match r {
            Ok(host) => captured_host(url.value()) == Some(host),
            Err(e) => captured_host(url.value()) is None && e == error::plain(ErrorKind::Parse),
        },
{
    if !text::same_text(url.path.as_str(), "/ai-computer/api/v1/credits/status")
        || url.query.is_some() {
        return Err(ClassifiedError::new(ErrorKind::Parse));
    }
    if let Some(host) = &url.host {
        let chars = text::chars_of(host.as_str());
        let first = text::chars_of("ai.zoom.us");
        if text::eq_ignore_case(chars.as_slice(), first.as_slice()) {
            return Ok(0);
        }
        let second = text::chars_of("zoommate.zoom.us");
        if text::eq_ignore_case(chars.as_slice(), second.as_slice()) {
            return Ok(1);
        }
    }
    Err(ClassifiedError::new(ErrorKind::Parse))
}

/// A manual credential: the token, the preferred host, the cookie of that host
/// and the headers to forward.
pub struct ManualCredential {
    pub token: String,
    pub preferred_host: usize,
    pub cookie: Option<String>,
    pub forwarded: Vec<(String, String)>,
}

/// Whether every header can be sent.
pub open spec fn headers_ok(headers: Seq<(Seq<char>, Seq<char>)>) -> bool {
    forall|i: int|
        0 <= i < headers.len() ==> transport::header_name((#[trigger] headers[i]).0) is Some
            && transport::header_value_ok(headers[i].1)
}

/// Headers with their names in lower case.
pub open spec fn lower_names(headers: Seq<(Seq<char>, Seq<char>)>) -> Seq<(Seq<char>, Seq<char>)> {
    Seq::new(headers.len(), |i: int| (text::lower(headers[i].0), headers[i].1))
}

fn check_headers(headers: &Vec<(String, String)>) -> (r: Result<
    Vec<(String, String)>,
    ClassifiedError,
>)
    ensures
        match r {
            Ok(checked) => headers_ok(headers.deep_view()) && checked.deep_view() == lower_names(
                headers.deep_view(),
            ),
            Err(e) => !headers_ok(headers.deep_view()) && e == error::plain(ErrorKind::Parse),
        },
{
    let ghost all = headers.deep_view();
    let mut out: Vec<(String, String)> = Vec::new();
    let mut i: usize = 0;
    assert(out.deep_view() =~= lower_names(all).take(0));
    while i < headers.len()
        invariant
            all == headers.deep_view(),
            i <= headers@.len(),
            forall|j: int|
                0 <= j < i ==> transport::header_name((#[trigger] all[j]).0) is Some
                    && transport::header_value_ok(all[j].1),
            out.deep_view() == lower_names(all).take(i as int),
        decreases headers@.len() - i,
    {
        assert(all[i as int] == (headers@[i as int].0@, headers@[i as int].1@));
        let name = match transport::parse_header_name(headers[i].0.as_str()) {
            Some(name) => name,
            None => {
                assert(transport::header_name(all[i as int].0) is None);
                return Err(ClassifiedError::new(ErrorKind::Parse));
            },
        };
        if !transport::is_header_value(headers[i].1.as_str()) {
            assert(!transport::header_value_ok(all[i as int].1));
            return Err(ClassifiedError::new(ErrorKind::Parse));
        }
        let ghost before = out.deep_view();
        out.push((name, headers[i].1.clone()));
        assert(out.deep_view() =~= before.push(lower_names(all)[i as int]));
        assert(lower_names(all).take(i as int + 1) =~= lower_names(all).take(i as int).push(
            lower_names(all)[i as int],
        ));
        i += 1;
    }
    assert(lower_names(all).take(all.len() as int) =~= lower_names(all));
    Ok(out)
}

/// The failure of a manual capture, in the order of its checks.
pub open spec fn capture_failure(
    url: Option<UrlView>,
    authorization: Option<Seq<char>>,
    cookie: Result<Option<String>, ErrorKind>,
    headers: Seq<(Seq<char>, Seq<char>)>,
) -> Option<ErrorKind> {
    if url is None || captured_host(url->0) is None {
        Some(ErrorKind::Parse)
    } else if authorization is None || bearer_of(authorization->0) is None {
        Some(ErrorKind::MissingCredential)
    } else if cookie is Err {
        Some(cookie->Err_0)
    } else if !headers_ok(headers) {
        Some(ErrorKind::Parse)
    } else {
        None
    }
}

/// The view of a captured URL, where there is one.
pub open spec fn captured_url(url: Option<UrlParts>) -> Option<UrlView> {
    match url {
        Some(u) => Some(u.value()),
        None => None,
    }
}

/// The manual credential of a capture: its URL, its authorization, its cookie as
/// the cookie rules have read it, and the headers to forward.
pub fn manual_credential(
    url: &Option<UrlParts>,
    authorization: &Option<String>,
    cookie: Result<Option<String>, ErrorKind>,
    headers: &Vec<(String, String)>,
) -> (r: Result<ManualCredential, ClassifiedError>)
    ensures
        ({
            let view = captured_url(*url);
            let failure = capture_failure(
                view,
                authorization.deep_view(),
                cookie,
                headers.deep_view(),
            );
            match r {
                Ok(credential) => failure is None && captured_host(view->0) == Some(
                    credential.preferred_host,
                ) && bearer_of(authorization->0@) == Some(credential.token@)
                    && credential.cookie == cookie->Ok_0
                    && credential.forwarded.deep_view() == lower_names(headers.deep_view()),
                Err(e) => failure is Some && e == error::plain(failure->0),
            }
        }),
{
    let captured = match url {
        Some(captured) => captured,
        None => return Err(ClassifiedError::new(ErrorKind::Parse)),
    };
    let host = match preferred_host(captured) {
        Ok(host) => host,
        Err(e) => return Err(e),
    };
    let raw = match authorization {
        Some(raw) => raw,
        None => return Err(ClassifiedError::new(ErrorKind::MissingCredential)),
    };
    let token = match normalize_bearer_token(raw.as_str()) {
        Ok(token) => token,
        Err(e) => return Err(e),
    };
    let cookie = match cookie {
        Ok(cookie) => cookie,
        Err(kind) => return Err(ClassifiedError::new(kind)),
    };
    match check_headers(headers) {
        Ok(forwarded) => Ok(ManualCredential { token, preferred_host: host, cookie, forwarded }),
        Err(e) => Err(e),
    }
}

/// The order in which hosts are asked.
pub fn host_order(preferred: usize) -> (r: (usize, usize))
    ensures
        r == (if preferred == 1 {
            (1usize, 0usize)
        } else {
            (0usize, 1usize)
        }),
{
    if preferred == 1 {
        (1, 0)
    } else {
        (0, 1)
    }
}

/// Whether a failure of the first host is final.
pub open spec fn final_failure(e: ClassifiedError, cancelled: bool) -> bool {
    cancelled || e.kind == ErrorKind::AuthenticationExpired || e.kind
        == ErrorKind::PermissionDenied || e.kind == ErrorKind::Parse
}

/// Whether a failure of the first host is final.
pub fn no_host_fallback(e: &ClassifiedError, cancelled: bool) -> (r: bool)
    ensures
        r == final_failure(*e, cancelled),
{
    cancelled || e.kind == ErrorKind::AuthenticationExpired || e.kind
        == ErrorKind::PermissionDenied || e.kind == ErrorKind::Parse
}

/// Whether the next host is asked after a failure of one; the last host's
/// failure stands.
pub fn try_next_host(hosts_left: bool, e: &ClassifiedError, cancelled: bool) -> (r: bool)
    ensures
        r == (hosts_left && !final_failure(*e, cancelled)),
{
    hosts_left && !no_host_fallback(e, cancelled)
}

/// One browser profile: whether it has any cookie, and one for a login.
#[derive(Debug, Clone, Copy, PartialEq, Eq, Structural)]
pub struct Profile {
    pub has_cookies: bool,
    pub has_login: bool,
}

/// The profiles among the first `n` that can log in.
pub open spec fn login_profiles(profiles: Seq<Profile>, n: int) -> Seq<usize>
    decreases n,
{
    if n <= 0 {
        seq![]
    } else {
        let before = login_profiles(profiles, n - 1);
        if profiles[n - 1].has_login {
            before.push((n - 1) as usize)
        } else {
            before
        }
    }
}

/// Whether any profile has a cookie.
pub open spec fn any_cookies(profiles: Seq<Profile>) -> bool {
    exists|i: int| 0 <= i < profiles.len() && (#[trigger] profiles[i]).has_cookies
}

/// The profiles that can log in, in order.
pub fn browser_sessions(profiles: &Vec<Profile>) -> (r: Result<Vec<usize>, ClassifiedError>)
    ensures
        ({
            let found = login_profiles(profiles@, profiles@.len() as int);
            match r {
                Ok(sessions) => profiles@.len() <= MAX_BROWSER_SESSIONS && found.len() > 0
                    && sessions@ == found,
                Err(e) => if profiles@.len() > MAX_BROWSER_SESSIONS {
                    e == error::plain(ErrorKind::Api)
                } else {
                    found.len() == 0 && e == error::plain(
                        if any_cookies(profiles@) {
                            ErrorKind::AuthenticationExpired
                        } else {
                            ErrorKind::MissingCredential
                        },
                    )
                },
            }
        }),
{
    if profiles.len() > MAX_BROWSER_SESSIONS {
        return Err(ClassifiedError::new(ErrorKind::Api));
    }
    let mut sessions: Vec<usize> = Vec::new();
    let mut cookies = false;
    let mut i: usize = 0;
    while i < profiles.len()
        invariant
            i <= profiles@.len(),
            sessions@ == login_profiles(profiles@, i as int),
            cookies ==> any_cookies(profiles@),
            !cookies ==> forall|j: int| 0 <= j < i ==> !(#[trigger] profiles@[j]).has_cookies,
        decreases profiles@.len() - i,
    {
        if profiles[i].has_cookies {
            assert(profiles@[i as int].has_cookies);
            cookies = true;
        }
        if profiles[i].has_login {
            sessions.push(i);
        }
        i += 1;
    }
    if sessions.len() == 0 {
        return Err(
            ClassifiedError::new(
                if cookies {
                    ErrorKind::AuthenticationExpired
                } else {
                    ErrorKind::MissingCredential
                },
            ),
        );
    }
    Ok(sessions)
}

/// What follows a failed login of a profile: the next profile after a rejected
/// one, and the failure of all of them after the last.
pub open spec fn after_profile(
    profiles_left: bool,
    e: ClassifiedError,
    cancelled: bool,
) -> Option<ClassifiedError> {
    if e.kind != ErrorKind::AuthenticationExpired {
        Some(e)
    } else if cancelled {
        Some(error::plain(ErrorKind::Network))
    } else if profiles_left {
        None
    } else {
        Some(error::plain(ErrorKind::AuthenticationExpired))
    }
}

/// What follows a failed login of a profile: nothing where the next profile is
/// tried.
pub fn on_profile_failure(profiles_left: bool, e: ClassifiedError, cancelled: bool) -> (r: Option<
    ClassifiedError,
>)
    ensures
        r == after_profile(profiles_left, e, cancelled),
{
    if e.kind != ErrorKind::AuthenticationExpired {
        Some(e)
    } else if cancelled {
        Some(ClassifiedError::new(ErrorKind::Network))
    } else if profiles_left {
        None
    } else {
        Some(ClassifiedError::new(ErrorKind::AuthenticationExpired))
    }
}

/// Another account cannot hide a failure: only a rejected login leads to the
/// next profile.
pub proof fn law_only_rejections_advance(profiles_left: bool, e: ClassifiedError, cancelled: bool)
    ensures
        after_profile(profiles_left, e, cancelled) is None ==> e.kind
            == ErrorKind::AuthenticationExpired && profiles_left && !cancelled,
{
}

/// Headers with one of them set; an earlier value of the same name is replaced
/// in its place.
pub open spec fn with_header(
    headers: Seq<(Seq<char>, Seq<char>)>,
    name: Seq<char>,
    value: Seq<char>,
    from: int,
) -> Seq<(Seq<char>, Seq<char>)>
    decreases headers.len() - from,
{
    if from < 0 || from >= headers.len() {
        headers.push((name, value))
    } else if headers[from].0 == name {
        headers.update(from, (name, value))
    } else {
        with_header(headers, name, value, from + 1)
    }
}

fn set_header(headers: &mut Vec<(String, String)>, name: &str, value: &str)
    ensures
        final(headers).deep_view() == with_header(old(headers).deep_view(), name@, value@, 0),
{
    let ghost all = headers.deep_view();
    let mut i: usize = 0;
    while i < headers.len()
        invariant
            headers.deep_view() == all,
            all == old(headers).deep_view(),
            i <= headers@.len(),
            with_header(all, name@, value@, 0) == with_header(all, name@, value@, i as int),
        decreases headers@.len() - i,
    {
        assert(all[i as int] == (headers@[i as int].0@, headers@[i as int].1@));
        if text::same_text(headers[i].0.as_str(), name) {
            headers.set(i, (name.to_owned(), value.to_owned()));
            assert(headers.deep_view() =~= all.update(i as int, (name@, value@)));
            return;
        }
        i += 1;
    }
    headers.push((name.to_owned(), value.to_owned()));
    assert(headers.deep_view() =~= all.push((name@, value@)));
}

/// The headers that every request has.
pub open spec fn default_header_list() -> Seq<(Seq<char>, Seq<char>)> {
    seq![
        ("accept"@, "application/json, text/plain, */*"@),
        ("accept-language"@, "en-US,en;q=0.9"@),
        (
            "user-agent"@,
            "Mozilla/5.0 (Macintosh; Intel Mac OS X 10_15_7) AppleWebKit/537.36 (KHTML, like Gecko) Chrome/143.0.0.0 Safari/537.36"@,
        ),
        ("sec-fetch-dest"@, "empty"@),
        ("sec-fetch-mode"@, "cors"@),
        ("sec-fetch-site"@, "same-site"@),
    ]
}

/// The headers that every request has.
pub fn default_headers() -> (r: Vec<(String, String)>)
    ensures
        r.deep_view() == default_header_list(),
{
    let r: Vec<(String, String)> = vec![
        ("accept".to_owned(), "application/json, text/plain, */*".to_owned()),
        ("accept-language".to_owned(), "en-US,en;q=0.9".to_owned()),
        (
            "user-agent".to_owned(),
            "Mozilla/5.0 (Macintosh; Intel Mac OS X 10_15_7) AppleWebKit/537.36 (KHTML, like Gecko) Chrome/143.0.0.0 Safari/537.36".to_owned(),
        ),
        ("sec-fetch-dest".to_owned(), "empty".to_owned()),
        ("sec-fetch-mode".to_owned(), "cors".to_owned()),
        ("sec-fetch-site".to_owned(), "same-site".to_owned()),
    ];
    assert(r.deep_view() =~= default_header_list());
    r
}

/// Headers with the first `n` forwarded ones set.
pub open spec fn with_forwarded(forwarded: Seq<(Seq<char>, Seq<char>)>, n: int) -> Seq<
    (Seq<char>, Seq<char>),
>
    decreases n,
{
    if n <= 0 {
        default_header_list()
    } else {
        with_header(with_forwarded(forwarded, n - 1), forwarded[n - 1].0, forwarded[n - 1].1, 0)
    }
}

/// The headers of a request: the usual ones, the forwarded ones in their place,
/// the origin, and the credentials.
pub open spec fn request_header_list(
    forwarded: Seq<(Seq<char>, Seq<char>)>,
    bearer: Option<Seq<char>>,
    cookie: Option<Seq<char>>,
) -> Seq<(Seq<char>, Seq<char>)> {
    let base = with_forwarded(forwarded, forwarded.len() as int);
    let origin = with_header(base, "origin"@, "https://zoommate.zoom.us"@, 0);
    let referer = with_header(origin, "referer"@, "https://zoommate.zoom.us"@, 0);
    let authorized = match bearer {
        Some(token) => with_header(referer, "authorization"@, "Bearer "@ + token, 0),
        None => referer,
    };
    match cookie {
        Some(value) => with_header(authorized, "cookie"@, value, 0),
        None => authorized,
    }
}

/// The failure of a request's headers.
pub open spec fn header_failure(
    forwarded: Seq<(Seq<char>, Seq<char>)>,
    bearer: Option<Seq<char>>,
    cookie: Option<Seq<char>>,
) -> Option<ErrorKind> {
    if exists|i: int|
        0 <= i < forwarded.len() && !transport::header_value_ok((#[trigger] forwarded[i]).1) {
        Some(ErrorKind::Parse)
    } else if (bearer is Some && !transport::header_value_ok("Bearer "@ + bearer->0)) || (cookie
        is Some && !transport::header_value_ok(cookie->0)) {
        Some(ErrorKind::Api)
    } else {
        None
    }
}

/// The headers of a request.
pub fn request_headers(
    forwarded: &Vec<(String, String)>,
    bearer: &Option<String>,
    cookie: &Option<String>,
) -> (r: Result<Vec<(String, String)>, ClassifiedError>)
    ensures
        ({
            let failure = header_failure(
                forwarded.deep_view(),
                bearer.deep_view(),
                cookie.deep_view(),
            );
            match r {
                Ok(headers) => failure is None && headers.deep_view() == request_header_list(
                    forwarded.deep_view(),
                    bearer.deep_view(),
                    cookie.deep_view(),
                ),
                Err(e) => failure is Some && e == error::plain(failure->0),
            }
        }),
{
    let ghost all = forwarded.deep_view();
    let mut headers = default_headers();
    let mut i: usize = 0;
    while i < forwarded.len()
        invariant
            all == forwarded.deep_view(),
            i <= forwarded@.len(),
            headers.deep_view() == with_forwarded(all, i as int),
            forall|j: int| 0 <= j < i ==> transport::header_value_ok((#[trigger] all[j]).1),
        decreases forwarded@.len() - i,
    {
        assert(all[i as int] == (forwarded@[i as int].0@, forwarded@[i as int].1@));
        if !transport::is_header_value(forwarded[i].1.as_str()) {
            assert(!transport::header_value_ok(all[i as int].1));
            return Err(ClassifiedError::new(ErrorKind::Parse));
        }
        set_header(&mut headers, forwarded[i].0.as_str(), forwarded[i].1.as_str());
        i += 1;
    }
    set_header(&mut headers, "origin", "https://zoommate.zoom.us");
    set_header(&mut headers, "referer", "https://zoommate.zoom.us");
    if let Some(token) = bearer {
        let mut value = "Bearer ".to_owned();
        value.append(token.as_str());
        if !transport::is_header_value(value.as_str()) {
            return Err(ClassifiedError::new(ErrorKind::Api));
        }
        set_header(&mut headers, "authorization", value.as_str());
    }
    if let Some(value) = cookie {
        if !transport::is_header_value(value.as_str()) {
            return Err(ClassifiedError::new(ErrorKind::Api));
        }
        set_header(&mut headers, "cookie", value.as_str());
    }
    Ok(headers)
}

/// What to do with a redirect.
#[derive(Debug, Clone, Copy, PartialEq, Eq, Structural)]
pub enum RedirectStep {
    Follow,
    Stop,
    Fail,
}

/// What to do with a redirect: within one origin a bounded number is followed.
pub fn on_redirect(previous: usize, same_origin: bool) -> (r: RedirectStep)
    ensures
        r == (if previous >= 10 {
            RedirectStep::Fail
        } else if same_origin {
            RedirectStep::Follow
        } else {
            RedirectStep::Stop
        }),
{
    if previous >= 10 {
        RedirectStep::Fail
    } else if same_origin {
        RedirectStep::Follow
    } else {
        RedirectStep::Stop
    }
}

/// Whether the body of a response may be read.
pub fn on_response_head(status: u16, length: Option<u64>) -> (r: Result<(), ClassifiedError>)
    ensures
        match r {
            Ok(_) => status == 200 && !(length matches Some(n) && n > MAX_RESPONSE_BYTES),
            Err(e) => e == error::plain(
                if status == 401 || status == 403 {
                    ErrorKind::AuthenticationExpired
                } else if status != 200 {
                    ErrorKind::Api
                } else {
                    ErrorKind::Parse
                },
            ) && (status != 200 || (length matches Some(n) && n > MAX_RESPONSE_BYTES)),
        },
{
    if status == 401 || status == 403 {
        return Err(ClassifiedError::new(ErrorKind::AuthenticationExpired));
    }
    if status != 200 {
        return Err(ClassifiedError::new(ErrorKind::Api));
    }
    if let Some(n) = length {
        if n > MAX_RESPONSE_BYTES {
            return Err(ClassifiedError::new(ErrorKind::Parse));
        }
    }
    Ok(())
}

/// What becomes of a failed history: a cancelled one stays a failure, anything
/// else leaves the status alone.
pub fn history_failure(e: ClassifiedError, cancelled: bool) -> (r: Option<ClassifiedError>)
    ensures
        r == (if cancelled {
            Some(e)
        } else {
            None
        }),
{
    if cancelled {
        Some(e)
    } else {
        None
    }
}

/// Whether a failure makes a cached token useless.
pub fn invalidates_bearer(e: &ClassifiedError) -> (r: bool)
    ensures
        r == (e.kind == ErrorKind::AuthenticationExpired),
{
    e.kind == ErrorKind::AuthenticationExpired
}

/// A captured request is of the status route of one of the two hosts, without a
/// query.
pub proof fn law_captures_are_of_the_status_route(url: UrlView)
    ensures
        captured_host(url) matches Some(at) ==> at < 2 && url.query is None && url.path
            == "/ai-computer/api/v1/credits/status"@ && url.host is Some,
        url.path == "/ai-computer/api/v1/credits/status"@ && url.query is None && url.host == Some(
            "ai.zoom.us"@,
        ) ==> captured_host(url) == Some(0usize),
{
}

/// A scheme before a token does not belong to it, and a token fits one line.
pub proof fn law_bearers_are_bare(raw: Seq<char>, token: Seq<char>)
    requires
        text::trimmed(raw) == "Bearer "@ + token,
    ensures
        bearer_of(raw) matches Some(found) ==> found == token && !found.contains('\n')
            && !found.contains('\r') && found.len() > 0,
        token.len() > 0 && text::byte_len(token) <= MAX_TOKEN_BYTES && !token.contains('\n')
            && !token.contains('\r') ==> bearer_of(raw) == Some(token),
{
    reveal_strlit("Bearer ");
    reveal_strlit("bearer ");
    let plain = text::trimmed(raw);
    assert(plain.take(7) =~= "Bearer "@);
    assert(text::lower("Bearer "@) =~= text::lower("bearer "@));
    assert(plain.skip(7) =~= token);
}

} // verus!
