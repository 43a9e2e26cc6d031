//! StepFun routes, tokens and sign-in.

use vstd::prelude::*;
use vstd::slice::slice_subrange;

use crate::capture::ManualCaptureError;
use crate::encoding;
use crate::error;
use crate::error::{ClassifiedError, ErrorKind};
use crate::exchange;
use crate::json;
use crate::json::{Json, Tree};
use crate::registry::ProviderId;
use crate::retry;
use crate::retry::RetryPolicy;
use crate::settings;
use crate::text;
use crate::transport;
use crate::transport::{
    Authentication, HttpRequest, Method, RequestAccept, RequestContentType, TransportConfig,
    TransportError,
};
use crate::urls;
use crate::urls::{EndpointClass, UrlParts, UrlView};

verus! {

pub const MAX_RESPONSE_BYTES: usize = 2 * 1024 * 1024;

pub const MAX_JSON_TEXT_BYTES: usize = 512 * 1024;

pub const MAX_TOKEN_BYTES: usize = 16 * 1024;

pub const MAX_LOGIN_FIELD_BYTES: usize = 16 * 1024;

pub const MAX_SET_COOKIE_HEADERS: usize = 32;

pub const MAX_SET_COOKIE_BYTES: usize = 64 * 1024;

pub const MAX_REDIRECT_LOCATION_BYTES: usize = 8 * 1024;

pub const MAX_HOMEPAGE_REDIRECTS: u8 = 5;

pub const MAX_IDENTITY_BYTES: usize = 256;

/// The routes of the service.
pub struct StepFunRouteSet {
    pub homepage: UrlParts,
    pub usage: UrlParts,
    pub plan_status: UrlParts,
    pub register_device: UrlParts,
    pub sign_in: UrlParts,
    pub refresh: UrlParts,
    pub class: EndpointClass,
}

/// The path of each route, in the order of the fields.
pub open spec fn route_paths() -> Seq<Seq<char>> {
    seq![
        "/"@,
        "/api/step.openapi.devcenter.Dashboard/QueryStepPlanRateLimit"@,
        "/api/step.openapi.devcenter.Dashboard/GetStepPlanStatus"@,
        "/passport/proto.api.passport.v1.PassportService/RegisterDevice"@,
        "/passport/proto.api.passport.v1.PassportService/SignInByPassword"@,
        "/passport/proto.api.passport.v1.PassportService/RefreshToken"@,
    ]
}

/// The origin of production.
pub open spec fn production_origin() -> Seq<char> {
    "https://platform.stepfun.com"@
}

impl StepFunRouteSet {
    /// The routes, in the order of the fields.
    pub open spec fn routes(self) -> Seq<UrlView> {
        seq![
            self.homepage.value(),
            self.usage.value(),
            self.plan_status.value(),
            self.register_device.value(),
            self.sign_in.value(),
            self.refresh.value(),
        ]
    }

    /// Whether the routes are the fixed ones of one origin: bare of credentials,
    /// query and fragment, and in production of the production origin.
    pub open spec fn ok(self) -> bool {
        &&& self.class == EndpointClass::PublicHttps || self.class
            == EndpointClass::LoopbackDevelopment
        &&& forall|i: int|
            0 <= i < self.routes().len() ==> route_ok(#[trigger] self.routes()[i], route_paths()[i])
        &&& self.class == EndpointClass::PublicHttps ==> urls::parsed_url(
            production_origin(),
        ) is Some && forall|i: int|
            0 <= i < self.routes().len() ==> (#[trigger] self.routes()[i]).origin
                == urls::parsed_url(production_origin())->0.origin
    }
}

/// Whether a route is at its path, bare of credentials, query and fragment.
pub open spec fn route_ok(url: UrlView, path: Seq<char>) -> bool {
    url.path == path && url.username.len() == 0 && !url.has_password && url.query is None
        && url.fragment is None
}

fn check_route(url: &UrlParts, path: &str) -> (r: bool)
    ensures
        r == route_ok(url.value(), path@),
{
    text::same_text(url.path.as_str(), path) && url.username.as_str().is_empty()
        && !url.has_password && url.query.is_none() && url.fragment.is_none()
}

/// What a path below an origin parses to; `None` where the origin cannot be one.
pub open spec fn fixed(origin: UrlView, path: Seq<char>) -> Option<UrlView> {
    if origin.host is None || origin.username.len() > 0 || origin.has_password || origin.fragment
        is Some {
        None
    } else {
        match urls::url_at_path(origin.href, path) {
            Some(href) => urls::parsed_url(href),
            None => None,
        }
    }
}

/// A path below an origin.
pub fn fixed_url(origin: &UrlParts, path: &str) -> (r: Result<UrlParts, ClassifiedError>)
    ensures
        match r {
            Ok(url) => fixed(origin.value(), path@) == Some(url.value()),
            Err(e) => fixed(origin.value(), path@) is None && e == error::plain(ErrorKind::Api),
        },
{
    if origin.host.is_none() || !origin.username.as_str().is_empty() || origin.has_password
        || origin.fragment.is_some() {
        return Err(ClassifiedError::new(ErrorKind::Api));
    }
    match urls::with_path(origin.href.as_str(), path) {
        Some(href) => match urls::parse(href.as_str()) {
            Some(url) => Ok(url),
            None => Err(ClassifiedError::new(ErrorKind::Api)),
        },
        None => Err(ClassifiedError::new(ErrorKind::Api)),
    }
}

impl StepFunRouteSet {
    /// Checks the routes. `allowed` is the verdict of the endpoint policy on all
    /// of them.
    pub fn validate(&self, allowed: bool) -> (r: Result<(), ClassifiedError>)
        ensures
            match r {
                Ok(_) => self.ok() && allowed,
                Err(e) => !(self.ok() && allowed) && e == error::plain(ErrorKind::Api),
            },
    {
        let ghost urls_seq = self.routes();
        let ghost paths = route_paths();
        if self.class != EndpointClass::PublicHttps && self.class
            != EndpointClass::LoopbackDevelopment {
            return Err(ClassifiedError::new(ErrorKind::Api));
        }
        assert(urls_seq[0] == self.homepage.value() && urls_seq[1] == self.usage.value());
        assert(urls_seq[2] == self.plan_status.value() && urls_seq[3]
            == self.register_device.value());
        assert(urls_seq[4] == self.sign_in.value() && urls_seq[5] == self.refresh.value());
        if !(check_route(&self.homepage, "/") && check_route(
            &self.usage,
            "/api/step.openapi.devcenter.Dashboard/QueryStepPlanRateLimit",
        ) && check_route(
            &self.plan_status,
            "/api/step.openapi.devcenter.Dashboard/GetStepPlanStatus",
        ) && check_route(
            &self.register_device,
            "/passport/proto.api.passport.v1.PassportService/RegisterDevice",
        ) && check_route(
            &self.sign_in,
            "/passport/proto.api.passport.v1.PassportService/SignInByPassword",
        ) && check_route(
            &self.refresh,
            "/passport/proto.api.passport.v1.PassportService/RefreshToken",
        )) {
            return Err(ClassifiedError::new(ErrorKind::Api));
        }
        assert forall|i: int| 0 <= i < urls_seq.len() implies route_ok(
            #[trigger] urls_seq[i],
            paths[i],
        ) by {
            assert(i == 0 || i == 1 || i == 2 || i == 3 || i == 4 || i == 5);
        }
        if self.class == EndpointClass::PublicHttps {
            let expected = match urls::parse("https://platform.stepfun.com") {
                Some(expected) => expected,
                None => return Err(ClassifiedError::new(ErrorKind::Api)),
            };
            let origin = expected.origin.as_str();
            if !(text::same_text(self.homepage.origin.as_str(), origin) && text::same_text(
                self.usage.origin.as_str(),
                origin,
            ) && text::same_text(self.plan_status.origin.as_str(), origin) && text::same_text(
                self.register_device.origin.as_str(),
                origin,
            ) && text::same_text(self.sign_in.origin.as_str(), origin) && text::same_text(
                self.refresh.origin.as_str(),
                origin,
            )) {
                return Err(ClassifiedError::new(ErrorKind::Api));
            }
            assert forall|i: int| 0 <= i < urls_seq.len() implies (#[trigger] urls_seq[i]).origin
                == expected.value().origin by {
                assert(i == 0 || i == 1 || i == 2 || i == 3 || i == 4 || i == 5);
            }
        }
        if !allowed {
            return Err(ClassifiedError::new(ErrorKind::Api));
        }
        Ok(())
    }

    /// Whether each route is what its path below an origin parses to.
    pub open spec fn below(self, origin: UrlView, class: EndpointClass) -> bool {
        &&& self.class == class
        &&& forall|i: int|
            0 <= i < self.routes().len() ==> fixed(origin, route_paths()[i]) == Some(
                #[trigger] self.routes()[i],
            )
    }

    /// The routes of the production origin. `allowed` is the verdict of the
    /// endpoint policy on it.
    pub fn production(allowed: bool) -> (r: Result<StepFunRouteSet, ClassifiedError>)
        ensures
            ({
                let class = EndpointClass::PublicHttps;
                let origin = urls::parsed_url(production_origin());
                match r {
                    Ok(routes) => origin is Some && routes.below(origin->0, class) && routes.ok()
                        && allowed,
                    Err(e) => e == error::plain(ErrorKind::Api) && (origin is Some ==> forall|
                        routes: StepFunRouteSet,
                    | #[trigger]
                        routes.below(origin->0, class) ==> !(routes.ok() && allowed)),
                }
            }),
    {
        match urls::parse("https://platform.stepfun.com") {
            Some(origin) => StepFunRouteSet::from_origin(
                &origin,
                EndpointClass::PublicHttps,
                allowed,
            ),
            None => Err(ClassifiedError::new(ErrorKind::Api)),
        }
    }

    /// The routes of a loopback origin. `allowed` is the verdict of the endpoint
    /// policy on it.
    pub fn loopback(origin: &UrlParts, allowed: bool) -> (r: Result<
        StepFunRouteSet,
        ClassifiedError,
    >)
        ensures
            ({
                let class = EndpointClass::LoopbackDevelopment;
                match r {
                    Ok(routes) => routes.below(origin.value(), class) && routes.ok() && allowed,
                    Err(e) => e == error::plain(ErrorKind::Api) && forall|routes: StepFunRouteSet|
                        #[trigger] routes.below(origin.value(), class) ==> !(routes.ok()
                            && allowed),
                }
            }),
    {
        StepFunRouteSet::from_origin(origin, EndpointClass::LoopbackDevelopment, allowed)
    }

    /// The routes below an origin. `allowed` is the verdict of the endpoint
    /// policy on that origin. Succeeds exactly when the routes exist, and are
    /// fixed and allowed.
    pub fn from_origin(origin: &UrlParts, class: EndpointClass, allowed: bool) -> (r: Result<
        StepFunRouteSet,
        ClassifiedError,
    >)
        ensures
            match r {
                Ok(routes) => routes.below(origin.value(), class) && routes.ok() && allowed,
                Err(e) => e == error::plain(ErrorKind::Api) && forall|routes: StepFunRouteSet|
                    #[trigger] routes.below(origin.value(), class) ==> !(routes.ok() && allowed),
            },
    {
        let ghost paths = route_paths();
        let homepage = fixed_url(origin, "/");
        let usage = fixed_url(
            origin,
            "/api/step.openapi.devcenter.Dashboard/QueryStepPlanRateLimit",
        );
        let plan_status = fixed_url(
            origin,
            "/api/step.openapi.devcenter.Dashboard/GetStepPlanStatus",
        );
        let register_device = fixed_url(
            origin,
            "/passport/proto.api.passport.v1.PassportService/RegisterDevice",
        );
        let sign_in = fixed_url(
            origin,
            "/passport/proto.api.passport.v1.PassportService/SignInByPassword",
        );
        let refresh = fixed_url(
            origin,
            "/passport/proto.api.passport.v1.PassportService/RefreshToken",
        );
        match (homepage, usage, plan_status, register_device, sign_in, refresh) {
            (
                Ok(homepage),
                Ok(usage),
                Ok(plan_status),
                Ok(register_device),
                Ok(sign_in),
                Ok(refresh),
            ) => {
                let routes = StepFunRouteSet {
                    homepage,
                    usage,
                    plan_status,
                    register_device,
                    sign_in,
                    refresh,
                    class,
                };
                assert(routes.below(origin.value(), class)) by {
                    assert forall|i: int| 0 <= i < routes.routes().len() implies fixed(
                        origin.value(),
                        paths[i],
                    ) == Some(#[trigger] routes.routes()[i]) by {
                        assert(i == 0 || i == 1 || i == 2 || i == 3 || i == 4 || i == 5);
                    }
                }
                match routes.validate(allowed) {
                    Ok(_) => Ok(routes),
                    Err(e) => {
                        assert forall|other: StepFunRouteSet| #[trigger]
                            other.below(origin.value(), class) implies !(other.ok() && allowed) by {
                            assert forall|i: int| 0 <= i < 6 implies other.routes()[i]
                                == routes.routes()[i] by {
                                assert(fixed(origin.value(), paths[i]) == Some(other.routes()[i]));
                                assert(fixed(origin.value(), paths[i]) == Some(routes.routes()[i]));
                            }
                            assert(other.routes() =~= routes.routes());
                        }
                        Err(e)
                    },
                }
            },
            _ => {
                assert forall|other: StepFunRouteSet| #[trigger]
                    other.below(origin.value(), class) implies !(other.ok() && allowed) by {
                    assert(fixed(origin.value(), paths[0]) == Some(other.routes()[0]));
                    assert(fixed(origin.value(), paths[1]) == Some(other.routes()[1]));
                    assert(fixed(origin.value(), paths[2]) == Some(other.routes()[2]));
                    assert(fixed(origin.value(), paths[3]) == Some(other.routes()[3]));
                    assert(fixed(origin.value(), paths[4]) == Some(other.routes()[4]));
                    assert(fixed(origin.value(), paths[5]) == Some(other.routes()[5]));
                }
                Err(ClassifiedError::new(ErrorKind::Api))
            },
        }
    }
}

/// Characters of a token: no ASCII control character, no blank, no semicolon.
pub open spec fn token_char(c: char) -> bool {
    c as u32 > 0x20 && c as u32 != 0x7f && c != ';'
}

/// Whether every character is one of a token.
pub open spec fn token_chars(s: Seq<char>) -> bool {
    forall|i: int| 0 <= i < s.len() ==> token_char(#[trigger] s[i])
}

fn all_token_chars(s: &[char]) -> (r: bool)
    ensures
        r == token_chars(s@),
{
    let mut i: usize = 0;
    while i < s.len()
        invariant
            i <= s@.len(),
            forall|j: int| 0 <= j < i ==> token_char(#[trigger] s@[j]),
        decreases s@.len() - i,
    {
        let code: u32 = s[i] as u32;
        if code <= 0x20 || code == 0x7f || s[i] == ';' {
            assert(!token_char(s@[i as int]));
            return false;
        }
        i += 1;
    }
    true
}

/// Whether a text can be a token.
pub open spec fn token_ok(s: Seq<char>) -> bool {
    s.len() > 0 && text::byte_len(s) <= MAX_TOKEN_BYTES && token_chars(s) && transport::secret_ok(
        "Oasis-Token="@ + s,
    )
}

/// Checks a token.
pub fn validate_token(token: &str) -> (r: Result<(), ClassifiedError>)
    ensures
        match r {
            Ok(_) => token_ok(token@),
            Err(e) => !token_ok(token@) && e == error::plain(ErrorKind::MissingCredential),
        },
{
    let chars = text::chars_of(token);
    if chars.len() == 0 || token.len() > MAX_TOKEN_BYTES || !all_token_chars(chars.as_slice()) {
        return Err(ClassifiedError::new(ErrorKind::MissingCredential));
    }
    let mut cookie = "Oasis-Token=".to_owned();
    cookie.append(token);
    match Authentication::cookie(cookie) {
        Ok(_) => Ok(()),
        Err(_) => Err(ClassifiedError::new(ErrorKind::MissingCredential)),
    }
}

/// Whether a text can be an ingress cookie.
pub open spec fn ingress_ok(s: Seq<char>) -> bool {
    s.len() > 0 && text::byte_len(s) <= MAX_TOKEN_BYTES && token_chars(s)
}

/// Checks an ingress cookie.
pub fn validate_ingress_cookie(value: &str) -> (r: Result<(), ClassifiedError>)
    ensures
        match r {
            Ok(_) => ingress_ok(value@),
            Err(e) => !ingress_ok(value@) && e == error::plain(ErrorKind::AuthenticationExpired),
        },
{
    let chars = text::chars_of(value);
    if chars.len() == 0 || value.len() > MAX_TOKEN_BYTES || !all_token_chars(chars.as_slice()) {
        return Err(ClassifiedError::new(ErrorKind::AuthenticationExpired));
    }
    Ok(())
}

/// Whether a text can be a user name or a password.
pub open spec fn login_field_ok(s: Seq<char>) -> bool {
    text::trimmed(s).len() > 0 && text::byte_len(s) <= MAX_LOGIN_FIELD_BYTES && !s.contains('\0')
}

/// Checks a user name or a password.
pub fn validate_login_field(value: &str) -> (r: Result<(), ClassifiedError>)
    ensures
        match r {
            Ok(_) => login_field_ok(value@),
            Err(e) => !login_field_ok(value@) && e == error::plain(ErrorKind::MissingCredential),
        },
{
    let chars = text::chars_of(value);
    let nul = text::position(chars.as_slice(), '\0', 0);
    proof {
        text::lemma_find_char_bounds(value@, '\0', 0);
        if nul is Some {
            assert(value@[nul->0 as int] == '\0');
        }
    }
    if text::trim(chars.as_slice()).len() == 0 || value.len() > MAX_LOGIN_FIELD_BYTES
        || nul.is_some() {
        return Err(ClassifiedError::new(ErrorKind::MissingCredential));
    }
    Ok(())
}

/// The text behind the first occurrence of a mark.
pub open spec fn behind_mark(s: Seq<char>, mark: Seq<char>) -> Option<Seq<char>> {
    match text::find_from(s, mark, 0) {
        Some(at) => Some(s.skip(at + mark.len())),
        None => None,
    }
}

fn after_mark<'a>(s: &'a [char], mark: &str) -> (r: Option<&'a [char]>)
    ensures
        match r {
            Some(rest) => behind_mark(s@, mark@) == Some(rest@),
            None => behind_mark(s@, mark@) is None,
        },
{
    let wanted = text::chars_of(mark);
    let found = text::find(s, wanted.as_slice(), 0);
    proof {
        text::lemma_find_from_bounds(s@, mark@, 0);
    }
    match found {
        Some(at) => {
            let n: usize = s.len();
            let width: usize = wanted.len();
            let rest = slice_subrange(s, at + width, n);
            assert(rest@ =~= s@.skip(at as int + mark@.len()));
            Some(rest)
        },
        None => None,
    }
}

/// The text before the first `c`, or all of it.
pub open spec fn up_to(s: Seq<char>, c: char) -> Seq<char> {
    match text::find_char(s, c, 0) {
        Some(at) => s.take(at),
        None => s,
    }
}

fn before_char(s: &[char], c: char) -> (r: &[char])
    ensures
        r@ == up_to(s@, c),
{
    proof {
        text::lemma_find_char_bounds(s@, c, 0);
    }
    match text::position(s, c, 0) {
        Some(at) => {
            let r = slice_subrange(s, 0, at);
            assert(r@ =~= s@.take(at as int));
            r
        },
        None => s,
    }
}

/// The token that a text holds: unquoted, and out of a cookie where it is one.
pub open spec fn token_in(raw: Seq<char>) -> Seq<char> {
    let plain = text::trimmed(raw);
    let value = if settings::quoted(plain) {
        text::trimmed(settings::unquoted(plain))
    } else {
        plain
    };
    match behind_mark(value, "Oasis-Token="@) {
        Some(rest) => text::trimmed(up_to(rest, ';')),
        None => value,
    }
}

/// The token that a text holds.
pub fn normalize_token(raw: &[char]) -> (r: Result<String, ClassifiedError>)
    ensures
        match r {
            Ok(token) => token@ == token_in(raw@) && token_ok(token@),
            Err(e) => !token_ok(token_in(raw@)) && e == error::plain(
                ErrorKind::MissingCredential,
            ),
        },
{
    let plain = text::trim(raw);
    let n: usize = plain.len();
    let value = if n >= 2 && ((plain[0] == '"' && plain[n - 1] == '"') || (plain[0] == '\''
        && plain[n - 1] == '\'')) {
        text::trim(settings::unquote(plain))
    } else {
        plain
    };
    let bare = match after_mark(value, "Oasis-Token=") {
        Some(rest) => text::trim(before_char(rest, ';')),
        None => value,
    };
    let token = text::text_of(bare);
    match validate_token(token.as_str()) {
        Ok(_) => Ok(token),
        Err(e) => Err(e),
    }
}

/// A text without a prefix, where it has it.
pub open spec fn without_prefix(s: Seq<char>, prefix: Seq<char>) -> Option<Seq<char>> {
    if text::occurs_at(s, prefix, 0) {
        Some(s.skip(prefix.len() as int))
    } else {
        None
    }
}

fn strip_prefix<'a>(s: &'a [char], prefix: &str) -> (r: Option<&'a [char]>)
    ensures
        match r {
            Some(rest) => without_prefix(s@, prefix@) == Some(rest@),
            None => without_prefix(s@, prefix@) is None,
        },
{
    let wanted = text::chars_of(prefix);
    if text::matches_at(s, wanted.as_slice(), 0) {
        let n: usize = s.len();
        let rest = slice_subrange(s, wanted.len(), n);
        assert(rest@ =~= s@.skip(prefix@.len() as int));
        Some(rest)
    } else {
        None
    }
}

/// Whether an input is a copied command rather than a token or a cookie.
pub open spec fn copied_command(raw: Seq<char>) -> bool {
    let s = text::trimmed(raw);
    text::occurs_at(s, "curl "@, 0) || text::occurs_at(s, "curl\t"@, 0)
}

/// Whether an input is a copied command.
pub fn is_copied_command(raw: &str) -> (r: bool)
    ensures
        r == copied_command(raw@),
{
    let chars = text::chars_of(raw);
    let s = text::trim(chars.as_slice());
    let spaced = text::chars_of("curl ");
    let tabbed = text::chars_of("curl\t");
    text::matches_at(s, spaced.as_slice(), 0) || text::matches_at(s, tabbed.as_slice(), 0)
}

/// The cookie or token that a manual input holds, when it is no copied command.
pub open spec fn plain_candidate(raw: Seq<char>) -> Seq<char> {
    let s = text::trimmed(raw);
    match without_prefix(s, "Cookie:"@) {
        Some(rest) => text::trimmed(rest),
        None => match without_prefix(s, "cookie:"@) {
            Some(rest) => text::trimmed(rest),
            None => s,
        },
    }
}

/// What parsing a copied command gave: its cookie, where it carries one.
pub enum CommandCapture {
    Rejected(ManualCaptureError),
    Cookie(Option<String>),
}

/// The failure class of a rejected capture.
pub open spec fn capture_class(e: ManualCaptureError) -> ErrorKind {
    match e {
        ManualCaptureError::MissingSecret
        | ManualCaptureError::InvalidSecret
        | ManualCaptureError::DisallowedHeader => ErrorKind::MissingCredential,
        ManualCaptureError::InvalidPolicy => ErrorKind::Api,
        _ => ErrorKind::Parse,
    }
}

/// Classifies a rejected capture.
pub fn classify_capture_error(e: ManualCaptureError) -> (r: ClassifiedError)
    ensures
        r == error::plain(capture_class(e)),
{
    match e {
        ManualCaptureError::MissingSecret
        | ManualCaptureError::InvalidSecret
        | ManualCaptureError::DisallowedHeader => ClassifiedError::new(
            ErrorKind::MissingCredential,
        ),
        ManualCaptureError::InvalidPolicy => ClassifiedError::new(ErrorKind::Api),
        ManualCaptureError::InputTooLarge
        | ManualCaptureError::InvalidSyntax
        | ManualCaptureError::UnsafeSyntax
        | ManualCaptureError::UnsafeOption
        | ManualCaptureError::TooManyTokens
        | ManualCaptureError::TooManyHeaders
        | ManualCaptureError::DuplicateSecret
        | ManualCaptureError::ConflictingHeader
        | ManualCaptureError::DisallowedUrl => ClassifiedError::new(ErrorKind::Parse),
    }
}

/// The token that a manual input holds, or its failure. `capture` is what
/// parsing a copied command gives.
pub open spec fn manual_token(raw: Seq<char>, capture: CommandCapture) -> Result<
    Seq<char>,
    ErrorKind,
> {
    if text::trimmed(raw).len() == 0 {
        Err(ErrorKind::MissingCredential)
    } else if copied_command(raw) {
        match capture {
            CommandCapture::Rejected(e) => Err(capture_class(e)),
            CommandCapture::Cookie(None) => Err(ErrorKind::MissingCredential),
            CommandCapture::Cookie(Some(cookie)) => if token_ok(token_in(cookie@)) {
                Ok(token_in(cookie@))
            } else {
                Err(ErrorKind::MissingCredential)
            },
        }
    } else if token_ok(token_in(plain_candidate(raw))) {
        Ok(token_in(plain_candidate(raw)))
    } else {
        Err(ErrorKind::MissingCredential)
    }
}

/// The token that a manual input holds.
pub fn token_from_manual_input(raw: &str, capture: &CommandCapture) -> (r: Result<
    String,
    ClassifiedError,
>)
    ensures
        match r {
            Ok(token) => manual_token(raw@, *capture) == Ok::<_, ErrorKind>(token@),
            Err(e) => manual_token(raw@, *capture) is Err && e == error::plain(
                manual_token(raw@, *capture)->Err_0,
            ),
        },
{
    let chars = text::chars_of(raw);
    let s = text::trim(chars.as_slice());
    if s.len() == 0 {
        return Err(ClassifiedError::new(ErrorKind::MissingCredential));
    }
    if is_copied_command(raw) {
        match capture {
            CommandCapture::Rejected(e) => Err(classify_capture_error(*e)),
            CommandCapture::Cookie(None) => Err(
                ClassifiedError::new(ErrorKind::MissingCredential),
            ),
            CommandCapture::Cookie(Some(cookie)) => {
                let held = text::chars_of(cookie.as_str());
                normalize_token(held.as_slice())
            },
        }
    } else {
        let candidate = match strip_prefix(s, "Cookie:") {
            Some(rest) => text::trim(rest),
            None => match strip_prefix(s, "cookie:") {
                Some(rest) => text::trim(rest),
                None => s,
            },
        };
        normalize_token(candidate)
    }
}

/// The claims document of one half of a token.
pub open spec fn half_claims(half: Seq<char>) -> Option<Seq<u8>> {
    let parts = text::pieces(half, '.');
    if parts.len() < 2 || parts[1].len() == 0 || text::byte_len(parts[1]) > MAX_TOKEN_BYTES {
        None
    } else {
        encoding::url_safe(parts[1])
    }
}

/// Whether a text can be a device identifier.
pub open spec fn device_ok(s: Seq<char>) -> bool {
    s.len() > 0 && text::byte_len(s) <= MAX_IDENTITY_BYTES && token_chars(s)
}

/// The device that a claims document names.
pub open spec fn claimed_device(claims: Tree) -> Option<Seq<char>> {
    match json::field(claims, "device_id"@) {
        Some(Tree::Text(raw)) => if device_ok(text::trimmed(raw)) {
            Some(text::trimmed(raw))
        } else {
            None
        },
        _ => None,
    }
}

/// The device that a claims document names.
pub fn device_from_claims(claims: &Json) -> (r: Option<String>)
    ensures
        r.deep_view() == claimed_device(claims.tree()),
{
    match claims.get("device_id") {
        Some(Json::Text(raw)) => {
            let id = text::trim_text(raw.as_str());
            let chars = text::chars_of(id.as_str());
            if chars.len() == 0 || id.as_str().len() > MAX_IDENTITY_BYTES || !all_token_chars(
                chars.as_slice(),
            ) {
                None
            } else {
                Some(id)
            }
        },
        _ => None,
    }
}

/// The device that one half of a token names.
pub open spec fn device_of(half: Seq<char>) -> Option<Seq<char>> {
    match half_claims(half) {
        Some(bytes) => if bytes.len() > MAX_JSON_TEXT_BYTES {
            None
        } else {
            match json::parsed_json(bytes) {
                Some(claims) => claimed_device(claims),
                None => None,
            }
        },
        None => None,
    }
}

/// The device that one half of a token names.
pub fn extract_device_id(half: &[char]) -> (r: Option<String>)
    ensures
        r.deep_view() == device_of(half@),
{
    let parts = text::split(half, '.');
    let ghost all = text::pieces(half@, '.');
    if parts.len() < 2 {
        return None;
    }
    assert(parts@[1]@ == all[1]);
    let payload = text::text_of(parts[1]);
    if payload.as_str().is_empty() || payload.as_str().len() > MAX_TOKEN_BYTES {
        return None;
    }
    let bytes = match encoding::decode_url_safe(payload.as_str()) {
        Some(bytes) => bytes,
        None => return None,
    };
    if bytes.len() > MAX_JSON_TEXT_BYTES {
        return None;
    }
    match json::parse(bytes.as_slice()) {
        Some(claims) => device_from_claims(&claims),
        None => None,
    }
}

/// Where the last occurrence of a mark that ends at or before `end` starts.
pub open spec fn last_mark(s: Seq<char>, mark: Seq<char>, end: int) -> Option<int>
    decreases end,
{
    if end < mark.len() || end <= 0 {
        None
    } else if text::occurs_at(s, mark, end - mark.len()) {
        Some(end - mark.len())
    } else {
        last_mark(s, mark, end - 1)
    }
}

/// The device that the halves of a token name, the last half first.
pub open spec fn device_in(s: Seq<char>) -> Option<Seq<char>>
    decreases s.len(),
{
    match last_mark(s, "..."@, s.len() as int) {
        Some(at) => if 0 <= at < s.len() {
            match device_of(s.skip(at + "..."@.len())) {
                Some(device) => Some(device),
                None => device_in(s.take(at)),
            }
        } else {
            None
        },
        None => device_of(s),
    }
}

/// The web identifier that goes with a token.
pub open spec fn web_id_of(token: Seq<char>) -> Seq<char> {
    match device_in(token) {
        Some(device) => device,
        None => "c8a1002d2c457e758785a9979832217c7c0b884c"@,
    }
}

fn find_last_mark(s: &[char], mark: &[char]) -> (r: Option<usize>)
    requires
        mark@.len() > 0,
    ensures
        match r {
            Some(at) => last_mark(s@, mark@, s@.len() as int) == Some(at as int) && at + mark@.len()
                <= s@.len(),
            None => last_mark(s@, mark@, s@.len() as int) is None,
        },
{
    let mut end: usize = s.len();
    let width: usize = mark.len();
    while end >= width
        invariant
            end <= s@.len(),
            width == mark@.len(),
            width > 0,
            last_mark(s@, mark@, s@.len() as int) == last_mark(s@, mark@, end as int),
        decreases end,
    {
        if text::matches_at(s, mark, end - width) {
            return Some(end - width);
        }
        end -= 1;
    }
    None
}

/// The web identifier that goes with a token.
pub fn web_id_for_token(token: &str) -> (r: String)
    ensures
        r@ == web_id_of(token@),
{
    let chars = text::chars_of(token);
    let mark = text::chars_of("...");
    proof {
        reveal_strlit("...");
    }
    let mut rest = chars.as_slice();
    let mut searching = true;
    while searching
        invariant
            mark@ == "..."@,
            mark@.len() == 3,
            searching ==> device_in(token@) == device_in(rest@),
            !searching ==> device_in(token@) is None,
        decreases
            rest@.len(),
            if searching {
                1int
            } else {
                0
            },
    {
        match find_last_mark(rest, mark.as_slice()) {
            Some(at) => {
                let n: usize = rest.len();
                let half = slice_subrange(rest, at + 3, n);
                assert(half@ =~= rest@.skip(at + 3));
                if let Some(device) = extract_device_id(half) {
                    return device;
                }
                let before = slice_subrange(rest, 0, at);
                assert(before@ =~= rest@.take(at as int));
                rest = before;
            },
            None => {
                if let Some(device) = extract_device_id(rest) {
                    return device;
                }
                searching = false;
            },
        }
    }
    "c8a1002d2c457e758785a9979832217c7c0b884c".to_owned()
}

/// The cookie of an authenticated request.
pub open spec fn session_cookie(token: Seq<char>) -> Seq<char> {
    "Oasis-Token="@ + token + "; Oasis-Webid="@ + web_id_of(token)
}

/// The cookie of an authenticated request.
pub fn session_cookie_for(token: &str) -> (r: String)
    ensures
        r@ == session_cookie(token@),
{
    let mut cookie = "Oasis-Token=".to_owned();
    cookie.append(token);
    cookie.append("; Oasis-Webid=");
    let web_id = web_id_for_token(token);
    cookie.append(web_id.as_str());
    cookie
}

/// The user agent that requests name.
pub open spec fn user_agent() -> Seq<char> {
    "Mozilla/5.0 (Macintosh; Intel Mac OS X 10_15_7) AppleWebKit/537.36 (KHTML, like Gecko) Chrome/147.0.0.0 Safari/537.36"@
}

/// The public headers of a request.
pub open spec fn public_metadata() -> Seq<(Seq<char>, Seq<char>)> {
    seq![
        ("oasis-appid"@, "10300"@),
        ("oasis-platform"@, "web"@),
        ("user-agent"@, user_agent()),
    ]
}

/// The sensitive headers of a request.
pub open spec fn sensitive_metadata(token: Seq<char>, token_header: bool) -> Seq<
    (Seq<char>, Seq<char>),
> {
    let base = seq![("oasis-webid"@, web_id_of(token))];
    if token_header {
        base.push(("oasis-token"@, token))
    } else {
        base
    }
}

/// Whether a token can be sent.
pub open spec fn sendable(token: Seq<char>, token_header: bool) -> bool {
    transport::secret_ok(session_cookie(token)) && (token_header ==> transport::secret_ok(token)
        && text::byte_len(token) <= transport::MAX_PUBLIC_HEADER_VALUE_BYTES)
}

proof fn lemma_web_id_sendable(token: Seq<char>)
    ensures
        transport::secret_ok(web_id_of(token)),
        text::byte_len(web_id_of(token)) <= transport::MAX_PUBLIC_HEADER_VALUE_BYTES,
{
    lemma_device_ok(token);
    if device_in(token) is Some {
        let device = device_in(token)->0;
        assert(token_chars(device));
        assert forall|i: int| 0 <= i < device.len() implies device[i] != '\r' && device[i]
            != '\n' by {
            assert(token_char(device[i]));
        }
    } else {
        reveal_strlit("c8a1002d2c457e758785a9979832217c7c0b884c");
        vstd::utf8::is_ascii_chars_encode_utf8("c8a1002d2c457e758785a9979832217c7c0b884c"@);
    }
}

proof fn lemma_device_ok(s: Seq<char>)
    ensures
        device_in(s) is Some ==> device_ok(device_in(s)->0),
    decreases s.len(),
{
    match last_mark(s, "..."@, s.len() as int) {
        Some(at) => {
            if 0 <= at < s.len() {
                lemma_device_ok(s.take(at));
            }
        },
        None => {},
    }
}

proof fn lemma_header_names()
    ensures
        transport::metadata_name("oasis-appid"@),
        transport::metadata_name("oasis-platform"@),
        transport::metadata_name("oasis-webid"@),
        transport::metadata_name("oasis-token"@),
        transport::metadata_name("user-agent"@),
        "oasis-appid"@ != "oasis-platform"@,
        "oasis-appid"@ != "oasis-webid"@,
        "oasis-appid"@ != "oasis-token"@,
        "oasis-platform"@ != "oasis-webid"@,
        "oasis-platform"@ != "oasis-token"@,
        "oasis-webid"@ != "oasis-token"@,
        "user-agent"@ != "oasis-appid"@,
        "user-agent"@ != "oasis-platform"@,
        "user-agent"@ != "oasis-webid"@,
        "user-agent"@ != "oasis-token"@,
{
    transport::reveal_reserved();
    reveal_strlit("oasis-appid");
    reveal_strlit("oasis-platform");
    reveal_strlit("oasis-webid");
    reveal_strlit("oasis-token");
    reveal_strlit("user-agent");
    assert(text::lower("oasis-appid"@) =~= "oasis-appid"@);
    assert(text::lower("oasis-platform"@) =~= "oasis-platform"@);
    assert(text::lower("oasis-webid"@) =~= "oasis-webid"@);
    assert(text::lower("oasis-token"@) =~= "oasis-token"@);
    assert(text::lower("user-agent"@) =~= "user-agent"@);
    assert("oasis-appid"@[6] == 'a' && "oasis-webid"@[6] == 'w' && "oasis-token"@[6] == 't');
}

proof fn lemma_header_values()
    ensures
        transport::header_value_ok("10300"@),
        transport::header_value_ok("web"@),
        transport::header_value_ok(user_agent()),
        text::byte_len("10300"@) <= transport::MAX_PUBLIC_HEADER_VALUE_BYTES,
        text::byte_len("web"@) <= transport::MAX_PUBLIC_HEADER_VALUE_BYTES,
        text::byte_len(user_agent()) <= transport::MAX_PUBLIC_HEADER_VALUE_BYTES,
{
    reveal_strlit("10300");
    reveal_strlit("web");
    reveal_strlit(
        "Mozilla/5.0 (Macintosh; Intel Mac OS X 10_15_7) AppleWebKit/537.36 (KHTML, like Gecko) Chrome/147.0.0.0 Safari/537.36",
    );
    vstd::utf8::is_ascii_chars_encode_utf8("10300"@);
    vstd::utf8::is_ascii_chars_encode_utf8("web"@);
    vstd::utf8::is_ascii_chars_encode_utf8(user_agent());
}

/// An authenticated request: an empty JSON object posted under the session's
/// cookie.
pub fn authenticated_post(endpoint: &str, token: &str, token_header: bool) -> (r: Result<
    HttpRequest,
    ClassifiedError,
>)
    ensures
        match r {
            Ok(q) => sendable(token@, token_header) && q.method == Method::Post && q.url@
                == endpoint@ && q.body@ == seq![123u8, 125u8] && q.accept == Some(
                RequestAccept::Json,
            ) && q.content_type == Some(RequestContentType::Json) && q.public_headers.deep_view()
                == public_metadata() && q.sensitive_headers.deep_view() == sensitive_metadata(
                token@,
                token_header,
            ) && q.accepted_statuses@.len() == 0 && q.response_headers@.len() == 0
                && q.authentication is Some && q.authentication->0.header_view() == (
                "cookie"@,
                session_cookie(token@),
            ) && q.wf(),
            Err(e) => !sendable(token@, token_header) && e == error::plain(ErrorKind::Api),
        },
{
    proof {
        lemma_header_names();
        lemma_header_values();
        lemma_web_id_sendable(token@);
    }
    let web_id = web_id_for_token(token);
    let authentication = match Authentication::cookie(session_cookie_for(token)) {
        Ok(authentication) => authentication,
        Err(e) => return Err(e.classified()),
    };
    let body: Vec<u8> = vec![123, 125];
    assert(body@ =~= seq![123u8, 125u8]);
    let base = match HttpRequest::post_json(endpoint.to_owned(), body) {
        Ok(q) => q,
        Err(e) => return Err(e.classified()),
    };
    assert(base.public_headers.deep_view() =~= seq![]);
    assert(base.sensitive_headers.deep_view() =~= seq![]);
    let first = match base.public_header("oasis-appid", "10300") {
        Ok(q) => q,
        Err(e) => return Err(e.classified()),
    };
    assert(first.public_headers.deep_view() =~= seq![("oasis-appid"@, "10300"@)]);
    let second = match first.public_header("oasis-platform", "web") {
        Ok(q) => q,
        Err(e) => return Err(e.classified()),
    };
    assert(second.public_headers.deep_view() =~= seq![
        ("oasis-appid"@, "10300"@),
        ("oasis-platform"@, "web"@),
    ]);
    let third = match second.sensitive_header("oasis-webid", web_id) {
        Ok(q) => q,
        Err(e) => return Err(e.classified()),
    };
    assert(third.sensitive_headers.deep_view() =~= sensitive_metadata(token@, false));
    let fourth = match third.public_header(
        "user-agent",
        "Mozilla/5.0 (Macintosh; Intel Mac OS X 10_15_7) AppleWebKit/537.36 (KHTML, like Gecko) Chrome/147.0.0.0 Safari/537.36",
    ) {
        Ok(q) => q,
        Err(e) => return Err(e.classified()),
    };
    assert(fourth.public_headers.deep_view() =~= public_metadata());
    let request = fourth.authentication(authentication);
    assert(request.public_headers.deep_view() =~= public_metadata());
    assert(request.sensitive_headers.deep_view() =~= sensitive_metadata(token@, false));
    if token_header {
        match request.sensitive_header("oasis-token", token.to_owned()) {
            Ok(q) => {
                assert(q.sensitive_headers.deep_view() =~= sensitive_metadata(token@, true));
                Ok(q)
            },
            Err(e) => Err(e.classified()),
        }
    } else {
        Ok(request)
    }
}

/// Classifies a failed usage request.
pub open spec fn required_class(e: TransportError) -> ClassifiedError {
    match e {
        TransportError::AuthenticationExpired | TransportError::PermissionDenied => error::plain(
            ErrorKind::AuthenticationExpired,
        ),
        TransportError::RequestTimeout
        | TransportError::RateLimited { .. }
        | TransportError::ProviderUnavailable { .. }
        | TransportError::Api { .. } => error::plain(ErrorKind::Api),
        TransportError::TooManyRedirects => error::plain(ErrorKind::Network),
        _ => e.as_class(e.class()),
    }
}

/// Classifies a failed usage request.
pub fn classify_required_transport(e: &TransportError) -> (r: ClassifiedError)
    ensures
        r == required_class(*e),
{
    match e {
        TransportError::AuthenticationExpired | TransportError::PermissionDenied => {
            ClassifiedError::new(ErrorKind::AuthenticationExpired)
        },
        TransportError::RequestTimeout
        | TransportError::RateLimited { .. }
        | TransportError::ProviderUnavailable { .. }
        | TransportError::Api { .. } => ClassifiedError::new(ErrorKind::Api),
        TransportError::TooManyRedirects => ClassifiedError::new(ErrorKind::Network),
        _ => e.classified(),
    }
}

/// Classifies a failed refresh.
pub fn classify_refresh_transport(e: &TransportError) -> (r: ClassifiedError)
    ensures
        r == required_class(*e),
{
    classify_required_transport(e)
}

/// The failure of a sign-in step with a status.
pub open spec fn login_failure(status: u16) -> ErrorKind {
    if status == 401 || status == 403 {
        ErrorKind::AuthenticationExpired
    } else {
        ErrorKind::Api
    }
}

/// Classifies the status of a sign-in step.
pub fn classify_login_status(status: u16) -> (r: ClassifiedError)
    ensures
        r == error::plain(login_failure(status)),
{
    ClassifiedError::new(
        if status == 401 || status == 403 {
            ErrorKind::AuthenticationExpired
        } else {
            ErrorKind::Api
        },
    )
}

/// Asks for the status of success.
pub fn require_login_success(status: u16) -> (r: Result<(), ClassifiedError>)
    ensures
        match r {
            Ok(_) => status == 200,
            Err(e) => status != 200 && e == error::plain(login_failure(status)),
        },
{
    if status == 200 {
        Ok(())
    } else {
        Err(classify_login_status(status))
    }
}

/// A redirect target that is short and readable.
pub fn response_location(location: &Option<Vec<u8>>) -> (r: Result<Option<String>, ClassifiedError>)
    ensures
        match r {
            Ok(found) => match *location {
                Some(raw) => raw@.len() <= MAX_REDIRECT_LOCATION_BYTES && transport::visible_text(
                    raw@,
                ) is Some && found.deep_view() == transport::visible_text(raw@),
                None => found is None,
            },
            Err(e) => *location is Some && ((*location)->0@.len() > MAX_REDIRECT_LOCATION_BYTES
                || transport::visible_text((*location)->0@) is None) && e == error::plain(
                ErrorKind::Parse,
            ),
        },
{
    match location {
        None => Ok(None),
        Some(raw) => {
            if raw.len() > MAX_REDIRECT_LOCATION_BYTES {
                return Err(ClassifiedError::new(ErrorKind::Parse));
            }
            match transport::header_text(raw.as_slice()) {
                Some(found) => Ok(Some(found)),
                None => Err(ClassifiedError::new(ErrorKind::Parse)),
            }
        },
    }
}

/// The ingress cookie that one header sets.
pub open spec fn ingress_value(header: Seq<char>) -> Option<Seq<char>> {
    match behind_mark(header, "INGRESSCOOKIE="@) {
        Some(rest) => Some(text::trimmed(up_to(up_to(rest, ';'), ','))),
        None => None,
    }
}

/// Bytes of the first `n` headers.
pub open spec fn header_bytes(headers: Seq<Vec<u8>>, n: int) -> int
    decreases n,
{
    if n <= 0 {
        0
    } else {
        header_bytes(headers, n - 1) + headers[n - 1]@.len()
    }
}

/// The ingress cookie that the first `n` headers set, the last one before all.
pub open spec fn ingress_after(headers: Seq<Vec<u8>>, n: int) -> Result<
    Option<Seq<char>>,
    ErrorKind,
>
    decreases n,
{
    if n <= 0 {
        Ok(None)
    } else {
        match ingress_after(headers, n - 1) {
            Err(kind) => Err(kind),
            Ok(selected) => if n > MAX_SET_COOKIE_HEADERS || header_bytes(headers, n)
                > MAX_SET_COOKIE_BYTES {
                Err(ErrorKind::Parse)
            } else {
                match transport::visible_text(headers[n - 1]@) {
                    None => Err(ErrorKind::Parse),
                    Some(header) => match ingress_value(header) {
                        None => Ok(selected),
                        Some(value) => if ingress_ok(value) {
                            Ok(Some(value))
                        } else {
                            Err(ErrorKind::AuthenticationExpired)
                        },
                    },
                }
            },
        }
    }
}

proof fn lemma_ingress_failure(headers: Seq<Vec<u8>>, n: int, m: int)
    requires
        0 <= n <= m,
        ingress_after(headers, n) is Err,
    ensures
        ingress_after(headers, m) == ingress_after(headers, n),
    decreases m - n,
{
    if n < m {
        lemma_ingress_failure(headers, n, m - 1);
    }
}

/// The ingress cookie that headers set.
pub fn ingress_cookie_from_headers(headers: &Vec<Vec<u8>>) -> (r: Result<
    Option<String>,
    ClassifiedError,
>)
    ensures
        ({
            let expected = ingress_after(headers@, headers@.len() as int);
            match r {
                Ok(selected) => expected == Ok::<_, ErrorKind>(selected.deep_view()),
                Err(e) => expected is Err && e == error::plain(expected->Err_0),
            }
        }),
{
    let mut selected: Option<String> = None;
    let mut total: usize = 0;
    let mut i: usize = 0;
    while i < headers.len()
        invariant
            i <= headers@.len(),
            i <= MAX_SET_COOKIE_HEADERS,
            total == header_bytes(headers@, i as int),
            total <= MAX_SET_COOKIE_BYTES,
            ingress_after(headers@, i as int) == Ok::<_, ErrorKind>(selected.deep_view()),
        decreases headers@.len() - i,
    {
        proof {
            if ingress_after(headers@, i as int + 1) is Err {
                lemma_ingress_failure(headers@, i as int + 1, headers@.len() as int);
            }
        }
        let size: usize = headers[i].len();
        if i >= MAX_SET_COOKIE_HEADERS || size > MAX_SET_COOKIE_BYTES - total {
            return Err(ClassifiedError::new(ErrorKind::Parse));
        }
        total += size;
        let header = match transport::header_text(headers[i].as_slice()) {
            Some(header) => header,
            None => return Err(ClassifiedError::new(ErrorKind::Parse)),
        };
        let chars = text::chars_of(header.as_str());
        if let Some(rest) = after_mark(chars.as_slice(), "INGRESSCOOKIE=") {
            let value = text::text_of(text::trim(before_char(before_char(rest, ';'), ',')));
            if let Err(e) = validate_ingress_cookie(value.as_str()) {
                return Err(e);
            }
            selected = Some(value);
        }
        i += 1;
    }
    Ok(selected)
}

/// The visit of the homepage under way.
pub struct HomepageVisit {
    pub url: String,
    pub redirects: u8,
    pub ingress: Option<String>,
}

/// What to do after a response of the homepage.
pub enum HomepageStep {
    /// Follow a redirect, once the endpoint policy allows its target.
    Follow(HomepageVisit),
    /// The ingress cookie.
    Done(String),
}

/// What a visit has as ingress cookie after a response.
pub open spec fn kept_ingress(visit: HomepageVisit, received: Option<String>) -> Option<Seq<char>> {
    match received {
        Some(value) => Some(value@),
        None => visit.ingress.deep_view(),
    }
}

/// Why a response of the homepage ends the visit without a cookie.
pub open spec fn homepage_failure(
    visit: HomepageVisit,
    status: u16,
    location: Option<String>,
    received: Option<String>,
) -> Option<ErrorKind> {
    if 300 <= status <= 399 {
        if visit.redirects >= MAX_HOMEPAGE_REDIRECTS {
            Some(ErrorKind::Network)
        } else if location is None || exchange::joined_url(visit.url@, location->0@) is None {
            Some(ErrorKind::Parse)
        } else {
            None
        }
    } else if !(200 <= status <= 299) {
        Some(login_failure(status))
    } else if kept_ingress(visit, received) is None {
        Some(ErrorKind::AuthenticationExpired)
    } else {
        None
    }
}

impl HomepageVisit {
    /// A visit before its first request.
    pub fn start(homepage: &str) -> (r: HomepageVisit)
        ensures
            r.url@ == homepage@,
            r.redirects == 0,
            r.ingress is None,
    {
        HomepageVisit { url: homepage.to_owned(), redirects: 0, ingress: None }
    }

    /// Takes a response: follows a bounded number of redirects and ends with the
    /// last ingress cookie received.
    pub fn on_response(self, status: u16, location: Option<String>, received: Option<String>) -> (r:
        Result<HomepageStep, ClassifiedError>)
        ensures
            match r {
                Ok(HomepageStep::Done(value)) => homepage_failure(
                    self,
                    status,
                    location,
                    received,
                ) is None && 200 <= status <= 299 && kept_ingress(self, received) == Some(value@),
                Ok(HomepageStep::Follow(next)) => homepage_failure(
                    self,
                    status,
                    location,
                    received,
                ) is None && 300 <= status <= 399 && next.redirects == self.redirects + 1
                    && next.ingress.deep_view() == kept_ingress(self, received)
                    && exchange::joined_url(self.url@, location->0@) == Some(next.url@),
                Err(e) => homepage_failure(self, status, location, received) is Some && e
                    == error::plain(homepage_failure(self, status, location, received)->0),
            },
    {
        let ingress = match received {
            Some(value) => Some(value),
            None => self.ingress,
        };
        if 300 <= status && status <= 399 {
            if self.redirects >= MAX_HOMEPAGE_REDIRECTS {
                return Err(ClassifiedError::new(ErrorKind::Network));
            }
            let target = match location {
                Some(reference) => reference,
                None => return Err(ClassifiedError::new(ErrorKind::Parse)),
            };
            return match exchange::join_url(self.url.as_str(), target.as_str()) {
                Some(url) => Ok(
                    HomepageStep::Follow(
                        HomepageVisit { url, redirects: self.redirects + 1, ingress },
                    ),
                ),
                None => Err(ClassifiedError::new(ErrorKind::Parse)),
            };
        }
        if !(200 <= status && status <= 299) {
            return Err(classify_login_status(status));
        }
        match ingress {
            Some(value) => Ok(HomepageStep::Done(value)),
            None => Err(ClassifiedError::new(ErrorKind::AuthenticationExpired)),
        }
    }
}

/// The cookie that carries an ingress cookie alone.
pub fn ingress_header(ingress: &str) -> (r: Result<String, ClassifiedError>)
    ensures
        match r {
            Ok(cookie) => ingress_ok(ingress@) && cookie@ == "INGRESSCOOKIE="@ + ingress@
                && transport::header_value_ok(cookie@),
            Err(e) => if ingress_ok(ingress@) {
                !transport::header_value_ok("INGRESSCOOKIE="@ + ingress@) && e == error::plain(
                    ErrorKind::Api,
                )
            } else {
                e == error::plain(ErrorKind::AuthenticationExpired)
            },
        },
{
    if let Err(e) = validate_ingress_cookie(ingress) {
        return Err(e);
    }
    let mut cookie = "INGRESSCOOKIE=".to_owned();
    cookie.append(ingress);
    if !transport::is_header_value(cookie.as_str()) {
        return Err(ClassifiedError::new(ErrorKind::Api));
    }
    Ok(cookie)
}

/// The fields of a password sign-in.
pub struct PasswordCredentials {
    pub username: String,
    pub password: String,
}

impl PasswordCredentials {
    /// Checks the fields of a sign-in.
    pub fn new(username: &str, password: &str) -> (r: Result<PasswordCredentials, ClassifiedError>)
        ensures
            match r {
                Ok(c) => login_field_ok(username@) && login_field_ok(password@) && c.username@
                    == username@ && c.password@ == password@,
                Err(e) => !(login_field_ok(username@) && login_field_ok(password@)) && e
                    == error::plain(ErrorKind::MissingCredential),
            },
    {
        validate_login_field(username)?;
        validate_login_field(password)?;
        Ok(PasswordCredentials { username: username.to_owned(), password: password.to_owned() })
    }
}

/// The web identifier of a visitor that has no token.
pub open spec fn visitor_web_id() -> Seq<char> {
    "c8a1002d2c457e758785a9979832217c7c0b884c"@
}

/// The headers of a request of the sign-in, with its cookie where there is one.
pub open spec fn login_metadata(anonymous: Option<Seq<char>>, cookie: Option<Seq<char>>) -> Seq<
    (Seq<char>, Seq<char>),
> {
    let base = seq![
        ("content-type"@, "application/json"@),
        ("oasis-appid"@, "10300"@),
        ("oasis-platform"@, "web"@),
        (
            "oasis-webid"@,
            match anonymous {
                Some(token) => web_id_of(token),
                None => visitor_web_id(),
            },
        ),
        ("user-agent"@, user_agent()),
    ];
    match cookie {
        Some(value) => base.push(("cookie"@, value)),
        None => base,
    }
}

/// The headers of a request of the sign-in. `anonymous` is the token of the
/// registered device, once there is one.
pub fn login_headers(anonymous: &Option<String>, cookie: Option<String>) -> (r: Vec<
    (String, String),
>)
    ensures
        r.deep_view() == login_metadata(anonymous.deep_view(), cookie.deep_view()),
{
    let web_id = match anonymous {
        Some(token) => web_id_for_token(token.as_str()),
        None => "c8a1002d2c457e758785a9979832217c7c0b884c".to_owned(),
    };
    let agent = "Mozilla/5.0 (Macintosh; Intel Mac OS X 10_15_7) AppleWebKit/537.36 (KHTML, like Gecko) Chrome/147.0.0.0 Safari/537.36";
    let mut headers: Vec<(String, String)> = vec![
        ("content-type".to_owned(), "application/json".to_owned()),
        ("oasis-appid".to_owned(), "10300".to_owned()),
        ("oasis-platform".to_owned(), "web".to_owned()),
        ("oasis-webid".to_owned(), web_id),
        ("user-agent".to_owned(), agent.to_owned()),
    ];
    let ghost base = headers.deep_view();
    assert(base =~= login_metadata(anonymous.deep_view(), None));
    if let Some(value) = cookie {
        let ghost sent = value@;
        headers.push(("cookie".to_owned(), value));
        assert(headers.deep_view() =~= base.push(("cookie"@, sent)));
    }
    headers
}

/// The cookie of the sign-in.
pub open spec fn sign_in_cookie(anonymous: Seq<char>, ingress: Seq<char>) -> Seq<char> {
    session_cookie(anonymous) + "; INGRESSCOOKIE="@ + ingress
}

/// The cookie of the sign-in, or its failure.
pub fn sign_in_header(anonymous: &str, ingress: &str) -> (r: Result<String, ClassifiedError>)
    ensures
        match r {
            Ok(cookie) => ingress_ok(ingress@) && token_ok(anonymous@) && cookie@ == sign_in_cookie(
                anonymous@,
                ingress@,
            ) && transport::header_value_ok(cookie@),
            Err(e) => if !ingress_ok(ingress@) {
                e == error::plain(ErrorKind::AuthenticationExpired)
            } else if !token_ok(anonymous@) {
                e == error::plain(ErrorKind::MissingCredential)
            } else {
                !transport::header_value_ok(sign_in_cookie(anonymous@, ingress@)) && e
                    == error::plain(ErrorKind::Api)
            },
        },
{
    if let Err(e) = validate_ingress_cookie(ingress) {
        return Err(e);
    }
    if let Err(e) = validate_token(anonymous) {
        return Err(e);
    }
    let mut cookie = session_cookie_for(anonymous);
    cookie.append("; INGRESSCOOKIE=");
    cookie.append(ingress);
    if !transport::is_header_value(cookie.as_str()) {
        return Err(ClassifiedError::new(ErrorKind::Api));
    }
    Ok(cookie)
}

/// The document of a sign-in.
pub open spec fn login_tree(username: Seq<char>, password: Seq<char>) -> Tree {
    Tree::Object(
        seq!["username"@, "password"@],
        seq![Tree::Text(username), Tree::Text(password)],
    )
}

/// The text of a sign-in.
pub fn login_body(username: &str, password: &str) -> (r: String)
    ensures
        r@ == json::rendered(login_tree(username@, password@)),
{
    let ghost whole = login_tree(username@, password@);
    let body = Json::Object(
        vec![
            ("username".to_owned(), json::owned_text(username)),
            ("password".to_owned(), json::owned_text(password)),
        ],
    );
    assert(json::keys(body.tree()) =~= json::keys(whole));
    assert(json::children(body.tree()) =~= json::children(whole));
    json::render(&body)
}

/// The token of a pair of tokens, or its failure: the access token, joined with
/// the refresh token where that one is usable.
pub open spec fn received_token(
    access: Option<Seq<char>>,
    refresh: Option<Seq<char>>,
    missing: ErrorKind,
) -> Result<Seq<char>, ErrorKind> {
    if access is None || !token_ok(access->0) {
        Err(missing)
    } else if refresh is None || !token_ok(refresh->0) {
        Ok(access->0)
    } else {
        let combined = access->0 + "..."@ + refresh->0;
        if token_ok(combined) {
            Ok(combined)
        } else {
            Err(ErrorKind::MissingCredential)
        }
    }
}

/// The token of a pair of tokens.
pub fn combine_tokens(access: Option<String>, refresh: Option<String>, missing: ErrorKind) -> (r:
    Result<String, ClassifiedError>)
    ensures
        ({
            let expected = received_token(access.deep_view(), refresh.deep_view(), missing);
            match r {
                Ok(token) => expected == Ok::<_, ErrorKind>(token@) && token_ok(token@),
                Err(e) => expected is Err && e == error::plain(expected->Err_0),
            }
        }),
{
    let access = match access {
        Some(token) => token,
        None => return Err(ClassifiedError::new(missing)),
    };
    if validate_token(access.as_str()).is_err() {
        return Err(ClassifiedError::new(missing));
    }
    let refresh = match refresh {
        Some(token) => token,
        None => return Ok(access),
    };
    if validate_token(refresh.as_str()).is_err() {
        return Ok(access);
    }
    let mut combined = access;
    combined.append("...");
    combined.append(refresh.as_str());
    match validate_token(combined.as_str()) {
        Ok(_) => Ok(combined),
        Err(e) => Err(e),
    }
}

/// Where an account's reading stands.
#[derive(Debug, Clone, Copy, PartialEq, Eq, Structural)]
pub enum Stage {
    First,
    Refreshed,
    SignedIn,
}

/// What to do next in reading an account.
#[derive(Debug, Clone, Copy, PartialEq, Eq, Structural)]
pub enum NextStep {
    /// Ask for the usage with the token at hand.
    Query { stage: Stage },
    /// Refresh the token at hand.
    Refresh,
    /// Sign in anew.
    SignIn,
    /// The usage is read; keep the token at hand where told.
    Done { keep_token: bool },
    Fail(ClassifiedError),
}

/// What follows a usage request.
pub open spec fn after_query(
    stage: Stage,
    can_sign_in: bool,
    outcome: Result<(), ClassifiedError>,
) -> NextStep {
    match outcome {
        Ok(_) => NextStep::Done { keep_token: stage == Stage::SignedIn },
        Err(e) => if e.kind == ErrorKind::AuthenticationExpired && stage == Stage::First {
            NextStep::Refresh
        } else if e.kind == ErrorKind::AuthenticationExpired && stage == Stage::Refreshed
            && can_sign_in {
            NextStep::SignIn
        } else {
            NextStep::Fail(e)
        },
    }
}

/// What follows a refresh. A refreshed token is kept at once.
pub open spec fn after_refresh(can_sign_in: bool, outcome: Result<(), ClassifiedError>) -> NextStep {
    match outcome {
        Ok(_) => NextStep::Query { stage: Stage::Refreshed },
        Err(e) => if can_sign_in {
            NextStep::SignIn
        } else {
            NextStep::Fail(e)
        },
    }
}

/// What follows a sign-in.
pub open spec fn after_sign_in(outcome: Result<(), ClassifiedError>) -> NextStep {
    match outcome {
        Ok(_) => NextStep::Query { stage: Stage::SignedIn },
        Err(e) => NextStep::Fail(e),
    }
}

/// What follows a usage request.
pub fn on_query(stage: Stage, can_sign_in: bool, outcome: Result<(), ClassifiedError>) -> (r:
    NextStep)
    ensures
        r == after_query(stage, can_sign_in, outcome),
{
    match outcome {
        Ok(_) => NextStep::Done { keep_token: stage == Stage::SignedIn },
        Err(e) => if e.kind == ErrorKind::AuthenticationExpired && stage == Stage::First {
            NextStep::Refresh
        } else if e.kind == ErrorKind::AuthenticationExpired && stage == Stage::Refreshed
            && can_sign_in {
            NextStep::SignIn
        } else {
            NextStep::Fail(e)
        },
    }
}

/// What follows a refresh.
pub fn on_refresh(can_sign_in: bool, outcome: Result<(), ClassifiedError>) -> (r: NextStep)
    ensures
        r == after_refresh(can_sign_in, outcome),
{
    match outcome {
        Ok(_) => NextStep::Query { stage: Stage::Refreshed },
        Err(e) => if can_sign_in {
            NextStep::SignIn
        } else {
            NextStep::Fail(e)
        },
    }
}

/// What follows a sign-in.
pub fn on_sign_in(outcome: Result<(), ClassifiedError>) -> (r: NextStep)
    ensures
        r == after_sign_in(outcome),
{
    match outcome {
        Ok(_) => NextStep::Query { stage: Stage::SignedIn },
        Err(e) => NextStep::Fail(e),
    }
}

/// How many more requests a step can lead to.
pub open spec fn steps_left(step: NextStep) -> nat {
    match step {
        NextStep::Query { stage: Stage::First } => 5,
        NextStep::Refresh => 4,
        NextStep::Query { stage: Stage::Refreshed } => 3,
        NextStep::SignIn => 2,
        NextStep::Query { stage: Stage::SignedIn } => 1,
        _ => 0,
    }
}

/// Reading an account comes to an end: every answer leads to a step with fewer
/// requests left, so a token is refreshed at most once and a sign-in is made at
/// most once.
pub proof fn law_recovery_ends(
    stage: Stage,
    can_sign_in: bool,
    outcome: Result<(), ClassifiedError>,
)
    ensures
        steps_left(after_query(stage, can_sign_in, outcome)) < steps_left(NextStep::Query { stage }),
        steps_left(after_refresh(can_sign_in, outcome)) < steps_left(NextStep::Refresh),
        steps_left(after_sign_in(outcome)) < steps_left(NextStep::SignIn),
{
}

/// The adapter of one account.
pub struct StepFunProvider {
    pub routes: StepFunRouteSet,
    pub token: String,
}

/// Whether the production origin has valid routes.
pub open spec fn production_routed() -> bool {
    &&& urls::parsed_url(production_origin()) matches Some(origin)
    &&& exists|routes: StepFunRouteSet| #[trigger]
        routes.below(origin, EndpointClass::PublicHttps) && routes.ok()
}

impl StepFunProvider {
    /// Creates the production adapter from a manual input. `allowed` is the
    /// verdict of the endpoint policy on the routes.
    pub fn new_manual(
        provider: ProviderId,
        raw: &str,
        capture: &CommandCapture,
        allowed: bool,
    ) -> (r: Result<StepFunProvider, ClassifiedError>)
        ensures
            match r {
                Ok(adapter) => provider == ProviderId::StepFun && production_routed() && allowed
                    && adapter.routes.below(
                    urls::parsed_url(production_origin())->0,
                    EndpointClass::PublicHttps,
                ) && adapter.routes.ok() && manual_token(raw@, *capture) == Ok::<_, ErrorKind>(
                    adapter.token@,
                ),
                Err(e) => if provider != ProviderId::StepFun || !production_routed() || !allowed {
                    e == error::plain(ErrorKind::Api)
                } else {
                    manual_token(raw@, *capture) is Err && e == error::plain(
                        manual_token(raw@, *capture)->Err_0,
                    )
                },
            },
    {
        match StepFunRouteSet::production(allowed) {
            Ok(routes) => StepFunProvider::from_manual_capture_routes(
                provider,
                raw,
                capture,
                routes,
                allowed,
            ),
            Err(e) => Err(e),
        }
    }

    /// Creates the adapter from a manual input. `allowed` is the verdict of the
    /// endpoint policy on the routes.
    pub fn from_manual_capture_routes(
        provider: ProviderId,
        raw: &str,
        capture: &CommandCapture,
        routes: StepFunRouteSet,
        allowed: bool,
    ) -> (r: Result<StepFunProvider, ClassifiedError>)
        ensures
            match r {
                Ok(adapter) => provider == ProviderId::StepFun && routes.ok() && allowed
                    && manual_token(raw@, *capture) == Ok::<_, ErrorKind>(adapter.token@)
                    && adapter.routes == routes,
                Err(e) => if provider != ProviderId::StepFun || !routes.ok() || !allowed {
                    e == error::plain(ErrorKind::Api)
                } else {
                    manual_token(raw@, *capture) is Err && e == error::plain(
                        manual_token(raw@, *capture)->Err_0,
                    )
                },
            },
    {
        if provider != ProviderId::StepFun {
            return Err(ClassifiedError::new(ErrorKind::Api));
        }
        if let Err(e) = routes.validate(allowed) {
            return Err(e);
        }
        match token_from_manual_input(raw, capture) {
            Ok(token) => Ok(StepFunProvider { routes, token }),
            Err(e) => Err(e),
        }
    }
}

/// Ceilings of this adapter's transport.
pub fn transport_config() -> (r: Result<TransportConfig, ClassifiedError>)
    ensures
        r == Ok::<TransportConfig, ClassifiedError>(
            transport::ceilings(5, 15, MAX_RESPONSE_BYTES, 5, retry::no_retry()),
        ),
        r->Ok_0.valid(),
{
    transport::bounded(5, 15, MAX_RESPONSE_BYTES, 5, RetryPolicy::none())
}

/// An expired token is refreshed once, then the account signs in where it can; any
/// other failure is final, and only a sign-in leaves a token to keep.
pub proof fn law_recovery_goes_from_refresh_to_sign_in(e: ClassifiedError, can_sign_in: bool)
    ensures
        e.kind == ErrorKind::AuthenticationExpired ==> {
            &&& after_query(Stage::First, can_sign_in, Err(e)) == NextStep::Refresh
            &&& after_query(Stage::Refreshed, true, Err(e)) == NextStep::SignIn
            &&& after_query(Stage::Refreshed, false, Err(e)) == NextStep::Fail(e)
            &&& after_query(Stage::SignedIn, can_sign_in, Err(e)) == NextStep::Fail(e)
        },
        e.kind != ErrorKind::AuthenticationExpired ==> forall|stage: Stage| #[trigger]
            after_query(stage, can_sign_in, Err(e)) == NextStep::Fail(e),
        after_refresh(true, Err(e)) == NextStep::SignIn,
        after_refresh(false, Err(e)) == NextStep::Fail(e),
        after_sign_in(Err(e)) == NextStep::Fail(e),
        after_refresh(can_sign_in, Ok(())) == (NextStep::Query { stage: Stage::Refreshed }),
        after_sign_in(Ok(())) == (NextStep::Query { stage: Stage::SignedIn }),
        after_query(Stage::First, can_sign_in, Ok(())) == (NextStep::Done { keep_token: false }),
        after_query(Stage::SignedIn, can_sign_in, Ok(())) == (NextStep::Done { keep_token: true }),
{
}

/// A received token starts with a usable access token; a usable refresh token follows
/// it behind three dots.
pub proof fn law_received_tokens_hold_both(
    access: Option<Seq<char>>,
    refresh: Option<Seq<char>>,
    missing: ErrorKind,
)
    ensures
        received_token(access, refresh, missing) matches Ok(token) ==> {
            &&& token_ok(token)
            &&& access matches Some(a) && token_ok(a)
            &&& refresh is Some && token_ok(refresh->0) ==> token == access->0 + "..."@ + refresh->0
            &&& !(refresh is Some && token_ok(refresh->0)) ==> token == access->0
        },
        access is None ==> received_token(access, refresh, missing) == Err::<Seq<char>, _>(missing),
        access is Some && token_ok(access->0) && refresh is None ==> received_token(
            access,
            refresh,
            missing,
        ) is Ok,
{
}

/// Only a denied or expired request tells of an expired session, and so does a sign-in
/// step only with the statuses 401 and 403.
pub proof fn law_only_denials_expire_sessions(e: TransportError, status: u16)
    ensures
        e is AuthenticationExpired || e is PermissionDenied ==> required_class(e).kind
            == ErrorKind::AuthenticationExpired,
        !(e is AuthenticationExpired) && !(e is PermissionDenied) ==> required_class(e).kind
            != ErrorKind::AuthenticationExpired,
        login_failure(status) == ErrorKind::AuthenticationExpired <==> (status == 401 || status
            == 403),
        login_failure(status) != ErrorKind::AuthenticationExpired ==> login_failure(status)
            == ErrorKind::Api,
{
}

} // verus!
