//! ZoomMate adapters: one account, one credential source and fixed routes.

use vstd::prelude::*;

use crate::capture::ManualCaptureError;
use crate::error;
use crate::error::{ClassifiedError, ErrorKind};
use crate::providers::stepfun;
use crate::providers::zoommate;
use crate::providers::zoommate::{ManualCredential, Profile, ZoomMateRouteSet};
use crate::registry::ProviderId;
use crate::urls::UrlParts;
use crate::usage::ProviderSource;

verus! {

/// The requests that an account sends.
#[derive(Debug, Clone, Copy, PartialEq, Eq, Structural)]
pub enum RequestKind {
    Login,
    Status,
    History,
}

/// The cookies that a browser sends to one host.
pub struct BrowserHostCookies {
    pub login: Option<String>,
    pub status: Option<String>,
    pub history: Option<String>,
}

/// The cookies of one host as mathematical values.
pub struct HostCookiesView {
    pub login: Option<Seq<char>>,
    pub status: Option<Seq<char>>,
    pub history: Option<Seq<char>>,
}

impl BrowserHostCookies {
    pub open spec fn value(self) -> HostCookiesView {
        HostCookiesView {
            login: self.login.deep_view(),
            status: self.status.deep_view(),
            history: self.history.deep_view(),
        }
    }

    fn copied(&self) -> (r: BrowserHostCookies)
        ensures
            r.value() == self.value(),
    {
        BrowserHostCookies {
            login: copied(&self.login),
            status: copied(&self.status),
            history: copied(&self.history),
        }
    }
}

fn copied(source: &Option<String>) -> (r: Option<String>)
    ensures
        r.deep_view() == source.deep_view(),
{
    match source {
        Some(value) => Some(value.clone()),
        None => None,
    }
}

/// One browser profile: whether its jar has any record, and the cookies that it
/// sends to each host.
pub struct BrowserJar {
    pub has_records: bool,
    pub primary: BrowserHostCookies,
    pub alternate: BrowserHostCookies,
}

/// One browser profile as mathematical values, the primary host's cookies first.
pub struct JarView {
    pub has_records: bool,
    pub hosts: (HostCookiesView, HostCookiesView),
}

impl BrowserJar {
    pub open spec fn value(self) -> JarView {
        JarView {
            has_records: self.has_records,
            hosts: (self.primary.value(), self.alternate.value()),
        }
    }
}

/// The values of profiles.
pub open spec fn jar_values(jars: Seq<BrowserJar>) -> Seq<JarView> {
    Seq::new(jars.len(), |i: int| jars[i].value())
}

/// What decides whether a profile can log in: a cookie for the login of either
/// host.
pub open spec fn profile_of(jar: JarView) -> Profile {
    Profile {
        has_cookies: jar.has_records,
        has_login: jar.hosts.0.login is Some || jar.hosts.1.login is Some,
    }
}

/// What decides of profiles whether they can log in.
pub open spec fn profiles_of(jars: Seq<JarView>) -> Seq<Profile> {
    Seq::new(jars.len(), |i: int| profile_of(jars[i]))
}

/// The profiles that can log in, in order.
pub open spec fn sessions_of(jars: Seq<JarView>) -> Seq<JarView> {
    let found = zoommate::login_profiles(profiles_of(jars), jars.len() as int);
    Seq::new(found.len(), |i: int| jars[found[i] as int])
}

/// Why profiles give no session.
pub open spec fn jars_failure(jars: Seq<JarView>) -> Option<ErrorKind> {
    if jars.len() > zoommate::MAX_BROWSER_SESSIONS {
        Some(ErrorKind::Api)
    } else if sessions_of(jars).len() == 0 {
        Some(
            if zoommate::any_cookies(profiles_of(jars)) {
                ErrorKind::AuthenticationExpired
            } else {
                ErrorKind::MissingCredential
            },
        )
    } else {
        None
    }
}

/// What a captured request holds: its URL, its authorization, its cookie as the
/// cookie rules have read it, and the headers to forward.
pub struct ManualCapture {
    pub url: Option<UrlParts>,
    pub authorization: Option<String>,
    pub cookie: Result<Option<String>, ErrorKind>,
    pub headers: Vec<(String, String)>,
}

impl ManualCapture {
    /// Why the capture opens no account.
    pub open spec fn failure(self) -> Option<ErrorKind> {
        zoommate::capture_failure(
            zoommate::captured_url(self.url),
            self.authorization.deep_view(),
            self.cookie,
            self.headers.deep_view(),
        )
    }

    /// Whether a credential is that of the capture.
    pub open spec fn gives(self, credential: ManualCredential) -> bool {
        &&& self.url is Some
        &&& zoommate::captured_host(self.url->0.value()) == Some(credential.preferred_host)
        &&& self.authorization is Some
        &&& zoommate::bearer_of(self.authorization->0@) == Some(credential.token@)
        &&& self.cookie == Ok::<_, ErrorKind>(credential.cookie)
        &&& credential.forwarded.deep_view() == zoommate::lower_names(self.headers.deep_view())
    }
}

/// What opens an account: a captured request, or browser profiles that can log
/// in.
pub enum Credential {
    Manual(ManualCredential),
    Browser(Vec<BrowserJar>),
}

/// The cookies of a host, the first or the second.
pub open spec fn cookies_of(jar: JarView, host: usize) -> HostCookiesView {
    if host == 0 {
        jar.hosts.0
    } else {
        jar.hosts.1
    }
}

/// The cookie of a request.
pub open spec fn kind_cookie(cookies: HostCookiesView, kind: RequestKind) -> Option<Seq<char>> {
    match kind {
        RequestKind::Login => cookies.login,
        RequestKind::Status => cookies.status,
        RequestKind::History => cookies.history,
    }
}

/// The adapter of one account.
pub struct ZoomMateProvider {
    pub source: ProviderSource,
    pub routes: ZoomMateRouteSet,
    pub credential: Credential,
}

/// Whether an outcome is that of opening browser profiles on the production
/// routes.
pub open spec fn of_jars(
    outcome: Result<ZoomMateProvider, ClassifiedError>,
    provider: ProviderId,
    jars: Seq<JarView>,
    allowed: bool,
) -> bool {
    match outcome {
        Ok(adapter) => {
            &&& provider == ProviderId::ZoomMate
            &&& allowed
            &&& jars_failure(jars) is None
            &&& adapter.routes.is_production()
            &&& adapter.wf()
            &&& adapter.source == ProviderSource::BrowserSession
            &&& jar_values(adapter.credential->Browser_0@) == sessions_of(jars)
        },
        Err(e) => (zoommate::production_refused(allowed) && e == error::plain(ErrorKind::Api))
            || match jars_failure(jars) {
            Some(failure) => e == error::plain(failure),
            None => provider != ProviderId::ZoomMate && e == error::plain(ErrorKind::Api),
        },
    }
}

impl ZoomMateProvider {
    /// The source fits the credential, the routes are fixed, a captured request
    /// prefers one of two hosts, and some profile can log in.
    pub open spec fn wf(self) -> bool {
        &&& self.routes.ok()
        &&& match self.credential {
            Credential::Manual(manual) => self.source == ProviderSource::ManualCookie
                && manual.preferred_host < 2,
            Credential::Browser(sessions) => self.source == ProviderSource::BrowserSession
                && 0 < sessions@.len() <= zoommate::MAX_BROWSER_SESSIONS,
        }
    }

    /// Creates the production adapter of a captured request. `allowed` is the
    /// verdict of the endpoint and cookie policies on the routes.
    pub fn new_manual(
        provider: ProviderId,
        capture: Result<ManualCapture, ManualCaptureError>,
        allowed: bool,
    ) -> (r: Result<ZoomMateProvider, ClassifiedError>)
        ensures
            match r {
                Ok(adapter) => provider == ProviderId::ZoomMate && allowed
                    && adapter.routes.is_production() && adapter.wf() && adapter.source
                    == ProviderSource::ManualCookie && (capture matches Ok(captured)
                    && captured.failure() is None && captured.gives(adapter.credential->Manual_0)),
                Err(e) => (zoommate::production_refused(allowed) && e == error::plain(
                    ErrorKind::Api,
                )) || match capture {
                    Err(reason) => e == error::plain(stepfun::capture_class(reason)),
                    Ok(captured) => match captured.failure() {
                        Some(failure) => e == error::plain(failure),
                        None => provider != ProviderId::ZoomMate && e == error::plain(
                            ErrorKind::Api,
                        ),
                    },
                },
            },
    {
        match ZoomMateRouteSet::production(allowed) {
            Ok(routes) => ZoomMateProvider::from_manual_capture_routes(
                provider,
                capture,
                routes,
                allowed,
            ),
            Err(e) => Err(e),
        }
    }

    /// Creates the production adapter of one browser profile. `allowed` is the
    /// verdict of the endpoint and cookie policies on the routes.
    pub fn new_browser(provider: ProviderId, jar: BrowserJar, allowed: bool) -> (r: Result<
        ZoomMateProvider,
        ClassifiedError,
    >)
        ensures
            of_jars(r, provider, seq![jar.value()], allowed),
    {
        let jars = vec![jar];
        assert(jar_values(jars@) =~= seq![jar.value()]);
        ZoomMateProvider::new_browser_sessions(provider, &jars, allowed)
    }

    /// Creates the production adapter of browser profiles, in their order.
    /// `allowed` is the verdict of the endpoint and cookie policies on the routes.
    pub fn new_browser_sessions(provider: ProviderId, jars: &Vec<BrowserJar>, allowed: bool) -> (r:
        Result<ZoomMateProvider, ClassifiedError>)
        ensures
            of_jars(r, provider, jar_values(jars@), allowed),
    {
        match ZoomMateRouteSet::production(allowed) {
            Ok(routes) => ZoomMateProvider::from_browser_jars_routes(
                provider,
                jars,
                routes,
                allowed,
            ),
            Err(e) => Err(e),
        }
    }

    /// Creates the adapter of a captured request. `allowed` is the verdict of the
    /// endpoint and cookie policies on the routes.
    pub fn from_manual_capture_routes(
        provider: ProviderId,
        capture: Result<ManualCapture, ManualCaptureError>,
        routes: ZoomMateRouteSet,
        allowed: bool,
    ) -> (r: Result<ZoomMateProvider, ClassifiedError>)
        ensures
            match capture {
                Err(reason) => r == Err::<ZoomMateProvider, _>(
                    error::plain(stepfun::capture_class(reason)),
                ),
                Ok(captured) => match r {
                    Ok(adapter) => captured.failure() is None && provider == ProviderId::ZoomMate
                        && routes.ok() && allowed && adapter.routes == routes && adapter.wf()
                        && adapter.source == ProviderSource::ManualCookie
                        && captured.gives(adapter.credential->Manual_0),
                    Err(e) => e == error::plain(
                        if captured.failure() is Some {
                            captured.failure()->0
                        } else {
                            ErrorKind::Api
                        },
                    ) && (captured.failure() is Some || provider != ProviderId::ZoomMate || !(
                    routes.ok() && allowed)),
                },
            },
    {
        let captured = match capture {
            Ok(captured) => captured,
            Err(reason) => return Err(stepfun::classify_capture_error(reason)),
        };
        let credential = match zoommate::manual_credential(
            &captured.url,
            &captured.authorization,
            captured.cookie,
            &captured.headers,
        ) {
            Ok(credential) => credential,
            Err(e) => return Err(e),
        };
        if provider != ProviderId::ZoomMate {
            return Err(ClassifiedError::new(ErrorKind::Api));
        }
        match routes.validate(allowed) {
            Ok(_) => Ok(
                ZoomMateProvider {
                    source: ProviderSource::ManualCookie,
                    routes,
                    credential: Credential::Manual(credential),
                },
            ),
            Err(e) => Err(e),
        }
    }

    /// Creates the adapter of browser profiles, in their order. `allowed` is the
    /// verdict of the endpoint and cookie policies on the routes.
    pub fn from_browser_jars_routes(
        provider: ProviderId,
        jars: &Vec<BrowserJar>,
        routes: ZoomMateRouteSet,
        allowed: bool,
    ) -> (r: Result<ZoomMateProvider, ClassifiedError>)
        ensures
            ({
                let failure = jars_failure(jar_values(jars@));
                match r {
                    Ok(adapter) => failure is None && provider == ProviderId::ZoomMate
                        && routes.ok() && allowed && adapter.routes == routes && adapter.wf()
                        && adapter.source == ProviderSource::BrowserSession && jar_values(
                        adapter.credential->Browser_0@,
                    ) == sessions_of(jar_values(jars@)),
                    Err(e) => e == error::plain(
                        if failure is Some {
                            failure->0
                        } else {
                            ErrorKind::Api
                        },
                    ) && (failure is Some || provider != ProviderId::ZoomMate || !(routes.ok()
                        && allowed)),
                }
            }),
    {
        let ghost all = jar_values(jars@);
        let mut profiles: Vec<Profile> = Vec::new();
        let mut i: usize = 0;
        while i < jars.len()
            invariant
                i <= jars@.len(),
                all == jar_values(jars@),
                profiles@ == profiles_of(all).take(i as int),
            decreases jars@.len() - i,
        {
            let jar = &jars[i];
            assert(all[i as int] == jar.value());
            let has_login = jar.primary.login.is_some() || jar.alternate.login.is_some();
            let profile = Profile { has_cookies: jar.has_records, has_login };
            assert(profile == profile_of(all[i as int]));
            assert(profiles_of(all).take(i as int + 1) =~= profiles_of(all).take(i as int).push(
                profile,
            ));
            profiles.push(profile);
            i += 1;
        }
        assert(profiles@ =~= profiles_of(all));
        let found = match zoommate::browser_sessions(&profiles) {
            Ok(found) => found,
            Err(e) => return Err(e),
        };
        proof {
            lemma_login_bounded(profiles@, profiles@.len() as int);
        }
        let mut sessions: Vec<BrowserJar> = Vec::new();
        let mut k: usize = 0;
        assert(jar_values(sessions@) =~= sessions_of(all).take(0));
        while k < found.len()
            invariant
                k <= found@.len(),
                all == jar_values(jars@),
                found@ == zoommate::login_profiles(profiles_of(all), all.len() as int),
                forall|j: int| 0 <= j < found@.len() ==> (#[trigger] found@[j]) < jars@.len(),
                sessions@.len() == k,
                jar_values(sessions@) == sessions_of(all).take(k as int),
            decreases found@.len() - k,
        {
            let at: usize = found[k];
            let jar = &jars[at];
            assert(all[at as int] == jar.value());
            let kept = BrowserJar {
                has_records: jar.has_records,
                primary: jar.primary.copied(),
                alternate: jar.alternate.copied(),
            };
            let ghost before = jar_values(sessions@);
            let ghost kept_value = kept.value();
            sessions.push(kept);
            assert(jar_values(sessions@) =~= before.push(kept_value));
            assert(sessions_of(all).take(k as int + 1) =~= sessions_of(all).take(k as int).push(
                sessions_of(all)[k as int],
            ));
            k += 1;
        }
        assert(sessions_of(all).take(found@.len() as int) =~= sessions_of(all));
        if provider != ProviderId::ZoomMate {
            return Err(ClassifiedError::new(ErrorKind::Api));
        }
        match routes.validate(allowed) {
            Ok(_) => Ok(
                ZoomMateProvider {
                    source: ProviderSource::BrowserSession,
                    routes,
                    credential: Credential::Browser(sessions),
                },
            ),
            Err(e) => Err(e),
        }
    }

    /// The credential source of the account.
    pub fn source(&self) -> (r: ProviderSource)
        ensures
            r == self.source,
    {
        self.source
    }

    /// The hosts in the order in which they are asked.
    pub open spec fn hosts(self) -> (usize, usize) {
        if self.credential matches Credential::Manual(manual) && manual.preferred_host == 1 {
            (1, 0)
        } else {
            (0, 1)
        }
    }

    /// The hosts in the order in which they are asked.
    pub fn host_order(&self) -> (r: (usize, usize))
        ensures
            r == self.hosts(),
    {
        match &self.credential {
            Credential::Manual(manual) => zoommate::host_order(manual.preferred_host),
            Credential::Browser(_) => zoommate::host_order(0),
        }
    }

    /// The cookie of a request: a captured one goes to its own host alone, a
    /// profile's to the host and the request that it is for.
    pub open spec fn cookie_at(
        self,
        session: Option<usize>,
        host: usize,
        kind: RequestKind,
    ) -> Option<Seq<char>> {
        match self.credential {
            Credential::Manual(manual) => if host == manual.preferred_host {
                manual.cookie.deep_view()
            } else {
                None
            },
            Credential::Browser(sessions) => match session {
                Some(index) => if index < sessions@.len() {
                    kind_cookie(cookies_of(sessions@[index as int].value(), host), kind)
                } else {
                    None
                },
                None => None,
            },
        }
    }

    /// The cookie of a request to the first or the second host.
    pub fn request_cookie(&self, session: Option<usize>, host: usize, kind: RequestKind) -> (r:
        Option<String>)
        requires
            host < 2,
        ensures
            r.deep_view() == self.cookie_at(session, host, kind),
    {
        let sessions = match &self.credential {
            Credential::Manual(manual) => {
                if host == manual.preferred_host {
                    return copied(&manual.cookie);
                }
                return None;
            },
            Credential::Browser(sessions) => sessions,
        };
        let index: usize = match session {
            Some(index) => index,
            None => return None,
        };
        if index >= sessions.len() {
            return None;
        }
        let cookies = if host == 0 {
            &sessions[index].primary
        } else {
            &sessions[index].alternate
        };
        match kind {
            RequestKind::Login => copied(&cookies.login),
            RequestKind::Status => copied(&cookies.status),
            RequestKind::History => copied(&cookies.history),
        }
    }
}

/// A request on its way over the hosts: the one to ask, and the one to ask after
/// it.
#[derive(Debug, Clone, Copy, PartialEq, Eq, Structural)]
pub struct HostWalk {
    pub host: usize,
    pub next: Option<usize>,
}

impl HostWalk {
    /// A request before its first host.
    pub fn start(order: (usize, usize)) -> (r: HostWalk)
        ensures
            r == (HostWalk { host: order.0, next: Some(order.1) }),
    {
        HostWalk { host: order.0, next: Some(order.1) }
    }

    /// What follows the failure of a host: the next host, unless the failure is
    /// final or no host is left.
    pub open spec fn after(self, e: ClassifiedError, cancelled: bool) -> Result<
        HostWalk,
        ClassifiedError,
    > {
        if self.next is None || zoommate::final_failure(e, cancelled) {
            Err(e)
        } else {
            Ok(HostWalk { host: self.next->0, next: None })
        }
    }

    /// What follows the failure of a host.
    pub fn on_failure(self, e: ClassifiedError, cancelled: bool) -> (r: Result<
        HostWalk,
        ClassifiedError,
    >)
        ensures
            r == self.after(e, cancelled),
    {
        match self.next {
            Some(host) => if zoommate::try_next_host(true, &e, cancelled) {
                Ok(HostWalk { host, next: None })
            } else {
                Err(e)
            },
            None => Err(e),
        }
    }
}

/// A request asks at most two hosts: the second failure stands, whatever it is.
pub proof fn law_two_hosts_at_most(
    order: (usize, usize),
    first: ClassifiedError,
    second: ClassifiedError,
    cancelled: bool,
)
    ensures
        ({
            let start = HostWalk { host: order.0, next: Some(order.1) };
            start.after(first, cancelled) matches Ok(walk) ==> walk.host == order.1 && walk.after(
                second,
                cancelled,
            ) == Err::<HostWalk, ClassifiedError>(second)
        }),
{
}

proof fn lemma_login_bounded(profiles: Seq<Profile>, n: int)
    requires
        0 <= n <= profiles.len() <= usize::MAX,
    ensures
        zoommate::login_profiles(profiles, n).len() <= n,
        forall|j: int|
            0 <= j < zoommate::login_profiles(profiles, n).len() ==> (
            #[trigger] zoommate::login_profiles(profiles, n)[j]) < n && profiles[zoommate::login_profiles(
                profiles,
                n,
            )[j] as int].has_login,
    decreases n,
{
    if n > 0 {
        lemma_login_bounded(profiles, n - 1);
    }
}

/// A captured cookie never leaves the host that it was captured from.
pub proof fn law_captured_cookie_stays(
    adapter: ZoomMateProvider,
    session: Option<usize>,
    host: usize,
    kind: RequestKind,
)
    requires
        adapter.wf(),
        adapter.credential is Manual,
        adapter.cookie_at(session, host, kind) is Some,
    ensures
        host == adapter.credential->Manual_0.preferred_host,
        host == adapter.hosts().0,
{
}

/// Every profile that an adapter keeps is one of the given ones and can log in to
/// one of the hosts.
pub proof fn law_sessions_can_log_in(jars: Seq<JarView>, at: int)
    requires
        jars.len() <= usize::MAX,
        0 <= at < sessions_of(jars).len(),
    ensures
        jars.contains(sessions_of(jars)[at]),
        profile_of(sessions_of(jars)[at]).has_login,
{
    lemma_login_bounded(profiles_of(jars), jars.len() as int);
    let found = zoommate::login_profiles(profiles_of(jars), jars.len() as int);
    assert(found[at] < jars.len());
    assert(profiles_of(jars)[found[at] as int] == profile_of(jars[found[at] as int]));
}

} // verus!
