//! Qwen Cloud adapters: one account, one session source and fixed routes.

use vstd::prelude::*;

use crate::capture::ManualCaptureError;
use crate::error;
use crate::error::{ClassifiedError, ErrorKind};
use crate::providers::qwencloud_session;
use crate::providers::qwencloud_session::{QwenCloudRouteSet, SessionHeaders};
use crate::registry::ProviderId;
use crate::urls;
use crate::urls::{EndpointClass, UrlParts};
use crate::usage::ProviderSource;

verus! {

impl QwenCloudRouteSet {
    /// Whether these are the routes of the production origins.
    pub open spec fn is_production(self) -> bool {
        &&& urls::parsed_url("https://home.qwencloud.com"@) matches Some(dashboard)
        &&& urls::parsed_url("https://cs-data.qwencloud.com"@) matches Some(data)
        &&& qwencloud_session::routes_below(self, dashboard.href, data.href)
        &&& self.class == EndpointClass::PublicHttps
    }

    /// The routes of the production origins. `allowed` is the verdict of the
    /// endpoint policy on them.
    pub fn production(allowed: bool) -> (r: Result<QwenCloudRouteSet, ClassifiedError>)
        ensures
            match r {
                Ok(routes) => production_routed(allowed) && routes.is_production(),
                Err(e) => !production_routed(allowed) && e == error::plain(ErrorKind::Api),
            },
    {
        match (
            urls::parse("https://home.qwencloud.com"),
            urls::parse("https://cs-data.qwencloud.com"),
        ) {
            (Some(dashboard), Some(data)) => QwenCloudRouteSet::from_origins(
                &dashboard,
                &data,
                EndpointClass::PublicHttps,
                allowed,
                allowed,
            ),
            _ => Err(ClassifiedError::new(ErrorKind::Api)),
        }
    }

    /// The routes of two loopback origins. `allowed` is the verdict of the
    /// endpoint policy on them.
    pub fn loopback(dashboard: &UrlParts, data: &UrlParts, allowed: bool) -> (r: Result<
        QwenCloudRouteSet,
        ClassifiedError,
    >)
        ensures
            ({
                let routed = urls::bare(dashboard.value()) && urls::bare(data.value()) && allowed
                    && qwencloud_session::routes_exist(dashboard.href@, data.href@);
                match r {
                    Ok(routes) => routed && qwencloud_session::routes_below(
                        routes,
                        dashboard.href@,
                        data.href@,
                    ) && routes.class == EndpointClass::LoopbackDevelopment,
                    Err(e) => !routed && e == error::plain(ErrorKind::Api),
                }
            }),
    {
        QwenCloudRouteSet::from_origins(
            dashboard,
            data,
            EndpointClass::LoopbackDevelopment,
            allowed,
            allowed,
        )
    }
}

/// Whether the production origins have routes that are allowed.
pub open spec fn production_routed(allowed: bool) -> bool {
    &&& urls::parsed_url("https://home.qwencloud.com"@) matches Some(dashboard)
    &&& urls::parsed_url("https://cs-data.qwencloud.com"@) matches Some(data)
    &&& qwencloud_session::origins_ok(
        dashboard,
        data,
        EndpointClass::PublicHttps,
        allowed,
        allowed,
    )
    &&& qwencloud_session::routes_exist(dashboard.href, data.href)
}

/// The cookie headers that a browser's jar gives for each route.
pub struct JarHeaders {
    pub dashboard: Option<String>,
    pub user_info: Option<String>,
    pub api: Option<String>,
    pub jar_empty: bool,
}

impl JarHeaders {
    /// Why the headers open no session.
    pub open spec fn failure(self) -> Option<ErrorKind> {
        qwencloud_session::browser_failure(
            self.dashboard.deep_view(),
            self.user_info.deep_view(),
            self.api.deep_view(),
            self.jar_empty,
        )
    }
}

/// Why a captured cookie opens no session.
pub open spec fn capture_failure(cookie: Result<Option<String>, ManualCaptureError>) -> Option<
    ErrorKind,
> {
    match cookie {
        Err(ManualCaptureError::MissingSecret) => Some(ErrorKind::MissingCredential),
        Err(_) => Some(ErrorKind::Parse),
        Ok(None) => Some(ErrorKind::MissingCredential),
        Ok(Some(header)) => if qwencloud_session::cookie_header_ok(header@) {
            None
        } else {
            Some(ErrorKind::Api)
        },
    }
}

/// The adapter of one account.
pub struct QwenCloudProvider {
    pub source: ProviderSource,
    pub routes: QwenCloudRouteSet,
    pub cookies: SessionHeaders,
}

impl QwenCloudProvider {
    /// Creates the production adapter of a captured cookie. `allowed` is the
    /// verdict of the endpoint policy on every route.
    pub fn new_manual(
        provider: ProviderId,
        capture: Result<Option<String>, ManualCaptureError>,
        allowed: bool,
    ) -> (r: Result<QwenCloudProvider, ClassifiedError>)
        ensures
            match r {
                Ok(adapter) => production_routed(allowed) && capture_failure(capture) is None
                    && provider == ProviderId::QwenCloud && adapter.routes.is_production()
                    && adapter.source == ProviderSource::ManualCookie && adapter.cookies.api@
                    == capture->Ok_0->0@ && adapter.cookies.dashboard.deep_view() == Some(
                    capture->Ok_0->0@,
                ) && adapter.cookies.user_info.deep_view() == Some(capture->Ok_0->0@),
                Err(e) => if production_routed(allowed) && capture_failure(capture) is Some {
                    e == error::plain(capture_failure(capture)->0)
                } else {
                    (provider != ProviderId::QwenCloud || !production_routed(allowed)) && e
                        == error::plain(ErrorKind::Api)
                },
            },
    {
        match QwenCloudRouteSet::production(allowed) {
            Ok(routes) => QwenCloudProvider::from_manual_capture_routes(
                provider,
                capture,
                routes,
                allowed,
            ),
            Err(e) => Err(e),
        }
    }

    /// Creates the production adapter of a browser's session. A jar that refuses a
    /// route is an error; `allowed` is the verdict of the endpoint policy on every
    /// route.
    pub fn new_browser(
        provider: ProviderId,
        headers: Result<JarHeaders, ()>,
        allowed: bool,
    ) -> (r: Result<QwenCloudProvider, ClassifiedError>)
        ensures
            match headers {
                Ok(given) if production_routed(allowed) => match r {
                    Ok(adapter) => given.failure() is None && provider == ProviderId::QwenCloud
                        && adapter.routes.is_production() && adapter.source
                        == ProviderSource::BrowserSession && adapter.cookies.dashboard.deep_view()
                        == given.dashboard.deep_view() && adapter.cookies.user_info.deep_view()
                        == given.user_info.deep_view() && Some(adapter.cookies.api@)
                        == given.api.deep_view(),
                    Err(e) => if given.failure() is Some {
                        e == error::plain(given.failure()->0)
                    } else {
                        provider != ProviderId::QwenCloud && e == error::plain(ErrorKind::Api)
                    },
                },
                _ => r == Err::<QwenCloudProvider, _>(error::plain(ErrorKind::Api)),
            },
    {
        match QwenCloudRouteSet::production(allowed) {
            Ok(routes) => QwenCloudProvider::from_browser_jar_routes(
                provider,
                headers,
                routes,
                allowed,
            ),
            Err(e) => Err(e),
        }
    }

    /// Creates the adapter of a captured cookie. `allowed` is the verdict of the
    /// endpoint policy on every route.
    pub fn from_manual_capture_routes(
        provider: ProviderId,
        capture: Result<Option<String>, ManualCaptureError>,
        routes: QwenCloudRouteSet,
        allowed: bool,
    ) -> (r: Result<QwenCloudProvider, ClassifiedError>)
        ensures
            match r {
                Ok(adapter) => capture_failure(capture) is None && provider == ProviderId::QwenCloud
                    && allowed && adapter.routes == routes && adapter.source
                    == ProviderSource::ManualCookie && adapter.cookies.api@ == capture->Ok_0->0@
                    && adapter.cookies.dashboard.deep_view() == Some(capture->Ok_0->0@)
                    && adapter.cookies.user_info.deep_view() == Some(capture->Ok_0->0@),
                Err(e) => if capture_failure(capture) is Some {
                    e == error::plain(capture_failure(capture)->0)
                } else {
                    (provider != ProviderId::QwenCloud || !allowed) && e == error::plain(
                        ErrorKind::Api,
                    )
                },
            },
    {
        let header = match capture {
            Ok(Some(header)) => header,
            Ok(None) => return Err(ClassifiedError::new(ErrorKind::MissingCredential)),
            Err(reason) => return Err(qwencloud_session::classify_capture_error(reason)),
        };
        let cookies = match SessionHeaders::manual(header.as_str()) {
            Ok(cookies) => cookies,
            Err(e) => return Err(e),
        };
        QwenCloudProvider::build(provider, ProviderSource::ManualCookie, routes, cookies, allowed)
    }

    /// Creates the adapter of a browser's session. A jar that refuses a route is
    /// an error; `allowed` is the verdict of the endpoint policy on every route.
    pub fn from_browser_jar_routes(
        provider: ProviderId,
        headers: Result<JarHeaders, ()>,
        routes: QwenCloudRouteSet,
        allowed: bool,
    ) -> (r: Result<QwenCloudProvider, ClassifiedError>)
        ensures
            match headers {
                Err(_) => r == Err::<QwenCloudProvider, _>(error::plain(ErrorKind::Api)),
                Ok(given) => match r {
                    Ok(adapter) => given.failure() is None && provider == ProviderId::QwenCloud
                        && allowed && adapter.routes == routes && adapter.source
                        == ProviderSource::BrowserSession && adapter.cookies.dashboard.deep_view()
                        == given.dashboard.deep_view() && adapter.cookies.user_info.deep_view()
                        == given.user_info.deep_view() && Some(adapter.cookies.api@)
                        == given.api.deep_view(),
                    Err(e) => if given.failure() is Some {
                        e == error::plain(given.failure()->0)
                    } else {
                        (provider != ProviderId::QwenCloud || !allowed) && e == error::plain(
                            ErrorKind::Api,
                        )
                    },
                },
            },
    {
        let given = match headers {
            Ok(given) => given,
            Err(_) => return Err(ClassifiedError::new(ErrorKind::Api)),
        };
        let cookies = match SessionHeaders::browser(
            given.dashboard,
            given.user_info,
            given.api,
            given.jar_empty,
        ) {
            Ok(cookies) => cookies,
            Err(e) => return Err(e),
        };
        QwenCloudProvider::build(provider, ProviderSource::BrowserSession, routes, cookies, allowed)
    }

    fn build(
        provider: ProviderId,
        source: ProviderSource,
        routes: QwenCloudRouteSet,
        cookies: SessionHeaders,
        allowed: bool,
    ) -> (r: Result<QwenCloudProvider, ClassifiedError>)
        requires
            source == ProviderSource::ManualCookie || source == ProviderSource::BrowserSession,
        ensures
            match r {
                Ok(adapter) => provider == ProviderId::QwenCloud && allowed && adapter.source
                    == source && adapter.routes == routes && adapter.cookies == cookies,
                Err(e) => (provider != ProviderId::QwenCloud || !allowed) && e == error::plain(
                    ErrorKind::Api,
                ),
            },
    {
        if let Err(e) = qwencloud_session::accepts_scope(provider, source) {
            return Err(e);
        }
        if !allowed {
            return Err(ClassifiedError::new(ErrorKind::Api));
        }
        Ok(QwenCloudProvider { source, routes, cookies })
    }

    /// The session source of the account.
    pub fn source(&self) -> (r: ProviderSource)
        ensures
            r == self.source,
    {
        self.source
    }
}

} // verus!
