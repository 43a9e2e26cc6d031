use oab_providers::capture::ManualCaptureError;
use oab_providers::decimal;
use oab_providers::decimal::Decimal;
use oab_providers::error::{ClassifiedError, ErrorKind};
use oab_providers::instant::Timestamp;
use oab_providers::providers::qwencloud_adapter::{JarHeaders, QwenCloudProvider};
use oab_providers::providers::qwencloud_session::QwenCloudRouteSet;
use oab_providers::providers::stepfun;
use oab_providers::providers::stepfun::{PasswordCredentials, StepFunRouteSet};
use oab_providers::providers::synthetic;
use oab_providers::providers::t3chat;
use oab_providers::providers::t3chat::CustomerData;
use oab_providers::providers::venice;
use oab_providers::providers::venice::ShownBalance;
use oab_providers::providers::zoommate::ZoomMateRouteSet;
use oab_providers::providers::zoommate_responses;
use oab_providers::providers::zoommate_session::{
    BrowserHostCookies, BrowserJar, Credential, HostWalk, ManualCapture, RequestKind, ZoomMateProvider,
};
use oab_providers::providers::zoommate_usage;
use oab_providers::registry::ProviderId;
use oab_providers::urls;
use oab_providers::urls::EndpointClass;
use oab_providers::usage::{CostProvenance, ProviderSource};

fn kind<T>(outcome: Result<T, ClassifiedError>) -> ErrorKind {
    outcome.err().unwrap().kind()
}

fn mate_routes() -> ZoomMateRouteSet {
    ZoomMateRouteSet::production(true).ok().unwrap()
}

fn capture() -> ManualCapture {
    ManualCapture {
        url: urls::parse("https://zoommate.zoom.us/ai-computer/api/v1/credits/status"),
        authorization: Some("Bearer tok".to_owned()),
        cookie: Ok(Some("a=b".to_owned())),
        headers: vec![("User-Agent".to_owned(), "x".to_owned())],
    }
}

fn cookies(login: Option<&str>) -> BrowserHostCookies {
    BrowserHostCookies {
        login: login.map(str::to_owned),
        status: Some("s=1".to_owned()),
        history: None,
    }
}

fn jar(has_records: bool, primary: Option<&str>, alternate: Option<&str>) -> BrowserJar {
    BrowserJar { has_records, primary: cookies(primary), alternate: cookies(alternate) }
}

#[test]
fn captured_cookies_stay_with_their_host() {
    let adapter = ZoomMateProvider::from_manual_capture_routes(
        ProviderId::ZoomMate,
        Ok(capture()),
        mate_routes(),
        true,
    )
    .ok()
    .unwrap();
    assert_eq!(adapter.source(), ProviderSource::ManualCookie);
    assert_eq!(adapter.host_order(), (1, 0));
    let cookie = |host| adapter.request_cookie(None, host, RequestKind::Status);
    assert_eq!(cookie(1).as_deref(), Some("a=b"));
    assert_eq!(cookie(0), None);
    let made = |provider, capture, allowed| {
        kind(ZoomMateProvider::from_manual_capture_routes(provider, capture, mate_routes(), allowed))
    };
    assert_eq!(made(ProviderId::Zed, Ok(capture()), true), ErrorKind::Api);
    assert_eq!(made(ProviderId::ZoomMate, Ok(capture()), false), ErrorKind::Api);
    assert_eq!(
        made(ProviderId::ZoomMate, Err(ManualCaptureError::InvalidSecret), true),
        ErrorKind::MissingCredential
    );
    let without = ManualCapture { authorization: None, ..capture() };
    assert_eq!(made(ProviderId::ZoomMate, Ok(without), true), ErrorKind::MissingCredential);
    let refused = ManualCapture { cookie: Err(ErrorKind::Parse), ..capture() };
    assert_eq!(made(ProviderId::ZoomMate, Ok(refused), true), ErrorKind::Parse);
}

#[test]
fn browser_sessions_keep_profiles_that_can_log_in() {
    let jars = vec![jar(true, None, None), jar(true, None, Some("l=2")), jar(true, Some("l=3"), None)];
    let adapter =
        ZoomMateProvider::from_browser_jars_routes(ProviderId::ZoomMate, &jars, mate_routes(), true)
            .ok()
            .unwrap();
    assert_eq!(adapter.source(), ProviderSource::BrowserSession);
    assert!(matches!(&adapter.credential, Credential::Browser(sessions) if sessions.len() == 2));
    let login = |session, host| adapter.request_cookie(Some(session), host, RequestKind::Login);
    assert_eq!(login(0, 1).as_deref(), Some("l=2"));
    assert_eq!(login(0, 0), None);
    assert_eq!(login(1, 0).as_deref(), Some("l=3"));
    assert_eq!(login(2, 0), None);
    assert_eq!(adapter.request_cookie(Some(0), 0, RequestKind::History), None);
    let failed = |jars: Vec<BrowserJar>| {
        kind(ZoomMateProvider::from_browser_jars_routes(
            ProviderId::ZoomMate,
            &jars,
            mate_routes(),
            true,
        ))
    };
    assert_eq!(failed(vec![jar(true, None, None)]), ErrorKind::AuthenticationExpired);
    assert_eq!(failed(vec![jar(false, None, None)]), ErrorKind::MissingCredential);
    assert_eq!(failed((0..65).map(|_| jar(true, Some("l=1"), None)).collect()), ErrorKind::Api);
}

#[test]
fn production_routes_are_those_of_the_services() {
    assert_eq!(mate_routes().class, EndpointClass::PublicHttps);
    assert_eq!(kind(ZoomMateRouteSet::production(false)), ErrorKind::Api);
    let first = urls::parse("http://127.0.0.1:4001").unwrap();
    let second = urls::parse("http://127.0.0.1:4002").unwrap();
    let local = ZoomMateRouteSet::loopback(&first, &second, true).ok().unwrap();
    assert_eq!(local.alternate.origin.origin, "http://127.0.0.1:4002");
    assert_eq!(kind(ZoomMateRouteSet::loopback(&first, &first, true)), ErrorKind::Api);
    let console = QwenCloudRouteSet::production(true).ok().unwrap();
    assert_eq!(
        console.dashboard,
        "https://home.qwencloud.com/billing/subscription/token-plan-individual"
    );
    assert_eq!(kind(QwenCloudRouteSet::production(false)), ErrorKind::Api);
    let local = QwenCloudRouteSet::loopback(&first, &second, true).ok().unwrap();
    assert_eq!(local.user_info, "http://127.0.0.1:4001/tool/user/info.json");
    let plan = StepFunRouteSet::production(true).ok().unwrap();
    assert_eq!(plan.homepage.href, "https://platform.stepfun.com/");
    assert_eq!(kind(StepFunRouteSet::production(false)), ErrorKind::Api);
    assert!(StepFunRouteSet::loopback(&first, true).is_ok());
}

#[test]
fn console_sessions_need_their_cookies() {
    let routes = || QwenCloudRouteSet::production(true).ok().unwrap();
    let manual = |capture, allowed| {
        QwenCloudProvider::from_manual_capture_routes(
            ProviderId::QwenCloud,
            capture,
            routes(),
            allowed,
        )
    };
    let adapter = manual(Ok(Some("a=b".to_owned())), true).ok().unwrap();
    assert_eq!(adapter.source(), ProviderSource::ManualCookie);
    assert_eq!(adapter.cookies.api, "a=b");
    assert_eq!(kind(manual(Ok(Some("a=b".to_owned())), false)), ErrorKind::Api);
    assert_eq!(kind(manual(Ok(None), true)), ErrorKind::MissingCredential);
    assert_eq!(kind(manual(Ok(Some("a\nb".to_owned())), true)), ErrorKind::Api);
    assert_eq!(kind(manual(Err(ManualCaptureError::MissingSecret), true)), ErrorKind::MissingCredential);
    assert_eq!(kind(manual(Err(ManualCaptureError::DisallowedUrl), true)), ErrorKind::Parse);
    let headers = |api: Option<&str>, jar_empty| JarHeaders {
        dashboard: Some("d=1".to_owned()),
        user_info: None,
        api: api.map(str::to_owned),
        jar_empty,
    };
    let browser = |headers| {
        QwenCloudProvider::from_browser_jar_routes(ProviderId::QwenCloud, headers, routes(), true)
    };
    let ticket = "login_qwencloud_ticket=t";
    let opened = browser(Ok(headers(Some(ticket), false))).ok().unwrap();
    assert_eq!(opened.source(), ProviderSource::BrowserSession);
    assert_eq!(kind(browser(Ok(headers(Some("x=y"), false)))), ErrorKind::AuthenticationExpired);
    assert_eq!(kind(browser(Ok(headers(None, true)))), ErrorKind::MissingCredential);
    assert_eq!(kind(browser(Err(()))), ErrorKind::Api);
    let production = |capture| QwenCloudProvider::new_manual(ProviderId::QwenCloud, capture, true);
    let fresh = production(Ok(Some("a=b".to_owned()))).ok().unwrap();
    assert_eq!(fresh.routes.dashboard, routes().dashboard);
    assert_eq!(kind(production(Ok(None))), ErrorKind::MissingCredential);
    let session = |jar, allowed| QwenCloudProvider::new_browser(ProviderId::QwenCloud, jar, allowed);
    let live = session(Ok(headers(Some(ticket), false)), true).ok().unwrap();
    assert_eq!(live.cookies.api, ticket);
    assert_eq!(kind(session(Ok(headers(Some(ticket), false)), false)), ErrorKind::Api);
}

#[test]
fn responses_are_read_in_a_local_calendar() {
    let status = br#"{"data":{"credit_status":{"budget_cap":200,"used_credit":50}}}"#;
    let history = br#"{"data":{"records":[
        {"cost":2,"time":"2024-05-01T23:30:00Z"},
        {"cost":3,"time":"2024-05-01T12:00:00Z"},
        {"cost":9,"time":"2024-05-01T12:00:00Z","is_deleted":true}],"total":3}}"#;
    let at = Timestamp::parse("2024-05-02T10:00:00Z").unwrap();
    let read = |offset| {
        zoommate_responses::parse_zoommate_responses_with_calendar_offset(
            ProviderId::ZoomMate,
            at,
            status,
            Some(history),
            ProviderSource::ManualCookie,
            offset,
        )
        .ok()
        .unwrap()
    };
    let amount = |value| decimal::from_number(value).unwrap();
    let east = read(3600).history.unwrap();
    assert_eq!((east.today, east.today_records), (amount("2"), 1));
    assert_eq!(east.daily.len(), 2);
    assert!(read(3600).covered);
    let utc = read(0).history.unwrap();
    assert_eq!(utc.today_records, 0);
    assert_eq!(utc.daily.len(), 1);
    assert_eq!((utc.total, utc.total_records), (amount("5"), 2));
    let refused = |source, body: &[u8]| {
        kind(zoommate_responses::parse_zoommate_responses_with_calendar_offset(
            ProviderId::ZoomMate,
            at,
            body,
            None,
            source,
            0,
        ))
    };
    assert_eq!(refused(ProviderSource::ApiKey, status), ErrorKind::Api);
    assert_eq!(refused(ProviderSource::ManualCookie, b"{}"), ErrorKind::Parse);
}

#[test]
fn sign_in_requests_name_the_visitor() {
    let visitor = stepfun::login_headers(&None, None);
    let value = |headers: &[(String, String)], wanted: &str| {
        headers.iter().find(|(name, _)| name == wanted).map(|(_, value)| value.clone())
    };
    assert_eq!(
        value(&visitor, "oasis-webid").as_deref(),
        Some("c8a1002d2c457e758785a9979832217c7c0b884c")
    );
    assert_eq!(value(&visitor, "cookie"), None);
    assert_eq!(value(&visitor, "oasis-appid").as_deref(), Some("10300"));
    let device = stepfun::login_headers(&Some("token".to_owned()), Some("c=1".to_owned()));
    assert_eq!(value(&device, "oasis-webid"), Some(stepfun::web_id_for_token("token")));
    assert_eq!(value(&device, "cookie").as_deref(), Some("c=1"));
    assert!(PasswordCredentials::new("me", "secret").is_ok());
    assert_eq!(kind(PasswordCredentials::new(" ", "secret")), ErrorKind::MissingCredential);
}

#[test]
fn a_denial_counts_as_an_expired_login() {
    let plain = ClassifiedError::new;
    assert_eq!(
        plain(ErrorKind::PermissionDenied).denied_as_expired(),
        plain(ErrorKind::AuthenticationExpired)
    );
    let limited = ClassifiedError { kind: ErrorKind::RateLimited, retry_after_seconds: Some(3) };
    assert_eq!(limited.denied_as_expired(), limited);
}

#[test]
fn customers_show_two_windows() {
    let at = |seconds: i128| Timestamp { nanos: seconds * 1_000_000_000 };
    let customer = CustomerData {
        sub_tier: Some("pro-plus".to_owned()),
        product_name: None,
        current_period_end: None,
        usage_band: Some("high".to_owned()),
        four_hour_percentage: None,
        month_percentage: None,
        four_hour_next_reset_at: None,
        period_percentage: None,
        window_next_reset_at: None,
    };
    let read = t3chat::normalize_customer(at(1), &customer, None, Some(at(2)), Some(at(3)));
    let primary = read.primary.unwrap();
    assert_eq!((primary.minutes, primary.resets_at), (Some(240), Some(at(2))));
    assert_eq!(primary.description.as_deref(), Some("Base - high"));
    let secondary = read.secondary.unwrap();
    assert_eq!((secondary.minutes, secondary.resets_at), (None, Some(at(3))));
    assert_eq!(secondary.description.as_deref(), Some("Overage"));
    assert_eq!(read.login_method.as_deref(), Some("Pro Plus"));
    let sooner = t3chat::normalize_customer(at(1), &customer, Some(at(5)), Some(at(2)), None);
    assert_eq!(sooner.primary.unwrap().resets_at, Some(at(5)));
}

#[test]
fn balances_show_one_window() {
    let at = Timestamp { nanos: 0 };
    let shown = |balance| venice::normalize(at, balance, "1.00", "2.00", "4.00").primary.unwrap();
    let dollars = shown(ShownBalance::Dollars);
    assert_eq!(dollars.used.unwrap().to_i64(), Some(0));
    assert_eq!(dollars.description.as_deref(), Some("$2.00 USD remaining"));
    let nothing = shown(ShownBalance::Nothing);
    assert_eq!(nothing.used.unwrap().to_i64(), Some(100));
    assert_eq!(shown(ShownBalance::Epoch).used, None);
}

#[test]
fn requests_walk_over_two_hosts() {
    let walk = HostWalk::start((1, 0));
    let network = ClassifiedError::new(ErrorKind::Network);
    let second = walk.on_failure(network, false).ok().unwrap();
    assert_eq!((walk.host, second.host), (1, 0));
    assert_eq!(second.on_failure(network, false), Err(network));
    assert_eq!(walk.on_failure(network, true), Err(network));
    let expired = ClassifiedError::new(ErrorKind::AuthenticationExpired);
    assert_eq!(walk.on_failure(expired, false), Err(expired));
}

#[test]
fn quota_windows_are_described_by_their_length() {
    let at = Timestamp { nanos: 0 };
    let open = synthetic::rate_window(Some(300), None);
    assert_eq!(open.description.as_deref(), Some("5 hours window"));
    let timed = synthetic::rate_window(Some(300), Some(at));
    assert_eq!((timed.description, timed.resets_at), (None, Some(at)));
    let sample = synthetic::usage_sample(at, Some(open), None, None, Some("pro".to_owned()), &vec![])
        .ok()
        .unwrap();
    assert!(sample.cost.is_none());
    assert_eq!(sample.login_method.as_deref(), Some("pro"));
    assert_eq!(sample.provenance, ("synthetic".to_owned(), "api".to_owned()));
}

#[test]
fn histories_tell_what_was_spent() {
    let status = br#"{"data":{"credit_status":{"budget_cap":200,"used_credit":50}}}"#;
    let history = br#"{"data":{"records":[{"cost":2,"time":"2024-05-01T23:30:00Z"}],"total":9}}"#;
    let at = Timestamp::parse("2024-05-02T10:00:00Z").unwrap();
    let read = zoommate_responses::parse_zoommate_responses_with_calendar_offset(
        ProviderId::ZoomMate,
        at,
        status,
        Some(history),
        ProviderSource::BrowserSession,
        0,
    )
    .ok()
    .unwrap();
    assert!(!read.covered);
    let sample = zoommate_usage::normalize_usage(
        ProviderId::ZoomMate,
        ProviderSource::BrowserSession,
        at,
        &read.status,
        &read.history,
        read.covered,
        &None,
        None,
    )
    .ok()
    .unwrap();
    assert_eq!(sample.provenance, ("zoommate".to_owned(), "browser_session".to_owned()));
    assert_eq!(sample.sections[0].title, "Credit history");
    let chart = sample.sections[0].chart.as_ref().unwrap();
    assert_eq!(chart.points[0].0, "2024-05-01");
    let spent = sample.cost_usage.unwrap();
    assert_eq!((spent.updated_at, spent.provenance), (at, CostProvenance::VendorMetered));
    assert_eq!(spent.label.as_deref(), Some("Last 30 days (partial)"));
    assert_eq!((spent.history.records, spent.session.records), (Some(1), Some(0)));
    assert_eq!(spent.daily[0].1.records, Some(1));
}

#[test]
fn the_first_known_money_is_shown() {
    let at = Timestamp { nanos: 7 };
    let money = |used: &str, next_regen: Option<&str>| {
        Some(synthetic::WeeklyCost {
            used: used.to_owned(),
            limit: "24".to_owned(),
            resets_at: Some(Timestamp { nanos: 9 }),
            next_regen: next_regen.map(str::to_owned),
        })
    };
    let sample = |costs| synthetic::usage_sample(at, None, None, None, None, &costs);
    let shown = sample(vec![None, money("1.25", Some("0.5")), money("3", None)]).ok().unwrap();
    let cost = shown.cost.unwrap();
    assert_eq!((cost.amount, cost.limit), (decimal::from_number("1.25").unwrap(), Decimal::of(24)));
    assert_eq!((cost.currency.as_str(), cost.period.as_str()), ("USD", "Weekly"));
    assert_eq!((cost.resets_at, cost.updated_at), (Some(Timestamp { nanos: 9 }), at));
    assert_eq!(cost.next_regen, decimal::from_number("0.5"));
    assert_eq!(cost.provenance, CostProvenance::VendorMetered);
    assert!(sample(vec![money("1", None), money("inf", None)]).is_ok());
    assert_eq!(kind(sample(vec![money("inf", None)])), ErrorKind::Parse);
    assert_eq!(kind(sample(vec![money("1", Some("1e40"))])), ErrorKind::Parse);
}

#[test]
fn mates_open_their_production_hosts() {
    let opened = ZoomMateProvider::new_manual(ProviderId::ZoomMate, Ok(capture()), true).ok().unwrap();
    assert_eq!(opened.source(), ProviderSource::ManualCookie);
    assert_eq!(opened.host_order(), (1, 0));
    let refused = ZoomMateProvider::new_manual(
        ProviderId::ZoomMate,
        Err(ManualCaptureError::MissingSecret),
        true,
    );
    assert_eq!(kind(refused), ErrorKind::MissingCredential);
    let browser = |jar| ZoomMateProvider::new_browser(ProviderId::ZoomMate, jar, true);
    assert_eq!(browser(jar(true, Some("l=1"), None)).ok().unwrap().host_order(), (0, 1));
    assert_eq!(kind(browser(jar(true, None, None))), ErrorKind::AuthenticationExpired);
    assert_eq!(kind(browser(jar(false, None, None))), ErrorKind::MissingCredential);
    let none = ZoomMateProvider::new_browser_sessions(ProviderId::ZoomMate, &vec![], true);
    assert_eq!(kind(none), ErrorKind::MissingCredential);
}
