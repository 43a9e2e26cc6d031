use oab_providers::capture::ManualCaptureError;
use oab_providers::decimal;
use oab_providers::error::{ClassifiedError, ErrorKind};
use oab_providers::html;
use oab_providers::instant::Timestamp;
use oab_providers::json;
use oab_providers::json::Json;
use oab_providers::providers::qwencloud;
use oab_providers::providers::qwencloud_session;
use oab_providers::providers::qwencloud_session::{
    Cornerstone, DashboardOutcome, Probe, QwenCloudRouteSet, SessionHeaders,
};
use oab_providers::providers::qwencloud_usage;
use oab_providers::providers::sakana;
use oab_providers::providers::sakana::SakanaProvider;
use oab_providers::registry::ProviderId;
use oab_providers::text;
use oab_providers::transport::{RequestAccept, TransportError};
use oab_providers::urls;
use oab_providers::urls::EndpointClass;
use oab_providers::usage::{DetailSensitivity, ProviderSource, UsageSample};

fn chars(s: &str) -> Vec<char> {
    s.chars().collect()
}

fn document(s: &str) -> Json {
    json::parse(s.as_bytes()).unwrap()
}

fn usage(body: &str) -> Result<UsageSample, ErrorKind> {
    qwencloud_usage::parse_usage_response(
        ProviderId::QwenCloud,
        Timestamp { nanos: 0 },
        body.as_bytes(),
        ProviderSource::ManualCookie,
    )
    .map_err(|e| e.kind())
}

#[test]
fn numbers_too_large_to_compute_with_cannot_be_read() {
    let body = r#"{"data":{"per5HourPercentage":0.5,"per5HourResetTime":"10000000000000000000000000"}}"#;
    assert_eq!(usage(body).err(), Some(ErrorKind::Parse));
}

#[test]
fn current_usage_is_read_with_its_plan() {
    let body = br#"{"code":"200","data":{"per5HourPercentage":0.25,"per1WeekPercentage":"2",
        "per5HourResetTime":1714564800000}}"#;
    let subscription = br#"{"data":[{"specCode":"PRO"}]}"#;
    let quota = br#"{"pro":{"five_hour":1200,"weekly":0}}"#;
    let sample = qwencloud_usage::parse_usage_responses(
        ProviderId::QwenCloud,
        Timestamp { nanos: 0 },
        body,
        Some(subscription),
        Some(quota),
        ProviderSource::BrowserSession,
    )
    .ok()
    .unwrap();
    let primary = sample.primary.unwrap();
    assert_eq!(primary.used.unwrap().to_i64(), Some(25));
    assert_eq!(primary.minutes, Some(300));
    assert_eq!(primary.resets_at.unwrap().unix_seconds(), 1_714_564_800);
    assert_eq!(primary.description.as_deref(), Some("300 / 1,200 credits used"));
    let weekly = sample.secondary.unwrap();
    assert_eq!(weekly.used.unwrap().to_i64(), Some(100));
    assert_eq!(weekly.description, None);
    assert_eq!(sample.login_method.as_deref(), Some("Pro"));
}

#[test]
fn legacy_usage_is_read_from_its_summary() {
    let sample = usage(
        r#"{"Data":{"list":[{"totalQuota":"1000","remainingQuota":250.5,"endTime":"2024-05-01 12:00:00"}],
        "totalCount":1}}"#,
    )
    .ok()
    .unwrap();
    let primary = sample.primary.unwrap();
    assert_eq!(primary.minutes, Some(43_200));
    assert_eq!(primary.description.as_deref(), Some("749.5 / 1,000 credits used"));
    assert_eq!(sample.login_method.as_deref(), Some("TOKEN PLAN"));
}

#[test]
fn failing_frames_are_classified() {
    assert_eq!(usage(r#"{"success":false,"code":"NeedLogin"}"#).err(), Some(ErrorKind::AuthenticationExpired));
    assert_eq!(usage(r#"{"statusCode":403}"#).err(), Some(ErrorKind::AuthenticationExpired));
    assert_eq!(usage(r#"{"statusCode":500}"#).err(), Some(ErrorKind::Api));
    assert_eq!(usage("[]").err(), Some(ErrorKind::Parse));
    assert_eq!(usage(r#"{"other":1}"#).err(), Some(ErrorKind::Parse));
    assert!(usage("<html>login password sign in</html>").is_err());
}

#[test]
fn scalars_are_read_from_texts() {
    assert_eq!(qwencloud_usage::scalar_i64(&document("\"42\"")), Some(42));
    assert_eq!(qwencloud_usage::scalar_bool(&document("\"true\"")), Some(true));
    assert_eq!(qwencloud_usage::scalar_string(&document("\" x \"")).as_deref(), Some("x"));
    let day = qwencloud_usage::scalar_timestamp(&document("\"2024-05-01\"")).ok().unwrap();
    assert_eq!(day.unwrap().unix_seconds() % 86_400, 0);
    let text = qwencloud_usage::scalar_timestamp(&document("\"2024-05-01T12:00:00Z\"")).ok().unwrap();
    assert_eq!(text.unwrap().unix_seconds(), 1_714_564_800);
    let half = decimal::from_number("1234.567").unwrap();
    assert_eq!(qwencloud_usage::format_decimal(half), "1,234.57");
    assert_eq!(text::group_number("-1234567.5"), "-1,234,567.5");
}

#[test]
fn documents_with_embedded_texts_are_opened() {
    let plain = qwencloud::parse_bounded_json(br#"{"a":{"b":[1,2]}}"#).ok().unwrap();
    assert_eq!(json::render(&plain), r#"{"a":{"b":[1,2]}}"#);
    let nested = qwencloud::parse_bounded_json(br#"{"data":"{\"per5HourPercentage\":1}"}"#).ok().unwrap();
    assert!(nested.get("data").unwrap().get("per5HourPercentage").is_some());
    assert_eq!(qwencloud::parse_bounded_json(b"{").err().unwrap().kind(), ErrorKind::Parse);
}

#[test]
fn page_tokens_are_usable() {
    let page = chars("<script>var xsecToken='no'; window.secToken = \"tok 1\";</script>");
    assert_eq!(qwencloud_session::extract_html_token(&page).as_deref(), Some("tok 1"));
    assert_eq!(qwencloud_session::extract_html_token(&chars("sec_token: ''")), None);
    assert!(qwencloud_session::valid_token(&chars("a")));
    assert!(!qwencloud_session::valid_token(&chars("a\u{7}")));
    assert!(qwencloud_session::looks_like_login_page(&chars("https://LOGIN.qwencloud.com/")));
    let cookies = "a=1; SEC_TOKEN=first; sec_token=home.example-2";
    assert_eq!(qwencloud_session::cookie_value(cookies, "sec_token").as_deref(), Some("first"));
    assert_eq!(
        qwencloud_session::preferred_cookie_value(cookies, "sec_token", Some("home.example")).as_deref(),
        Some("home.example-2")
    );
}

#[test]
fn tokens_come_from_page_cookie_or_account() {
    let page = Probe::Response { status: 200, body: b"secToken='abc'".to_vec() };
    assert!(matches!(
        qwencloud_session::after_dashboard(&page, "x=1", None),
        DashboardOutcome::Token(t) if t == "abc"
    ));
    let down = Probe::Response { status: 503, body: Vec::new() };
    match qwencloud_session::after_dashboard(&down, "x=1", None) {
        DashboardOutcome::Continue(Some(e)) => assert_eq!(e.kind(), ErrorKind::Network),
        _ => panic!("goes on"),
    }
    let account = Probe::Response { status: 200, body: br#"{"data":{"csrfToken":"t2"}}"#.to_vec() };
    assert_eq!(qwencloud_session::after_user_info(&account, None).ok().as_deref(), Some("t2"));
    let empty = Probe::Response { status: 200, body: b"{}".to_vec() };
    let pending = Some(ClassifiedError::new(ErrorKind::Network));
    assert_eq!(
        qwencloud_session::after_user_info(&empty, pending).err().unwrap().kind(),
        ErrorKind::Network
    );
    assert_eq!(qwencloud_session::no_token(None).kind(), ErrorKind::AuthenticationExpired);
    let failed = Probe::Failed(TransportError::ResponseTooLarge);
    assert_eq!(
        qwencloud_session::after_user_info(&failed, None).err().unwrap().kind(),
        ErrorKind::Parse
    );
}

#[test]
fn console_requests_carry_their_token() {
    let c = Cornerstone {
        trace_id: qwencloud_session::trace_id(0, 0),
        dashboard: "https://home.qwencloud.com/x".to_owned(),
        dashboard_host: Some("home.qwencloud.com".to_owned()),
        anonymous_id: Some("anon".to_owned()),
    };
    assert_eq!(c.trace_id.len(), 36);
    assert_eq!(&c.trace_id[14..15], "4");
    assert_ne!(c.trace_id, qwencloud_session::trace_id(0, 1));
    let body = qwencloud_session::api_request_body("an.api", Some(("k", "v")), "tok", &c).ok().unwrap();
    let text = String::from_utf8(body).unwrap();
    assert!(text.contains("sec_token=tok"));
    assert!(text.contains("X-Anonymous-Id"));
    assert!(text.contains("%22Api%22%3A%22an.api%22"));
    assert_eq!(
        qwencloud_session::api_request_body("an.api", None, "", &c).err(),
        Some(TransportError::InvalidConfiguration)
    );
    let request = qwencloud_session::api_request(
        "https://data.qwencloud.com/a",
        Vec::new(),
        "https://home.qwencloud.com",
        "https://home.qwencloud.com/x",
        "csrf=c1",
    )
    .ok()
    .unwrap();
    assert_eq!(request.sensitive_headers[0], ("x-xsrf-token".to_owned(), "c1".to_owned()));
    let probe = qwencloud_session::probe_request("https://x.example/", "a=b", RequestAccept::Html)
        .ok()
        .unwrap();
    assert_eq!(probe.accept, Some(RequestAccept::Html));
    assert!(qwencloud_session::transport_config().is_ok());
}

#[test]
fn console_routes_and_sessions_are_checked() {
    let home = urls::parse("http://127.0.0.1:9/").unwrap();
    let data = urls::parse("http://127.0.0.1:10/").unwrap();
    let class = EndpointClass::LoopbackDevelopment;
    assert!(QwenCloudRouteSet::from_origins(&home, &data, class, true, true).is_ok());
    assert!(QwenCloudRouteSet::from_origins(&home, &data, class, true, false).is_err());
    assert_eq!(
        SessionHeaders::browser(None, None, None, true).err().unwrap().kind(),
        ErrorKind::MissingCredential
    );
    assert_eq!(
        SessionHeaders::browser(None, None, None, false).err().unwrap().kind(),
        ErrorKind::AuthenticationExpired
    );
    assert!(SessionHeaders::manual("").is_err());
    assert_eq!(
        qwencloud_session::classify_capture_error(ManualCaptureError::InvalidSecret).kind(),
        ErrorKind::Parse
    );
    assert_eq!(
        qwencloud_session::classify_api_transport(&TransportError::PermissionDenied).kind(),
        ErrorKind::AuthenticationExpired
    );
    assert!(qwencloud_session::accepts_scope(ProviderId::QwenCloud, ProviderSource::ManualCookie).is_ok());
    assert!(qwencloud_session::accepts_scope(ProviderId::Zed, ProviderSource::ManualCookie).is_err());
    assert_eq!(
        qwencloud_session::api_body(404, Vec::new()).err(),
        Some(TransportError::Api { status: 404 })
    );
    assert!(qwencloud_session::optional_body(Err(TransportError::Cancelled)).is_err());
    assert_eq!(qwencloud_session::optional_body(Err(TransportError::Network)).ok(), Some(None));
}

const BILLING: &str = r#"<div data-slot="card-title"><span> Pro </span><span>$20</span></div>
<p>5-hour</p><p>12.5% used</p><p>Resets on May 1, 2024, at 12:30 PM</p>
<P>weekly</P><p><b>40</b>% Used</p>"#;

const EXTRA: &str = r#"<h2>Credit balance</h2><p class="tabular-nums">$1,234.50</p>
<h2>Usage</h2><span>Total: $3.10</span><button aria-label="Usage date range">May &amp; June</button>"#;

#[test]
fn billing_pages_are_read() {
    let pay = sakana::parse_pay_as_you_go_html(EXTRA.as_bytes()).ok().unwrap();
    let page = sakana::parse_billing_html(ProviderId::Sakana, BILLING.as_bytes(), pay).ok().unwrap();
    let five = page.five_hour.as_ref().unwrap();
    assert_eq!(five.percents, ["12.5"]);
    assert_eq!(five.seconds, 18_000);
    assert_eq!(five.resets_at.unwrap(), Timestamp::parse("2024-05-01T12:30:00Z").unwrap());
    assert_eq!(page.weekly.as_ref().unwrap().percents, ["40"]);
    assert_eq!(page.login_method.as_deref(), Some("Pro $20"));
    assert_eq!(page.rows[0].value, "$1234.50");
    assert_eq!(page.rows[1].value, "$3.10");
    assert_eq!(page.rows[1].secondary.as_deref(), Some("May & June"));
    let sample = sakana::billing_sample(page, Timestamp { nanos: 0 });
    assert_eq!(sample.primary.unwrap().minutes, Some(300));
    assert_eq!(sample.secondary.unwrap().minutes, Some(10_080));
    assert_eq!(sample.sections[0].title, "Extra usage");
    assert_eq!(sample.sections[0].rows[0].sensitivity, DetailSensitivity::Personal);
    assert_eq!(sample.provenance, ("sakana".to_owned(), "manual_cookie".to_owned()));
    assert_eq!(sakana::percent_choice(&vec![true, true]).ok(), Some(1));
    assert!(sakana::percent_choice(&vec![true, false]).is_err());
}

#[test]
fn broken_billing_pages_are_refused() {
    let kind = |provider, body: &[u8]| {
        sakana::parse_billing_html(provider, body, None).err().unwrap().kind()
    };
    assert_eq!(kind(ProviderId::Sakana, b"<p>nothing</p>"), ErrorKind::Parse);
    assert_eq!(kind(ProviderId::Zed, BILLING.as_bytes()), ErrorKind::Api);
    assert_eq!(kind(ProviderId::Sakana, b""), ErrorKind::Parse);
    assert_eq!(kind(ProviderId::Sakana, b"\xff"), ErrorKind::Parse);
}

#[test]
fn balances_are_never_negative() {
    assert!(sakana::parse_amount(&chars("$-1")).is_none());
    assert!(!sakana::parse_amount(&chars(" $1,000.5 ")).unwrap().is_below_zero());
    assert!(sakana::parse_pay_as_you_go_html(b"<p>x</p>").ok().unwrap().is_none());
    let pay = sakana::parse_pay_as_you_go_html(EXTRA.as_bytes()).ok().unwrap().unwrap();
    assert_eq!(pay.credit_balance().to_i64(), Some(1234));
    assert_eq!(pay.period_usage_total().unwrap().to_i64(), Some(3));
    assert_eq!(pay.period_label(), Some("May & June"));
    assert!(sakana::optional_pay_as_you_go(Some((404, EXTRA.as_bytes().to_vec()))).is_none());
    assert!(sakana::optional_pay_as_you_go(Some((200, EXTRA.as_bytes().to_vec()))).is_some());
}

#[test]
fn reset_dates_are_read_in_words() {
    let at = |s: &str| sakana::parse_reset_date(&chars(s)).map(|t| t.unix_seconds());
    assert_eq!(at("January 1, 1970, at 12:00 AM"), Some(0));
    assert_eq!(at("January 1, 1970, at 12:01 PM"), Some(43_260));
    assert_eq!(at("January 32, 1970, at 1:00 AM"), None);
    assert_eq!(at("Smarch 1, 1970, at 1:00 AM"), None);
    assert_eq!(at("January 1, 1970, at 13:00 AM"), None);
}

#[test]
fn elements_are_found_by_text_and_attribute() {
    let page = chars(r#"<pre>x</pre><p>One</p><p id="b">Two</p>"#);
    let low: Vec<char> = page.iter().map(|c| c.to_ascii_lowercase()).collect();
    let first = html::next_element(&low, "p", 0, low.len()).unwrap();
    assert_eq!(page[first.inner_start..first.inner_end].iter().collect::<String>(), "One");
    let second = html::find_exact_element(&page, &low, "p", "two", 0, low.len()).ok().unwrap().unwrap();
    assert!(html::has_attribute(&low[second.open_start..second.inner_start], "id", "b"));
    assert!(html::find_attribute_element(&low, "p", "id", "b").ok().unwrap().is_some());
}

#[test]
fn billing_requests_go_to_one_origin() {
    let origin = urls::parse("https://console.sakana.ai/").unwrap();
    let build = |class, allowed| {
        SakanaProvider::from_manual_capture_at(
            ProviderId::Sakana,
            Some("s=1".to_owned()),
            &origin,
            class,
            allowed,
        )
    };
    let adapter = build(EndpointClass::PublicHttps, true).ok().unwrap();
    assert!(adapter.pay_as_you_go_endpoint.starts_with(&adapter.endpoint));
    let request = adapter.request(&adapter.endpoint).ok().unwrap();
    assert_eq!(request.accept, Some(RequestAccept::Html));
    assert_eq!(build(EndpointClass::PrivateHttps, true).err().unwrap().kind(), ErrorKind::Api);
    assert!(build(EndpointClass::PublicHttps, false).is_err());
    let none = SakanaProvider::from_manual_capture_at(
        ProviderId::Sakana,
        None,
        &origin,
        EndpointClass::PublicHttps,
        true,
    );
    assert_eq!(none.err().unwrap().kind(), ErrorKind::MissingCredential);
    let production = |provider, cookie: Option<&str>| {
        SakanaProvider::new_manual(provider, cookie.map(str::to_owned), true)
    };
    let opened = production(ProviderId::Sakana, Some("s=1")).ok().unwrap();
    assert_eq!(opened.endpoint, "https://console.sakana.ai/billing");
    assert_eq!(opened.pay_as_you_go_endpoint, "https://console.sakana.ai/billing?tab=payAsYouGo");
    let bare = production(ProviderId::Sakana, None).err().unwrap();
    assert_eq!(bare.kind(), ErrorKind::MissingCredential);
    assert_eq!(production(ProviderId::Zed, Some("s=1")).err().unwrap().kind(), ErrorKind::Api);
    assert_eq!(
        sakana::classify_capture_error(ManualCaptureError::DisallowedHeader).kind(),
        ErrorKind::MissingCredential
    );
    assert!(sakana::transport_config().is_ok());
}

#[test]
fn a_second_reading_changes_nothing() {
    let body = br#"{"a":"[1,\"{\\\"b\\\":2}\"]","c":" {broken","d":[true,null]}"#;
    let document = qwencloud::parse_bounded_json(body).ok().unwrap();
    let written = json::render(&document);
    assert_eq!(written, r#"{"a":[1,{"b":2}],"c":" {broken","d":[true,null]}"#);
    let again = qwencloud::parse_bounded_json(written.as_bytes()).ok().unwrap();
    assert_eq!(json::render(&again), written);
}

#[test]
fn written_documents_read_back() {
    let body = br#"{"b":"{\"z\":1,\"a\":[-2]}","a":"plain"}"#;
    let document = qwencloud::parse_bounded_json(body).ok().unwrap();
    let written = json::render(&document);
    assert_eq!(written, r#"{"a":"plain","b":{"a":[-2],"z":1}}"#);
    let read = json::parse(written.as_bytes()).unwrap();
    assert_eq!(json::render(&read), written);
}
