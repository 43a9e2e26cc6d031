use oab_providers::capture::ManualCaptureError;
use oab_providers::error::ErrorKind;
use oab_providers::exchange;
use oab_providers::providers::t3chat;
use oab_providers::providers::t3chat::{Captured, T3ChatProvider};
use oab_providers::registry::ProviderId;
use oab_providers::transport::RequestAccept;
use oab_providers::urls;
use oab_providers::urls::{EndpointClass, UrlParts};
use oab_providers::usage::ProviderSource;

fn origin() -> UrlParts {
    urls::parse("https://t3.chat").unwrap()
}

fn captured(headers: &[(&str, &str)]) -> Captured {
    Captured {
        cookie: Some("session=1".to_owned()),
        headers: headers.iter().map(|(k, v)| (k.to_string(), v.to_string())).collect(),
    }
}

fn manual(headers: &[(&str, &str)]) -> Result<T3ChatProvider, ErrorKind> {
    T3ChatProvider::from_manual_capture_at(
        ProviderId::T3Chat,
        Ok(captured(headers)),
        &origin(),
        EndpointClass::PublicHttps,
        true,
    )
    .map_err(|e| e.kind())
}

#[test]
fn customer_data_has_one_address() {
    let url = t3chat::customer_data_url(&origin()).ok().unwrap();
    assert!(url.href.starts_with("https://t3.chat/api/trpc/getCustomerData?batch=1&input=%7B"));
    assert!(t3chat::validate_customer_data_url(&url).is_ok());
    let other = urls::parse("https://t3.chat/api/trpc/getCustomerData?batch=2").unwrap();
    assert_eq!(
        t3chat::validate_customer_data_url(&other).err().unwrap().kind(),
        ErrorKind::Api
    );
    let queried = urls::parse("https://t3.chat/?x=1").unwrap();
    assert!(t3chat::customer_data_url(&queried).is_err());
}

#[test]
fn forwarded_headers_replace_defaults() {
    let adapter = manual(&[
        ("user-agent", "first"),
        ("accept", "APPLICATION/JSON"),
        ("user-agent", "second"),
        ("cache-control", "max-age=0"),
    ])
    .ok()
    .unwrap();
    assert_eq!(adapter.accept, RequestAccept::Json);
    assert_eq!(adapter.forwarded_headers[0].0, "cache-control");
    assert_eq!(adapter.forwarded_headers[1].1, "second");
    let request = adapter.request().ok().unwrap();
    let public: Vec<_> = request.public_headers.iter().map(|h| h.0.as_str()).collect();
    assert_eq!(public.len(), 11);
    assert!(!public.contains(&"user-agent"));
    assert_eq!(public.last(), Some(&"origin"));
    assert_eq!(request.accepted_statuses, [401, 403, 429]);
    let sent = exchange::outgoing_headers(&request).unwrap();
    assert!(sent.contains(&("cookie".to_owned(), "session=1".to_owned())));
    assert_eq!(sent.iter().filter(|h| h.0 == "user-agent").count(), 1);
}

#[test]
fn unusable_captures_are_refused() {
    assert_eq!(manual(&[("accept", "image/png")]).err(), Some(ErrorKind::Api));
    assert_eq!(manual(&[("referer", &"x".repeat(8193))]).err(), Some(ErrorKind::Api));
    let missing = T3ChatProvider::from_manual_capture_at(
        ProviderId::T3Chat,
        Err(ManualCaptureError::MissingSecret),
        &origin(),
        EndpointClass::PublicHttps,
        true,
    );
    assert_eq!(missing.err().unwrap().kind(), ErrorKind::MissingCredential);
    let private = T3ChatProvider::from_manual_capture_at(
        ProviderId::T3Chat,
        Ok(captured(&[])),
        &origin(),
        EndpointClass::PrivateHttps,
        true,
    );
    assert_eq!(private.err().unwrap().kind(), ErrorKind::Api);
    let spoiled = manual(&[("x-deployment-id", "a\r\nb")]).ok().unwrap();
    assert_eq!(spoiled.request().err().unwrap().kind(), ErrorKind::Api);
}

#[test]
fn browser_sessions_need_a_cookie() {
    let attempt = |header: Result<Option<String>, ()>, empty: bool| {
        T3ChatProvider::from_browser_jar_at(
            ProviderId::T3Chat,
            header,
            empty,
            t3chat::customer_data_url(&origin()).ok().unwrap(),
            EndpointClass::PublicHttps,
            true,
        )
        .map(|adapter| adapter.source)
        .map_err(|e| e.kind())
    };
    assert_eq!(attempt(Ok(None), true).err(), Some(ErrorKind::MissingCredential));
    assert_eq!(attempt(Ok(None), false).err(), Some(ErrorKind::AuthenticationExpired));
    assert_eq!(attempt(Err(()), false).err(), Some(ErrorKind::Api));
    assert_eq!(
        attempt(Ok(Some("a=b".to_owned())), false).ok(),
        Some(ProviderSource::BrowserSession)
    );
}

#[test]
fn challenges_are_told_from_limits() {
    let kind = |status, header: Option<&str>| {
        t3chat::check_status(status, &header.map(str::to_owned)).err().map(|e| e.kind())
    };
    assert_eq!(kind(200, None), None);
    assert_eq!(kind(403, None), Some(ErrorKind::AuthenticationExpired));
    assert_eq!(kind(429, Some("Challenge")), Some(ErrorKind::PermissionDenied));
    assert_eq!(kind(429, Some("deny")), Some(ErrorKind::RateLimited));
    assert_eq!(kind(500, None), Some(ErrorKind::Api));
}

#[test]
fn customer_data_is_found_on_a_line() {
    let body = "not json\n\r\n{\"json\":[1,2]}\r\n{\"x\":[{\"subscription\":{\"productName\":\"pro-plan\",\"currentPeriodEnd\":1714564800},\"usageBand\":\" high \",\"subTier\":\"free\"}]}\n{\"usageMonthPercentage\":5}\n";
    let customer = t3chat::parse_json_lines(body.as_bytes()).ok().unwrap();
    assert_eq!(customer.current_period_end.as_deref(), Some("1714564800"));
    assert_eq!(t3chat::customer_login(&customer).as_deref(), Some("Pro Plan"));
    assert_eq!(t3chat::primary_description(&customer.usage_band), "Base - high");
    assert_eq!(t3chat::overage_percentage(&customer), None);
    let listed = br#"{"usageMonthPercentage":5,"subscription":["team",null]}"#;
    let customer = t3chat::parse_json_lines(listed).ok().unwrap();
    assert_eq!(customer.product_name.as_deref(), Some("team"));
    assert_eq!(t3chat::overage_percentage(&customer), Some("5"));
    assert_eq!(t3chat::primary_description(&None), "Base");
    assert_eq!(t3chat::format_plan_name("  "), None);
    assert_eq!(t3chat::format_plan_name("über--pro").as_deref(), Some("Über Pro"));
}

#[test]
fn unusable_lines_are_refused() {
    let kind = |body: &[u8]| t3chat::parse_json_lines(body).err().unwrap().kind();
    assert_eq!(kind(b""), ErrorKind::Parse);
    assert_eq!(kind(b"\xff"), ErrorKind::Parse);
    assert_eq!(kind("\n".repeat(257).as_bytes()), ErrorKind::Parse);
    let deep = format!("{}1{}", "[".repeat(34), "]".repeat(34));
    assert_eq!(kind(deep.as_bytes()), ErrorKind::Parse);
    assert_eq!(kind(br#"{"usageMonthPercentage":"5"}"#), ErrorKind::Parse);
    assert!(t3chat::transport_config().is_ok());
}

#[test]
fn production_adapters_have_one_target() {
    let target = T3ChatProvider::browser_target(&origin(), true).ok().unwrap();
    assert_eq!(target.href, t3chat::customer_data_url(&origin()).ok().unwrap().href);
    assert_eq!(T3ChatProvider::browser_target(&origin(), false).err().unwrap().kind(), ErrorKind::Api);
    let manual = T3ChatProvider::new_manual(ProviderId::T3Chat, Ok(captured(&[])), true);
    assert_eq!(manual.ok().unwrap().endpoint.href, target.href);
    let browser = |header: Option<&str>, sendable| {
        let header = Ok(header.map(str::to_owned));
        T3ChatProvider::new_browser(ProviderId::T3Chat, header, false, sendable, true)
    };
    assert_eq!(browser(Some("a=b"), true).ok().unwrap().endpoint.href, target.href);
    assert_eq!(browser(None, true).err().unwrap().kind(), ErrorKind::AuthenticationExpired);
    assert_eq!(browser(Some("a=b"), false).err().unwrap().kind(), ErrorKind::Api);
}
