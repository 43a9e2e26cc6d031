use oab_providers::capture::ManualCaptureError;
use oab_providers::error::{ClassifiedError, ErrorKind};
use oab_providers::instant::Timestamp;
use oab_providers::json::Json;
use oab_providers::providers::stepfun;
use oab_providers::providers::stepfun::{
    CommandCapture, HomepageStep, HomepageVisit, NextStep, Stage, StepFunProvider, StepFunRouteSet,
};
use oab_providers::providers::stepfun_usage;
use oab_providers::providers::stepfun_usage::{
    Amount, CreditBucket, CreditField, CreditLimit, RateLimitResponse,
};
use oab_providers::registry::ProviderId;
use oab_providers::transport::TransportError;
use oab_providers::urls;
use oab_providers::urls::EndpointClass;

fn chars(s: &str) -> Vec<char> {
    s.chars().collect()
}

fn routes() -> StepFunRouteSet {
    let origin = urls::parse("https://platform.stepfun.com/").unwrap();
    StepFunRouteSet::from_origin(&origin, EndpointClass::PublicHttps, true).ok().unwrap()
}

fn no_capture() -> CommandCapture {
    CommandCapture::Rejected(ManualCaptureError::InvalidSyntax)
}

#[test]
fn step_routes_share_one_origin() {
    let set = routes();
    assert!(set.usage.href.ends_with("/api/step.openapi.devcenter.Dashboard/QueryStepPlanRateLimit"));
    assert!(set.validate(true).is_ok());
    assert_eq!(set.validate(false).err().unwrap().kind(), ErrorKind::Api);
    let origin = urls::parse("https://example.com/").unwrap();
    assert!(StepFunRouteSet::from_origin(&origin, EndpointClass::PublicHttps, true).is_err());
}

#[test]
fn step_tokens_are_taken_from_manual_input() {
    let token = |raw: &str, capture: &CommandCapture| {
        stepfun::token_from_manual_input(raw, capture).map_err(|e| e.kind())
    };
    assert_eq!(token("Cookie: a=b; Oasis-Token=tok; c=d", &no_capture()), Ok("tok".to_owned()));
    assert_eq!(token("'tok'", &no_capture()), Ok("tok".to_owned()));
    assert_eq!(token("  ", &no_capture()), Err(ErrorKind::MissingCredential));
    assert_eq!(token("curl https://x", &no_capture()), Err(ErrorKind::Parse));
    let copied = CommandCapture::Cookie(Some("Oasis-Token=tok2".to_owned()));
    assert_eq!(token("curl https://x", &copied), Ok("tok2".to_owned()));
    assert!(stepfun::is_copied_command("curl\thttps://x"));
    assert_eq!(stepfun::normalize_token(&chars("\"tok\"")).ok().as_deref(), Some("tok"));
    let adapter =
        StepFunProvider::from_manual_capture_routes(ProviderId::StepFun, "tok", &no_capture(), routes(), true);
    assert_eq!(adapter.ok().unwrap().token, "tok");
    let production = |provider, raw| StepFunProvider::new_manual(provider, raw, &no_capture(), true);
    let opened = production(ProviderId::StepFun, "tok").ok().unwrap();
    assert_eq!(opened.routes.usage.href, routes().usage.href);
    let missing = production(ProviderId::StepFun, " ").err().unwrap();
    assert_eq!(missing.kind(), ErrorKind::MissingCredential);
    assert_eq!(production(ProviderId::Zed, "tok").err().unwrap().kind(), ErrorKind::Api);
}

#[test]
fn step_devices_are_read_from_claims() {
    let token = "a...x.eyJkZXZpY2VfaWQiOiIgZGV2LTEgIn0.y";
    assert_eq!(stepfun::web_id_for_token(token), "dev-1");
    assert_eq!(stepfun::web_id_for_token("plain"), "c8a1002d2c457e758785a9979832217c7c0b884c");
    assert!(stepfun::session_cookie_for(token).contains("dev-1"));
    assert_eq!(stepfun::extract_device_id(&chars("x.e30.y")), None);
    let request = stepfun::authenticated_post("https://platform.stepfun.com/x", token, true).ok().unwrap();
    assert_eq!(request.body, b"{}");
    assert!(request.sensitive_headers.iter().any(|h| h.0 == "oasis-token"));
}

#[test]
fn step_recovery_ends() {
    let expired = || Err(ClassifiedError::new(ErrorKind::AuthenticationExpired));
    assert_eq!(stepfun::on_query(Stage::First, true, expired()), NextStep::Refresh);
    assert_eq!(stepfun::on_refresh(true, expired()), NextStep::SignIn);
    assert!(matches!(stepfun::on_query(Stage::SignedIn, true, expired()), NextStep::Fail(_)));
    assert!(matches!(stepfun::on_query(Stage::First, true, Ok(())), NextStep::Done { .. }));
    assert!(matches!(stepfun::on_sign_in(expired()), NextStep::Fail(_)));
    let network = Err(ClassifiedError::new(ErrorKind::Network));
    assert!(matches!(stepfun::on_query(Stage::First, true, network), NextStep::Fail(_)));
}

#[test]
fn step_homepage_is_followed_a_few_times() {
    let visit = HomepageVisit::start("https://platform.stepfun.com/");
    let next = visit.on_response(302, Some("/home".to_owned()), Some("ing".to_owned())).ok().unwrap();
    let visit = match next {
        HomepageStep::Follow(visit) => visit,
        _ => panic!("follows"),
    };
    assert_eq!(visit.url, "https://platform.stepfun.com/home");
    match visit.on_response(200, None, None).ok().unwrap() {
        HomepageStep::Done(cookie) => assert_eq!(cookie, "ing"),
        _ => panic!("done"),
    }
    let headers = vec![b"a=b".to_vec(), b"INGRESSCOOKIE=v1; Path=/, x".to_vec()];
    assert_eq!(stepfun::ingress_cookie_from_headers(&headers).ok().unwrap().as_deref(), Some("v1"));
    assert!(stepfun::ingress_cookie_from_headers(&vec![b"x".to_vec(); 33]).is_err());
    assert!(stepfun::ingress_header("v1").is_ok());
    assert!(stepfun::sign_in_header("anon", "v1").ok().unwrap().contains("v1"));
    assert!(stepfun::login_body("me", "p\"w").contains("p\\\"w"));
}

#[test]
fn step_tokens_are_combined() {
    let combine = |a: Option<&str>, r: Option<&str>| {
        stepfun::combine_tokens(a.map(str::to_owned), r.map(str::to_owned), ErrorKind::Api)
            .map_err(|e| e.kind())
    };
    assert_eq!(combine(Some("a"), Some("r")), Ok("a...r".to_owned()));
    assert_eq!(combine(Some("a"), None), Ok("a".to_owned()));
    assert_eq!(combine(None, Some("r")), Err(ErrorKind::Api));
    assert_eq!(stepfun::classify_login_status(401).kind(), ErrorKind::AuthenticationExpired);
    assert_eq!(stepfun::classify_login_status(500).kind(), ErrorKind::Api);
    assert!(stepfun::require_login_success(200).is_ok());
    assert!(stepfun::require_login_success(401).is_err());
    assert_eq!(
        stepfun::classify_required_transport(&TransportError::AuthenticationExpired).kind(),
        ErrorKind::AuthenticationExpired
    );
    assert!(stepfun::transport_config().is_ok());
}

fn answer() -> RateLimitResponse {
    RateLimitResponse {
        status: Some(1),
        code: None,
        message: None,
        desc: None,
        has_five_hour_left: true,
        has_weekly_left: true,
        five_hour_reset: Some(Json::Number("1714564800".to_owned())),
        weekly_reset: Some(Json::Text("0".to_owned())),
        is_credit_family: true,
        credit: Some(CreditLimit {
            has_subscription_left: false,
            subscription_reset: Some(Json::Number("1714564800".to_owned())),
            has_topup_left: true,
            buckets: None,
        }),
    }
}

#[test]
fn live_windows_win_over_credits() {
    let live = stepfun_usage::parse_usage(&answer()).ok().unwrap();
    assert!(!live.is_credit_plan);
    let sample =
        stepfun_usage::normalize_usage(Timestamp { nanos: 0 }, &live, true, &Some(" Plus ".to_owned()), true)
            .ok()
            .unwrap();
    assert_eq!(sample.primary.unwrap().minutes, Some(300));
    assert_eq!(sample.login_method.as_deref(), Some("Plus"));
    let credit = RateLimitResponse { five_hour_reset: None, weekly_reset: None, ..answer() };
    let credit = stepfun_usage::parse_usage(&credit).ok().unwrap();
    assert!(credit.is_credit_plan);
    assert_eq!(credit.credit.field, Some(CreditField::Topup));
    let sample = stepfun_usage::normalize_usage(Timestamp { nanos: 0 }, &credit, true, &None, false).ok().unwrap();
    assert_eq!(sample.primary.unwrap().minutes, Some(43_200));
    assert_eq!(sample.login_method.as_deref(), Some("password"));
}

#[test]
fn step_failures_are_told_apart() {
    let kind = |r: RateLimitResponse| stepfun_usage::parse_usage(&r).err().unwrap().kind();
    assert_eq!(
        kind(RateLimitResponse { status: None, code: Some(401), ..answer() }),
        ErrorKind::AuthenticationExpired
    );
    assert_eq!(
        kind(RateLimitResponse { status: Some(0), desc: Some("Token expired".to_owned()), ..answer() }),
        ErrorKind::AuthenticationExpired
    );
    assert_eq!(kind(RateLimitResponse { status: Some(0), ..answer() }), ErrorKind::Api);
    assert_eq!(kind(RateLimitResponse { has_weekly_left: false, ..answer() }), ErrorKind::Parse);
    let pools = CreditLimit {
        has_subscription_left: true,
        subscription_reset: None,
        has_topup_left: false,
        buckets: Some(vec![CreditBucket {
            total: Some(Amount::Rank(5)),
            residual: Some(Amount::Rank(2)),
        }]),
    };
    assert!(stepfun_usage::total_credit_left_rate(&pools).pools);
    assert!(stepfun_usage::parse_bounded_json(b"{}").is_ok());
    assert!(stepfun_usage::is_authentication_message("401"));
    assert_eq!(stepfun_usage::flexible_second(&None), 0);
}
