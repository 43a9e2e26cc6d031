use oab_providers::decimal;
use oab_providers::decimal::Decimal;
use oab_providers::error::{ClassifiedError, ErrorKind};
use oab_providers::instant::Timestamp;
use oab_providers::json;
use oab_providers::json::Json;
use oab_providers::providers::synthetic;
use oab_providers::providers::synthetic::{PercentRule, SyntheticProvider, WindowUnit};
use oab_providers::providers::zoommate;
use oab_providers::providers::zoommate::{ApiRoutes, Profile, RedirectStep, ZoomMateRouteSet};
use oab_providers::providers::zoommate_usage;
use oab_providers::providers::zoommate_usage::{
    CreditStatus, DatedRecord, HistoryListing, HistoryPage, HistoryRecord, HistoryStep,
};
use oab_providers::registry::ProviderId;
use oab_providers::settings::Environment;
use oab_providers::urls;
use oab_providers::urls::EndpointClass;
use oab_providers::usage::ProviderSource;

fn chars(s: &str) -> Vec<char> {
    s.chars().collect()
}

fn document(s: &str) -> Json {
    json::parse(s.as_bytes()).unwrap()
}

fn number(s: &str) -> Decimal {
    decimal::from_number(s).unwrap()
}

fn at(s: &str) -> Timestamp {
    Timestamp::parse(s).unwrap()
}

fn readable(root: &Json) -> Vec<String> {
    synthetic::number_texts(root)
        .into_iter()
        .filter(|s| s.parse::<f64>().map(f64::is_finite).unwrap_or(false))
        .collect()
}

#[test]
fn known_quotas_keep_their_places() {
    let root = document(
        r#"{"data":{"rollingFiveHourLimit":{"limit":"100","used":25,"window":"5 hours"},
        "weeklyTokenLimit":{"percentRemaining":"40","resetsAt":"2024-05-01"},
        "search":{"hourly":{"limit":"0x10","requests":1}}},"plan":"Pro"}"#,
    );
    let texts = readable(&root);
    let found = synthetic::normalize(root, &texts).ok().unwrap();
    assert!(found.fixed);
    assert_eq!(found.plan.as_deref(), Some("Pro"));
    let rolling = found.quotas[0].as_ref().unwrap();
    assert_eq!(rolling.limit.as_deref(), Some("100"));
    assert_eq!(rolling.used.as_deref(), Some("25"));
    assert_eq!(
        synthetic::percent_rule(rolling),
        PercentRule::Counted { limit_missing: false, used_missing: false }
    );
    let weekly = found.quotas[1].as_ref().unwrap();
    assert_eq!(weekly.percent_remaining.as_deref(), Some("40"));
    assert_eq!(synthetic::percent_rule(weekly), PercentRule::Remaining);
    assert_eq!(weekly.resets[0].iso, Some(at("2024-05-01T00:00:00Z")));
    let hourly = found.quotas[2].as_ref().unwrap();
    assert_eq!(hourly.limit.as_deref(), Some("16"));
    let places = synthetic::arrange_windows(&vec![true, false, true], true).ok().unwrap();
    assert_eq!(places, [Some(0), None, Some(2)]);
    let places = synthetic::arrange_windows(&vec![false, true, true], false).ok().unwrap();
    assert_eq!(places, [Some(1), Some(2), None]);
    assert_eq!(
        synthetic::arrange_windows(&Vec::new(), false).err().unwrap().kind(),
        ErrorKind::Parse
    );
    let scalar = document("7");
    let texts = readable(&scalar);
    assert_eq!(synthetic::normalize(scalar, &texts).err().unwrap().kind(), ErrorKind::Parse);
}

#[test]
fn script_numbers_are_read_to_their_base() {
    assert_eq!(synthetic::js_number_text(&chars("0x1F")).as_deref(), Some("31"));
    assert_eq!(synthetic::js_number_text(&chars("0b102")), None);
    assert_eq!(synthetic::js_number_text(&chars("1e3")).as_deref(), Some("1e3"));
    let value = document("\"$1,250.5\"");
    let texts = readable(&value);
    assert_eq!(synthetic::currency_value(&value, &texts).as_deref(), Some("1250.5"));
    assert_eq!(synthetic::number_value(&document("true"), &texts), None);
}

#[test]
fn windows_are_named_by_their_length() {
    let length = synthetic::window_minutes_text(" 5 Hours ").unwrap();
    assert_eq!((length.number.as_str(), length.unit), ("5", WindowUnit::Hours));
    assert!(synthetic::window_minutes_text("5.").is_none());
    assert!(synthetic::window_minutes_text("5 weeks").is_none());
    assert_eq!(synthetic::window_description(300).as_deref(), Some("5 hours window"));
    assert_eq!(synthetic::window_description(1440).as_deref(), Some("1 day window"));
    assert_eq!(synthetic::window_description(7).as_deref(), Some("7 minutes window"));
    assert_eq!(synthetic::window_description(0), None);
    assert_eq!(synthetic::js_iso_date("2024-05-01"), Some(at("2024-05-01T00:00:00Z")));
    assert_eq!(synthetic::js_iso_date("soon"), None);
    assert_eq!(synthetic::synthetic_status(403), Some(ErrorKind::AuthenticationExpired));
    assert_eq!(synthetic::synthetic_status(404), None);
    let env = Environment { entries: vec![("SYNTHETIC_API_KEY".to_owned(), "k".to_owned())] };
    assert_eq!(SyntheticProvider::resolve_credential(&env).ok().unwrap().key, "k");
    assert!(SyntheticProvider::from_client(ProviderId::Zed, "x".to_owned()).is_err());
    assert!(synthetic::transport_config().is_ok());
}

fn status() -> CreditStatus {
    CreditStatus {
        budget_cap: Some(number("200")),
        used_credit: Some(number("50")),
        cycle_start_millis: Some(1_714_521_600_000),
        cycle_end_millis: Some(1_714_521_600_000 + 10 * 86_400_000),
        unlimited: Some(false),
    }
}

#[test]
fn credit_answers_are_read() {
    let body = br#"{"status_code":0,"data":{"credit_status":{"budget_cap":200,"used_credit":50.5,
        "cycle_end_date":1714564800000,"is_unlimited":false}}}"#;
    let found = zoommate_usage::parse_status_response(body).ok().unwrap();
    assert_eq!(found.budget_cap, Some(number("200")));
    assert_eq!(found.cycle_end_millis, Some(1_714_564_800_000));
    let kind = |body: &[u8]| zoommate_usage::parse_status_response(body).err().unwrap().kind();
    assert_eq!(kind(b"{}"), ErrorKind::Parse);
    assert_eq!(kind(br#"{"data":{"credit_status":{"budget_cap":"200"}}}"#), ErrorKind::Parse);
    let (token, email) =
        zoommate_usage::parse_login_response(br#"{"data":{"nak":"Bearer t1","user_profile":{"email":" a@b "}}}"#)
            .ok()
            .unwrap();
    assert_eq!((token.as_str(), email.as_deref()), ("t1", Some("a@b")));
    assert!(zoommate_usage::parse_login_response(br#"{"data":{}}"#).is_err());
}

#[test]
fn credit_shares_are_limited() {
    let history = zoommate_usage::normalize_history(&vec![], at("2024-05-02T00:00:00Z")).ok();
    let shown = |s: &CreditStatus| {
        zoommate_usage::normalize_usage(
            ProviderId::ZoomMate,
            ProviderSource::ManualCookie,
            at("2024-05-02T00:00:00Z"),
            s,
            &None,
            true,
            &None,
            Some("a@b".to_owned()),
        )
        .ok()
        .unwrap()
        .primary
        .unwrap()
        .used
        .unwrap()
    };
    assert_eq!(shown(&status()).to_i64(), Some(25));
    assert_eq!(shown(&CreditStatus { used_credit: Some(number("900")), ..status() }).to_i64(), Some(100));
    assert_eq!(shown(&CreditStatus { unlimited: Some(true), ..status() }).to_i64(), Some(0));
    assert!(history.is_some());
    let refused = zoommate_usage::normalize_usage(
        ProviderId::Zed,
        ProviderSource::ManualCookie,
        at("2024-05-02T00:00:00Z"),
        &status(),
        &None,
        true,
        &None,
        None,
    );
    assert_eq!(refused.err().unwrap().kind(), ErrorKind::Api);
}

#[test]
fn history_days_ascend() {
    let record = |cost: &str, local: Timestamp, deleted| DatedRecord {
        cost: Some(number(cost)),
        deleted,
        local: Some(local),
    };
    let records = vec![
        record("2", at("2024-05-02T10:00:00Z"), false),
        record("1.5", at("2024-05-01T10:00:00Z"), false),
        record("0.5", at("2024-05-02T11:00:00Z"), false),
        record("9", at("2024-05-02T11:00:00Z"), true),
        record("9", at("2024-03-01T11:00:00Z"), false),
        record("-1", at("2024-05-02T11:00:00Z"), false),
    ];
    let found = zoommate_usage::normalize_history(&records, at("2024-05-02T12:00:00Z")).ok().unwrap();
    assert_eq!(found.daily.len(), 2);
    assert!(found.daily[0].day < found.daily[1].day);
    assert_eq!(zoommate_usage::day_label(found.daily[1].day).as_deref(), Some("2024-05-02"));
    assert_eq!(found.today_records, 2);
    assert_eq!(zoommate_usage::format_credits(found.today), "2.5");
    assert_eq!(zoommate_usage::format_credits(found.total), "4");
    assert_eq!(zoommate_usage::format_credits(number("-1234567.891")), "-1,234,567.89");
}

#[test]
fn history_pages_end() {
    let start = at("2024-04-02T00:00:00Z");
    let page = |count: usize, total: Option<i64>| HistoryPage {
        records: (0..count)
            .map(|_| HistoryRecord {
                cost: Some(number("1")),
                time: Some("2024-05-01T00:00:00Z".to_owned()),
                deleted: None,
            })
            .collect(),
        total,
    };
    assert!(matches!(
        HistoryListing::first().on_page(page(50, Some(120)), start),
        HistoryStep::Again(listing) if listing.records.len() == 50
    ));
    assert!(matches!(
        HistoryListing::first().on_page(page(3, Some(3)), start),
        HistoryStep::Done(snapshot) if snapshot.coverage_established
    ));
    let parsed = zoommate_usage::parse_history_page(
        br#"{"data":{"records":[{"cost":1.5,"time":"2024-05-01T00:00:00Z","is_deleted":true}],"total":1}}"#,
    )
    .ok()
    .unwrap();
    assert_eq!(parsed.records[0].deleted, Some(true));
    assert!(zoommate_usage::parse_history_page(br#"{"data":{"records":{}}}"#).is_err());
    let (from, first, last) = zoommate_usage::history_interval(at("2024-05-31T12:00:00Z")).ok().unwrap();
    assert!(from.nanos < at("2024-05-31T12:00:00Z").nanos);
    let url = zoommate_usage::history_url("https://ai.zoom.us/h", 2, &first, &last).unwrap();
    assert!(url.starts_with("https://ai.zoom.us/h?"));
    assert_eq!(
        zoommate_usage::localized(at("2024-05-01T23:30:00Z"), 3600),
        Some(at("2024-05-02T00:30:00Z"))
    );
}

#[test]
fn pacing_compares_with_the_cycle() {
    let half = at("2024-05-06T00:00:00Z");
    let delta = zoommate_usage::pacing_delta(&status(), half).unwrap();
    assert_eq!(delta.to_i64(), Some(-25));
    assert!(zoommate_usage::pacing_delta(&CreditStatus { unlimited: Some(true), ..status() }, half).is_none());
    assert_eq!(zoommate_usage::pacing_text(true, false, 0), "On track");
    assert_eq!(zoommate_usage::pacing_text(false, true, 5), "5% ahead of budget");
    assert_eq!(zoommate_usage::pacing_text(false, false, 25), "25% behind budget");
}

#[test]
fn only_rejections_advance_to_the_next_host() {
    let expired = ClassifiedError::new(ErrorKind::AuthenticationExpired);
    let network = ClassifiedError::new(ErrorKind::Network);
    assert_eq!(zoommate::host_order(1), (1, 0));
    assert!(!zoommate::try_next_host(false, &network, false));
    assert!(!zoommate::try_next_host(true, &network, true));
    assert!(zoommate::invalidates_bearer(&expired));
    assert!(!zoommate::invalidates_bearer(&network));
    assert!(zoommate::on_profile_failure(false, expired, false).is_some());
    assert!(zoommate::history_failure(network, true).is_some());
}

#[test]
fn bearers_are_normalized_and_expire() {
    assert_eq!(zoommate::normalize_bearer_token(" BEARER tok ").ok().as_deref(), Some("tok"));
    assert_eq!(
        zoommate::normalize_bearer_token("a\nb").err().unwrap().kind(),
        ErrorKind::MissingCredential
    );
    let token = "h.eyJleHAiOjE3MTQ1NjQ4MDB9.s";
    assert_eq!(zoommate::expiry_from_jwt(token).as_deref(), Some("1714564800"));
    assert_eq!(zoommate::expiry_from_jwt("h.e30.s"), None);
    let expiry = at("2024-05-01T12:00:00Z");
    assert!(zoommate::cached_bearer_usable(expiry, at("2024-05-01T11:58:00Z")));
    assert!(!zoommate::cached_bearer_usable(expiry, at("2024-05-01T11:59:30Z")));
}

#[test]
fn mate_routes_and_requests_are_fixed() {
    let primary = urls::parse("https://ai.zoom.us/").unwrap();
    let alternate = urls::parse("https://zoommate.zoom.us/").unwrap();
    let set = ZoomMateRouteSet::from_origins(&primary, &alternate, EndpointClass::PublicHttps, true)
        .ok()
        .unwrap();
    assert_eq!(set.primary.status.href, "https://ai.zoom.us/ai-computer/api/v1/credits/status");
    assert!(set.validate(false).is_err());
    assert!(ApiRoutes::new(&primary).is_ok());
    let headers =
        zoommate::request_headers(&Vec::new(), &Some("tok".to_owned()), &Some("a=b".to_owned())).unwrap();
    assert!(headers.contains(&("authorization".to_owned(), "Bearer tok".to_owned())));
    assert!(headers.contains(&("origin".to_owned(), "https://zoommate.zoom.us".to_owned())));
    assert!(zoommate::request_headers(&Vec::new(), &Some("a\u{1}".to_owned()), &None).is_err());
    assert_eq!(zoommate::on_redirect(10, true), RedirectStep::Fail);
    assert_eq!(zoommate::on_redirect(0, false), RedirectStep::Stop);
    assert_eq!(zoommate::on_redirect(9, true), RedirectStep::Follow);
    assert!(zoommate::on_response_head(200, Some(1)).is_ok());
    assert_eq!(
        zoommate::on_response_head(200, Some(u64::MAX)).err().unwrap().kind(),
        ErrorKind::Parse
    );
    assert_eq!(
        zoommate::on_response_head(401, None).err().unwrap().kind(),
        ErrorKind::AuthenticationExpired
    );
    let url = urls::parse("https://zoommate.zoom.us/ai-computer/api/v1/credits/status").unwrap();
    let manual = zoommate::manual_credential(
        &Some(url),
        &Some("Bearer tok".to_owned()),
        Ok(Some("a=b".to_owned())),
        &Vec::new(),
    )
    .ok()
    .unwrap();
    assert_eq!((manual.token.as_str(), manual.preferred_host), ("tok", 1));
    assert_eq!(manual.cookie.as_deref(), Some("a=b"));
    assert!(zoommate::manual_credential(&None, &None, Ok(None), &Vec::new()).is_err());
    let profiles = vec![
        Profile { has_cookies: true, has_login: false },
        Profile { has_cookies: true, has_login: true },
    ];
    assert_eq!(zoommate::browser_sessions(&profiles).ok(), Some(vec![1]));
    assert!(zoommate::validate_scope_source(ProviderId::ZoomMate, ProviderSource::ApiKey).is_err());
}

#[test]
fn quotas_are_visited_by_ascending_key() {
    let quota = |used: &str| {
        Json::Object(vec![
            ("limit".to_owned(), Json::Number("10".to_owned())),
            ("used".to_owned(), Json::Number(used.to_owned())),
        ])
    };
    let unsorted =
        Json::Object(vec![("zeta".to_owned(), quota("2")), ("alpha".to_owned(), quota("1"))]);
    let texts = readable(&unsorted);
    let found = synthetic::collect_quotas(&unsorted, 0, &texts).ok().unwrap();
    let used: Vec<_> =
        found.iter().map(|quota| synthetic::parse_quota(quota, &texts).used.unwrap()).collect();
    assert_eq!(used, ["1", "2"]);
}

#[test]
fn neighbouring_days_differ() {
    let label = |day| zoommate_usage::day_label(day).unwrap();
    assert_eq!((label(789), label(790)), ("1972-02-29".to_owned(), "1972-03-01".to_owned()));
    assert_eq!((label(-1), label(0)), ("1969-12-31".to_owned(), "1970-01-01".to_owned()));
}
