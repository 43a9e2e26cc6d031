use oab_providers::error::{ClassifiedError, ErrorKind};
use oab_providers::instant::Timestamp;
use oab_providers::json;
use oab_providers::json::Json;
use oab_providers::providers::vertexai;
use oab_providers::providers::vertexai::{AdcCredentials, AdcDocument, VertexCredentialKind};
use oab_providers::providers::vertexai_quota;
use oab_providers::providers::vertexai_quota::{
    Listing, ListingStep, Page, Point, QuotaSeries, Reading, Series,
};
use oab_providers::providers::vertexai_settings;
use oab_providers::providers::vertexai_settings::{
    ConfigFile, GcloudSearch, VertexAiProvider, VertexSettings,
};
use oab_providers::providers::warp;
use oab_providers::providers::warp::{
    BonusGrant, GraphQlResponse, PlatformMetadata, RequestLimitInfo, User, WarpProvider,
};
use oab_providers::providers::xai;
use oab_providers::providers::xai::{
    UsageEnvelope, UsagePoint, UsageSeries, XaiCredential, XaiProvider,
};
use oab_providers::registry::ProviderId;
use oab_providers::settings::Environment;
use oab_providers::subprocess::SubprocessError;
use oab_providers::urls;
use oab_providers::usage::{CostProvenance, DataConfidence, DetailSensitivity, Share};

fn environment(entries: &[(&str, &str)]) -> Environment {
    Environment {
        entries: entries.iter().map(|(k, v)| (k.to_string(), v.to_string())).collect(),
    }
}

fn at(s: &str) -> Timestamp {
    Timestamp::parse(s).unwrap()
}

fn user_document() -> AdcDocument {
    AdcDocument {
        credential_type: None,
        client_id: Some("id".to_owned()),
        client_secret: Some("secret".to_owned()),
        refresh_token: Some("refresh".to_owned()),
        access_token: Some("access".to_owned()),
        token_expiry: Some("2024-05-01T12:00:00Z".to_owned()),
        id_token: None,
        client_email: None,
        private_key: None,
        project_id: None,
    }
}

fn service_document() -> AdcDocument {
    AdcDocument {
        credential_type: Some("service_account".to_owned()),
        client_email: Some(" svc@example ".to_owned()),
        private_key: Some("key".to_owned()),
        project_id: Some("own-project".to_owned()),
        client_id: None,
        ..user_document()
    }
}

#[test]
fn default_credentials_are_told_apart() {
    match vertexai::parse_adc(user_document()).ok().unwrap() {
        AdcCredentials::User { client_id, expires_at, .. } => {
            assert_eq!(client_id, "id");
            assert_eq!(expires_at, Some(at("2024-05-01T12:00:00Z")));
        }
        _ => panic!("a user"),
    }
    let service = vertexai::parse_adc(service_document()).ok().unwrap();
    assert_eq!(service.kind(), VertexCredentialKind::ServiceAccount);
    let kind = |document| vertexai::parse_adc(document).err().unwrap().kind();
    assert_eq!(
        kind(AdcDocument { client_secret: None, ..user_document() }),
        ErrorKind::MissingCredential
    );
    assert_eq!(
        kind(AdcDocument { credential_type: Some("authorized_user".to_owned()), ..service_document() }),
        ErrorKind::Parse
    );
    assert_eq!(kind(AdcDocument { private_key: None, ..service_document() }), ErrorKind::Parse);
    assert_eq!(
        kind(AdcDocument { project_id: Some("a b".to_owned()), ..service_document() }),
        ErrorKind::Api
    );
}

#[test]
fn own_project_wins_over_configured_one() {
    let service = vertexai::parse_adc(service_document()).ok().unwrap();
    let chosen = vertexai::select_project(&service, Some("configured".to_owned()));
    assert_eq!(chosen.ok().as_deref(), Some("own-project"));
    let user = vertexai::parse_adc(user_document()).ok().unwrap();
    let chosen = vertexai::select_project(&user, Some("configured".to_owned()));
    assert_eq!(chosen.ok().as_deref(), Some("configured"));
    assert!(vertexai::select_project(&user, None).is_err());
    let env = environment(&[("GCLOUD_PROJECT", "from-env")]);
    let file = ConfigFile::Content(b"[core]\nproject = from-file\n".to_vec());
    let load = |file: &ConfigFile| vertexai_settings::load_project_id(file, &env);
    assert_eq!(load(&file).ok().unwrap().as_deref(), Some("from-file"));
    assert_eq!(load(&ConfigFile::Absent).ok().unwrap().as_deref(), Some("from-env"));
    assert_eq!(load(&ConfigFile::Unreadable).err().unwrap().kind(), ErrorKind::Parse);
}

#[test]
fn cloud_settings_are_resolved() {
    let env = environment(&[("HOME", "/home/x"), ("GOOGLE_CLOUD_PROJECT", "p1")]);
    let places = vertexai::select_paths(&env).ok().unwrap();
    assert_eq!(places.adc_path, "/home/x/.config/gcloud/application_default_credentials.json");
    let found = VertexSettings::resolve(
        places,
        user_document(),
        vec![1],
        &ConfigFile::Absent,
        GcloudSearch::Missing,
        &env,
    )
    .ok()
    .unwrap();
    assert_eq!(found.project_id(), "p1");
    assert_eq!(found.credential_kind(), VertexCredentialKind::User);
    assert_eq!(found.gcloud_path(), None);
    let places = vertexai::select_paths(&env).ok().unwrap();
    let missing = VertexSettings::resolve(
        places,
        service_document(),
        vec![1],
        &ConfigFile::Absent,
        GcloudSearch::Missing,
        &env,
    );
    assert_eq!(missing.err().unwrap().kind(), ErrorKind::MissingCredential);
    assert!(vertexai::select_paths(&environment(&[])).is_err());
}

#[test]
fn tokens_are_refreshed_early() {
    let expiry = Some(at("2024-05-01T12:00:00Z"));
    assert!(vertexai::token_is_fresh(true, expiry, 1_714_564_800 - 301));
    assert!(!vertexai::token_is_fresh(true, expiry, 1_714_564_800 - 300));
    assert!(!vertexai::token_is_fresh(false, expiry, 0));
    let request = vertexai::refresh_request("https://oauth2.googleapis.com/token", "i d", "s", "t").ok().unwrap();
    assert_eq!(
        String::from_utf8(request.body).unwrap(),
        "client_id=i+d&client_secret=s&refresh_token=t&grant_type=refresh_token"
    );
    assert_eq!(
        vertexai::classify_refresh(400, &Some("invalid_grant".to_owned())).kind(),
        ErrorKind::AuthenticationExpired
    );
    assert_eq!(
        vertexai::parse_refresh(&Some("Bearer".to_owned()), Some("tok".to_owned()), None).ok().as_deref(),
        Some("tok")
    );
    assert!(vertexai::parse_refresh(&Some("MAC".to_owned()), Some("tok".to_owned()), None).is_err());
    assert_eq!(vertexai::helper_token(b" tok\n").ok().as_deref(), Some("tok"));
    assert_eq!(
        vertexai::map_subprocess_error(SubprocessError::Timeout).kind(),
        ErrorKind::Network
    );
}

#[test]
fn fingerprints_tell_changed_files() {
    let digest = vertexai::fingerprint(b"abc");
    assert_eq!(digest[..4], [0xba, 0x78, 0x16, 0xbf]);
    assert_eq!(digest.len(), 32);
    assert!(vertexai::verify_fingerprint(b"abc", &digest).is_ok());
    assert!(vertexai::verify_fingerprint(b"abd", &digest).is_err());
}

#[test]
fn identity_claims_are_decoded() {
    let token = "x.eyJlbWFpbCI6ImFAYi5jIn0.y";
    let claims = vertexai::id_token_claims(token).unwrap();
    assert_eq!(claims, br#"{"email":"a@b.c"}"#);
    assert!(vertexai::id_token_claims("only-one-part").is_none());
    assert_eq!(
        vertexai_settings::claimed_identity(&Some(" a@b.c ".to_owned())).as_deref(),
        Some("a@b.c")
    );
}

fn series(metric: &str, limit: &str, rank: u64) -> Series {
    Series {
        metric_labels: vec![
            ("quota_metric".to_owned(), metric.to_owned()),
            ("limit_name".to_owned(), limit.to_owned()),
        ],
        resource_labels: Vec::new(),
        points: vec![
            Point { double_value: None, int64_value: Some(Reading::Rank(rank)) },
            Point { double_value: Some(Reading::Rank(rank.saturating_sub(1))), int64_value: None },
        ],
    }
}

#[test]
fn quotas_are_paired_with_their_limits() {
    let usage = vec![series("m", "l", 3), series("m", "l", 5), series("n", "l", 1)];
    let limits = vec![series("m", "", 9), series("m", "l", 7), series("n", "l", 0)];
    let pairs = vertexai_quota::quota_pairs(&usage, &limits).ok().unwrap();
    assert!(pairs.contains(&(5, 7)));
    assert!(pairs.iter().all(|(_, limit)| *limit > 0));
    let key = vertexai_quota::quota_key(&usage[0]).ok().unwrap().unwrap();
    assert_eq!(key.location, "global");
    assert_eq!(vertexai_quota::maximum_point(&usage[0].points).ok().unwrap(), Some(3));
    assert!(vertexai_quota::validate_label(&"x".repeat(4097)).is_err());
}

#[test]
fn pages_are_bounded_and_never_repeat() {
    let page = |token: Option<&str>| Page {
        series: vec![series("m", "l", 1)],
        next_page_token: token.map(str::to_owned),
    };
    let listing = match Listing::start().on_page(page(Some("next"))).ok().unwrap() {
        ListingStep::Again(listing) => listing,
        _ => panic!("goes on"),
    };
    assert_eq!(listing.token.as_deref(), Some("next"));
    assert!(listing.on_page(page(Some("next"))).is_err());
    assert!(matches!(
        Listing::start().on_page(page(None)).ok().unwrap(),
        ListingStep::Done(all) if all.len() == 1
    ));
}

#[test]
fn quota_pages_are_asked_for_one_day() {
    let interval = vertexai_quota::quota_interval(at("2024-05-02T12:00:00Z")).ok().unwrap();
    assert_eq!(interval.0, "2024-05-01T12:00:00Z");
    assert_eq!(interval.1, "2024-05-02T12:00:00Z");
    let request = vertexai_quota::page_request(
        "https://monitoring.googleapis.com/",
        "p1",
        QuotaSeries::Usage,
        &interval,
        &Some("tok".to_owned()),
        "access",
    )
    .ok()
    .unwrap();
    assert!(request.url.starts_with("https://monitoring.googleapis.com/v3/projects/p1/timeSeries?"));
    assert!(request.url.contains("pageToken=tok"));
    assert!(VertexAiProvider::new(ProviderId::VertexAi, true).is_ok());
    assert!(VertexAiProvider::new(ProviderId::Zed, true).is_err());
    let loopback = urls::parse("http://127.0.0.1:1/").unwrap();
    assert!(VertexAiProvider::with_loopback_endpoints(ProviderId::VertexAi, &loopback, &loopback, true).is_ok());
}

#[test]
fn gcloud_is_run_with_few_variables() {
    let env = environment(&[("PATH", "/bin"), ("SECRET", "x")]);
    let variables = vertexai::gcloud_environment(&env, "/home/x");
    assert!(variables.iter().any(|v| v.0 == "PATH"));
    assert!(!variables.iter().any(|v| v.0 == "SECRET"));
    assert!(!vertexai::gcloud_fallbacks("/home/x").is_empty());
    let request =
        vertexai_settings::gcloud_request("/bin/gcloud", "/home/x/adc.json", "/home/x/.config/gcloud", &variables)
            .ok()
            .unwrap();
    assert!(request.clear_environment);
    let sample = vertexai::normalize(Timestamp { nanos: 0 }, "p1", Some("a@b.c".to_owned()), true);
    assert_eq!(sample.email.as_deref(), Some("a@b.c"));
    assert!(vertexai::transport_config().is_ok());
}

fn point(day: &str, value: &str) -> UsagePoint {
    UsagePoint { timestamp: day.to_owned(), values: Some(vec![value.to_owned()]) }
}

fn envelope(points: Vec<UsagePoint>) -> UsageEnvelope {
    UsageEnvelope {
        time_series: Some(vec![UsageSeries { data_points: Some(points) }]),
        limit_reached: Some(true),
    }
}

#[test]
fn days_of_spending_ascend() {
    let history = xai::parse_history(&envelope(vec![
        point("2024-05-02T01:00:00Z", "1.5"),
        point("2024-05-01T01:00:00Z", "2"),
        point("2024-05-02T03:00:00+02:00", "0.25"),
    ]))
    .ok()
    .unwrap();
    let days: Vec<_> = history.daily.iter().map(|d| d.0.as_str()).collect();
    assert_eq!(days, ["2024-05-01", "2024-05-02"]);
    assert_eq!(xai::format_usd(history.total), "$3.75");
    assert!(history.partial);
    let today = xai::build_history(history, at("2024-05-02T12:00:00Z"));
    assert_eq!(today.session.map(xai::format_usd).as_deref(), Some("$1.75"));
    let found = xai::normalize(at("2024-05-02T12:00:00Z"), xai::parse_balance("-1250").ok().unwrap(), Some(today));
    let section = &found.sections[0];
    assert_eq!(section.title, "Billing summary");
    assert_eq!(section.rows[0].value, "$12.50");
    assert_eq!(section.rows[1].label, "Last 30 days (partial)");
    assert_eq!(section.rows[0].sensitivity, DetailSensitivity::Public);
    assert_eq!(section.chart.as_ref().unwrap().points.len(), 2);
    assert_eq!(found.confidence, Some(DataConfidence::Estimated));
    let cost = found.cost.unwrap();
    assert_eq!((cost.currency.as_str(), cost.period.as_str()), ("USD", "Prepaid credits"));
    assert_eq!(xai::format_usd(cost.amount), "$12.50");
    let updated = at("2024-05-02T12:00:00Z");
    assert_eq!((cost.updated_at, cost.provenance), (updated, CostProvenance::VendorMetered));
    let spent = found.cost_usage.unwrap();
    assert_eq!((spent.updated_at, spent.provenance), (updated, CostProvenance::VendorMetered));
    assert_eq!((spent.unit.as_str(), spent.days, spent.complete), ("USD", 30, false));
    assert_eq!(spent.session.amount.map(xai::format_usd).as_deref(), Some("$1.75"));
    assert_eq!(spent.daily[0].0, "2024-05-01");
    assert_eq!(found.provenance, ("xai".to_owned(), "management-api".to_owned()));
    let kind = |e: UsageEnvelope| xai::parse_history(&e).err().unwrap().kind();
    assert_eq!(kind(envelope(vec![point("2024-05-02T01:00:00Z", "-1")])), ErrorKind::Parse);
    assert_eq!(kind(UsageEnvelope { time_series: None, limit_reached: None }), ErrorKind::Parse);
    assert_eq!(xai::parse_balance("1e5").err().unwrap().kind(), ErrorKind::Parse);
}

#[test]
fn teams_have_their_own_urls() {
    let env = environment(&[("XAI_MANAGEMENT_API_KEY", "k"), ("XAI_TEAM_ID", "te am")]);
    if let Ok(found) = XaiCredential::resolve(&env) {
        assert_eq!(found.team_id, "te am");
    }
    let adapter = XaiProvider::from_client(
        ProviderId::Xai,
        "https://management-api.x.ai/v1/billing/teams/".to_owned(),
        "te am".to_owned(),
    )
    .ok()
    .unwrap();
    assert_eq!(
        adapter.balance_url().unwrap(),
        "https://management-api.x.ai/v1/billing/teams/te%20am/prepaid/balance"
    );
    assert_eq!(adapter.usage_url().unwrap(), "https://management-api.x.ai/v1/billing/teams/te%20am/usage");
    assert_eq!(xai::validate_team_id("..").err().unwrap().kind(), ErrorKind::MissingCredential);
    let body = xai::usage_request_body(at("2024-05-31T12:34:56Z")).unwrap();
    assert!(body.contains("2024-05-02 00:00:00"));
    assert!(body.contains("2024-05-31 12:34:56"));
    let denied = ClassifiedError::new(ErrorKind::PermissionDenied);
    assert_eq!(xai::remap_authentication(denied).kind(), ErrorKind::AuthenticationExpired);
    assert_eq!(xai::history_or_none(Err(ClassifiedError::new(ErrorKind::Parse))).map(|h| h.is_none()).ok(), Some(true));
    assert!(xai::transport_config().is_ok());
}

fn grant(granted: &str, remaining: &str, expiration: Option<&str>) -> BonusGrant {
    BonusGrant {
        granted: Some(json::parse(granted.as_bytes()).unwrap()),
        remaining: Some(json::parse(remaining.as_bytes()).unwrap()),
        expiration: expiration.map(str::to_owned),
    }
}

fn warp_answer(unlimited: &str) -> GraphQlResponse {
    GraphQlResponse {
        has_errors: false,
        user: Some(User {
            request_limit_info: Some(RequestLimitInfo {
                is_unlimited: Some(json::parse(unlimited.as_bytes()).unwrap()),
                next_refresh_time: Some("2024-05-01T12:00:00Z".to_owned()),
                request_limit: Some(Json::Number("150".to_owned())),
                requests_used: Some(Json::Text("30".to_owned())),
            }),
            bonus_grants: Some(vec![grant("10", "4", Some("2024-06-02T00:00:00Z"))]),
            workspaces: vec![vec![grant("10", "\"3\"", Some("2024-06-01T00:00:00Z"))]],
        }),
    }
}

#[test]
fn shown_expiry_is_the_first() {
    let found = warp::normalize(&warp_answer("false")).ok().unwrap();
    assert_eq!(found.primary.share, Share::Count { used: 30, total: 150 });
    assert_eq!(found.primary.description.as_deref(), Some("30/150 credits"));
    let sample = warp::usage_sample(at("2024-05-01T00:00:00Z"), found);
    assert_eq!(sample.primary.unwrap().description.as_deref(), Some("30/150 credits"));
    assert_eq!(sample.provenance, ("warp".to_owned(), "api".to_owned()));
    let bonus = warp::normalize(&warp_answer("false")).ok().unwrap().secondary.unwrap();
    assert_eq!(bonus.share, Share::Count { used: 13, total: 20 });
    assert!(bonus.description.unwrap().starts_with("3 credits expires on 2024-06-01"));
    let unlimited = warp::normalize(&warp_answer("\"YES\"")).ok().unwrap();
    assert_eq!(unlimited.primary.description.as_deref(), Some("Unlimited"));
    let failed = GraphQlResponse { has_errors: true, user: None };
    assert_eq!(warp::normalize(&failed).err().unwrap().kind(), ErrorKind::Api);
    let empty = GraphQlResponse { has_errors: false, user: None };
    assert_eq!(warp::normalize(&empty).err().unwrap().kind(), ErrorKind::Parse);
}

#[test]
fn platforms_are_described() {
    let release = "NAME=\"Arch Linux\"\nVERSION_ID='rolling'\n";
    assert_eq!(warp::os_release_value(release, "NAME").as_deref(), Some("Arch Linux"));
    assert_eq!(warp::os_release_value(release, "ID"), None);
    let platform = PlatformMetadata::describe("Linux", &Some(release.to_owned()));
    assert_eq!(platform.name, "Arch Linux");
    let body = warp::request_body(&platform);
    assert!(body.contains("Arch Linux"));
    let adapter = WarpProvider::from_client(ProviderId::Warp, platform).ok().unwrap();
    assert!(adapter.headers().iter().any(|h| h.1 == "warp-app"));
    let env = environment(&[("WARP_TOKEN", "t")]);
    assert_eq!(WarpProvider::resolve_credential(&env).ok().unwrap().key, "t");
    assert_eq!(warp::int_value(&Some(Json::Number("7.9".to_owned()))), 7);
    assert!(!warp::bool_value(&None));
    assert!(warp::transport_config().is_ok());
}
