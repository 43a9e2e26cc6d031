use oab_providers::decimal;
use oab_providers::decimal::Decimal;
use oab_providers::error::{ClassifiedError, ErrorKind};
use oab_providers::instant::Timestamp;
use oab_providers::json;
use oab_providers::providers::sub2api;
use oab_providers::providers::sub2api::{
    Quota, RateLimit, Sub2ApiProvider, Sub2ApiSettings, Subscription, Totals, UsageResponse,
};
use oab_providers::providers::venice;
use oab_providers::providers::venice::{Amount, ShownBalance, VeniceProvider};
use oab_providers::providers::wayfinder;
use oab_providers::providers::wayfinder::{
    GatewayState, Savings, WayfinderProvider, WayfinderSettings,
};
use oab_providers::providers::windsurf;
use oab_providers::providers::windsurf::{
    CachedPlan, Counts, QuotaLeft, StoredValue, WindsurfProvider, WindsurfSettings,
};
use oab_providers::providers::zed;
use oab_providers::providers::zed::{
    AccountResponse, SubscriptionPeriod, UsageLimit, ZedProvider, ZedSettings,
};
use oab_providers::providers::zenmux;
use oab_providers::providers::zenmux::{
    BalanceEnvelope, ParsedSubscription, SubscriptionEnvelope, ZenMuxProvider,
};
use oab_providers::registry::ProviderId;
use oab_providers::settings::Environment;
use oab_providers::sqlite_snapshot::SqliteSnapshotError;
use oab_providers::transport::Method;
use oab_providers::urls;
use oab_providers::usage::{CostProvenance, ProviderSource};

fn environment(entries: &[(&str, &str)]) -> Environment {
    Environment {
        entries: entries.iter().map(|(k, v)| (k.to_string(), v.to_string())).collect(),
    }
}

fn number(s: &str) -> Decimal {
    decimal::from_number(s).unwrap()
}

fn at(s: &str) -> Timestamp {
    Timestamp::parse(s).unwrap()
}

fn empty_usage() -> UsageResponse {
    UsageResponse {
        is_valid: None,
        plan_name: None,
        balance: None,
        unit: None,
        quota: None,
        subscription: None,
        rate_limits: Vec::new(),
        today: None,
        total: None,
        expires_at: None,
    }
}

#[test]
fn group_keys_need_endpoint_and_zone() {
    let full = environment(&[
        ("SUB2API_API_KEY", "k"),
        ("SUB2API_BASE_URL", "https://gw.example"),
        ("TZ", "Europe/Berlin"),
    ]);
    let found = Sub2ApiSettings::resolve(&full, true, &None, &None).ok().unwrap();
    assert_eq!(found.time_zone, "Europe/Berlin");
    let kind = |env: &Environment, allowed| {
        Sub2ApiSettings::resolve(env, allowed, &None, &None).err().map(|e| e.kind())
    };
    assert_eq!(kind(&full, false), Some(ErrorKind::Api));
    assert_eq!(kind(&environment(&[]), true), Some(ErrorKind::MissingCredential));
    assert_eq!(kind(&environment(&[("SUB2API_API_KEY", "k")]), true), Some(ErrorKind::Api));
    let link = Some("/usr/share/zoneinfo/Asia/Tokyo".to_owned());
    let file = Some("Etc/UTC\n".to_owned());
    assert_eq!(sub2api::system_time_zone(&link, &file).as_deref(), Some("Asia/Tokyo"));
    assert_eq!(sub2api::system_time_zone(&None, &file).as_deref(), Some("Etc/UTC"));
    assert_eq!(sub2api::system_time_zone(&Some("x".to_owned()), &None), None);
    assert_eq!(sub2api::validate_time_zone("a&b").err().unwrap().kind(), ErrorKind::Api);
}

#[test]
fn group_usage_has_one_path() {
    let ask = |base: &str| {
        Sub2ApiProvider::from_client(
            ProviderId::Sub2Api,
            true,
            urls::parse(base).unwrap(),
            "Europe/Berlin",
        )
        .ok()
        .unwrap()
        .request_url()
        .unwrap()
    };
    let query = "?days=30&timezone=Europe%2FBerlin";
    assert_eq!(ask("https://gw.example/"), format!("https://gw.example/v1/usage{query}"));
    assert_eq!(ask("https://gw.example/a/v1/"), format!("https://gw.example/a/v1/usage{query}"));
    assert_eq!(ask("https://gw.example/v1/usage"), format!("https://gw.example/v1/usage{query}"));
    let other = Sub2ApiProvider::from_client(
        ProviderId::Zed,
        true,
        urls::parse("https://gw.example").unwrap(),
        "UTC",
    );
    assert_eq!(other.err().unwrap().kind(), ErrorKind::Api);
}

#[test]
fn group_usage_is_normalized() {
    let response = UsageResponse {
        plan_name: Some(" Team ".to_owned()),
        balance: Some(number("1234.5")),
        unit: Some("eur".to_owned()),
        quota: Some(Quota { limit: number("8"), used: number("2"), unit: None }),
        rate_limits: vec![RateLimit {
            window: " 5H ".to_owned(),
            limit: number("0"),
            used: number("1"),
            reset_at: Some("2024-05-01T12:00:00Z".to_owned()),
        }],
        today: Some(Totals {
            requests: Some(number("1200")),
            total_tokens: None,
            actual_cost: Some(number("-1234567.891")),
        }),
        expires_at: Some("2024-06-01T00:00:00Z".to_owned()),
        ..empty_usage()
    };
    let sample = sub2api::normalize(&response, Timestamp { nanos: 0 }).ok().unwrap();
    let primary = sample.primary.unwrap();
    assert_eq!(primary.used, Some(number("25")));
    assert_eq!(primary.description.as_deref(), Some("2.00 eur / 8.00 eur"));
    assert_eq!(sample.extra[0].id, "5H");
    assert_eq!(sample.extra[0].title, "5 hour limit");
    assert_eq!(sample.extra[0].window.used, Some(Decimal::of(100)));
    let rows: Vec<_> = sample.sections[0].rows.iter().map(|r| (r.label.as_str(), r.value.as_str())).collect();
    assert_eq!(
        rows,
        [("Balance", "1234.50 eur"), ("Today requests", "1,200"), ("Today tokens", "0")]
    );
    assert_eq!(sample.sections[0].rows[2].secondary.as_deref(), Some("$-1,234,567.89"));
    assert_eq!(sample.organization.as_deref(), Some("Team"));
    assert_eq!(sample.expires_at, Some(at("2024-06-01T00:00:00Z")));
}

#[test]
fn group_subscriptions_win_over_quotas() {
    let response = UsageResponse {
        quota: Some(Quota { limit: number("8"), used: number("2"), unit: None }),
        subscription: Some(Subscription {
            daily_usage_usd: None,
            weekly_usage_usd: Some(number("30")),
            monthly_usage_usd: Some(number("1")),
            daily_limit_usd: Some(number("10")),
            weekly_limit_usd: Some(number("20")),
            monthly_limit_usd: None,
            expires_at: None,
        }),
        ..empty_usage()
    };
    let sample = sub2api::normalize(&response, Timestamp { nanos: 0 }).ok().unwrap();
    assert_eq!(sample.primary.unwrap().used, Some(number("0")));
    let weekly = sample.secondary.unwrap();
    assert_eq!((weekly.used, weekly.minutes), (Some(Decimal::of(100)), Some(10080)));
    assert!(sample.tertiary.is_none());
}

#[test]
fn group_failures_are_told_apart() {
    let kind = |response: UsageResponse| {
        sub2api::normalize(&response, Timestamp { nanos: 0 }).err().map(|e| e.kind())
    };
    assert_eq!(
        kind(UsageResponse { is_valid: Some(false), ..empty_usage() }),
        Some(ErrorKind::AuthenticationExpired)
    );
    assert_eq!(
        kind(UsageResponse { expires_at: Some("soon".to_owned()), ..empty_usage() }),
        Some(ErrorKind::Parse)
    );
    let part = Totals { requests: Some(number("1.5")), total_tokens: None, actual_cost: None };
    assert_eq!(kind(UsageResponse { total: Some(part), ..empty_usage() }), Some(ErrorKind::Parse));
    assert_eq!(kind(empty_usage()), None);
    assert_eq!(sub2api::percentage(number("7"), number("-1")).ok(), Some(Decimal::of(100)));
    assert!(sub2api::transport_config().is_ok());
}

fn envelope() -> SubscriptionEnvelope {
    SubscriptionEnvelope {
        success: true,
        tier: "pro MAX".to_owned(),
        expires_at: Some("2024-06-01T00:00:00Z".to_owned()),
        account_status: "suspended".to_owned(),
        quota_5_hour: zenmux::Quota {
            usage_percentage: number("0.255"),
            resets_at: Some("never".to_owned()),
            max_flows: number("100"),
            used_flows: number("25.5"),
        },
        quota_7_day: zenmux::Quota {
            usage_percentage: number("7"),
            resets_at: Some("2024-05-02T00:00:00Z".to_owned()),
            max_flows: number("10.00"),
            used_flows: number("70"),
        },
    }
}

#[test]
fn management_quota_is_normalized() {
    let parsed = ParsedSubscription::parse(envelope()).ok().unwrap();
    let found = zenmux::normalize(&parsed, Some(number("3")), Timestamp { nanos: 0 }).ok().unwrap();
    let primary = found.primary.unwrap();
    assert_eq!(primary.used.map(|d| decimal_text(d)), Some("25.500".to_owned()));
    assert_eq!(primary.description.as_deref(), Some("25.50 / 100 flows"));
    assert_eq!(primary.resets_at, None);
    let weekly = found.secondary.unwrap();
    assert_eq!(weekly.used, Some(Decimal::of(100)));
    assert_eq!(weekly.description.as_deref(), Some("70 / 10 flows"));
    assert_eq!(found.login_method.as_deref(), Some("Pro Max plan · Suspended"));
    let cost = found.cost.unwrap();
    assert_eq!((cost.amount, cost.limit), (number("3"), Decimal::of(0)));
    assert_eq!(cost.period, "ZenMux PAYG balance");
    assert_eq!(cost.updated_at, Timestamp { nanos: 0 });
    assert_eq!(cost.provenance, CostProvenance::VendorMetered);
    let failed = SubscriptionEnvelope { success: false, ..envelope() };
    assert_eq!(ParsedSubscription::parse(failed).err().unwrap().kind(), ErrorKind::Parse);
    let healthy = SubscriptionEnvelope { account_status: " Healthy ".to_owned(), ..envelope() };
    let parsed = ParsedSubscription::parse(healthy).ok().unwrap();
    let found = zenmux::normalize(&parsed, None, Timestamp { nanos: 0 }).ok().unwrap();
    assert_eq!(found.login_method.as_deref(), Some("Pro Max plan"));
}

fn decimal_text(d: Decimal) -> String {
    format!("{}.{:03}", d.magnitude / 1000, d.magnitude % 1000)
}

#[test]
fn management_balance_is_optional() {
    let dollars = BalanceEnvelope {
        success: true,
        currency: " USD ".to_owned(),
        total_credits: number("4.2"),
    };
    assert_eq!(zenmux::parse_balance(&dollars), Some(number("4.2")));
    assert_eq!(zenmux::balance_or_none(Ok(Some(dollars))).ok(), Some(Some(number("4.2"))));
    let euros = BalanceEnvelope {
        success: true,
        currency: "EUR".to_owned(),
        total_credits: number("4.2"),
    };
    assert_eq!(zenmux::parse_balance(&euros), None);
    let expired = Err(ClassifiedError::new(ErrorKind::AuthenticationExpired));
    assert!(zenmux::balance_or_none(expired).is_err());
    let network = Err(ClassifiedError::new(ErrorKind::Network));
    assert_eq!(zenmux::balance_or_none(network).ok(), Some(None));
    let env = environment(&[("ZENMUX_MANAGEMENT_API_KEY", "k")]);
    assert_eq!(ZenMuxProvider::resolve_credential(&env).ok().unwrap().key, "k");
    assert!(ZenMuxProvider::new(ProviderId::ZenMux).is_ok());
    assert!(ZenMuxProvider::new(ProviderId::Zed).is_err());
    assert!(zenmux::transport_config().is_ok());
}

fn account() -> AccountResponse {
    AccountResponse {
        user_id: -7,
        github_login: "octo".to_owned(),
        name: Some("  ".to_owned()),
        plan_kind: "zed_PRO__trial".to_owned(),
        subscription_period: Some(SubscriptionPeriod {
            started_at: at("2024-05-01T00:00:00Z"),
            ended_at: at("2024-05-11T00:00:00Z"),
        }),
        used_predictions: 30,
        prediction_limit: UsageLimit::Object { limited: 20 },
        has_overdue_invoices: true,
    }
}

#[test]
fn editor_accounts_are_normalized() {
    let sample = zed::normalize(&account(), at("2024-05-06T00:00:00Z")).ok().unwrap();
    let primary = sample.primary.unwrap();
    assert_eq!(primary.used.unwrap().to_i64(), Some(100));
    assert_eq!(primary.description.as_deref(), Some("20 / 20 predictions"));
    assert_eq!(sample.secondary.unwrap().used.unwrap().to_i64(), Some(50));
    assert_eq!(sample.extra[0].title, "Billing");
    assert_eq!(sample.account_id.as_deref(), Some("-7"));
    assert_eq!(sample.organization, None);
    assert_eq!(sample.login_method.as_deref(), Some("Zed Pro Trial"));
    let unlimited = AccountResponse {
        prediction_limit: UsageLimit::Text("UNLIMITED".to_owned()),
        subscription_period: None,
        ..account()
    };
    let sample = zed::normalize(&unlimited, at("2024-05-06T00:00:00Z")).ok().unwrap();
    assert_eq!(sample.primary.unwrap().description.as_deref(), Some("Unlimited"));
    let broken = AccountResponse { prediction_limit: UsageLimit::Limited(0), ..account() };
    assert_eq!(
        zed::normalize(&broken, at("2024-05-06T00:00:00Z")).err().unwrap().kind(),
        ErrorKind::Parse
    );
    assert_eq!(zed::ratio_percent(1, 0).err().unwrap().kind(), ErrorKind::Parse);
}

#[test]
fn editor_credentials_are_unquoted() {
    let env = environment(&[("ZED_USER_ID", " \"'42'\" "), ("ZED_ACCESS_TOKEN", "t")]);
    let found = ZedSettings::resolve(&env).ok().unwrap();
    assert_eq!(found.user_id, "42");
    let spaced = environment(&[("ZED_USER_ID", "4 2"), ("ZED_ACCESS_TOKEN", "t")]);
    assert_eq!(
        ZedSettings::resolve(&spaced).err().unwrap().kind(),
        ErrorKind::MissingCredential
    );
    assert!(ZedProvider::new(ProviderId::Zed).is_ok());
    assert!(ZedProvider::new(ProviderId::Xai).is_err());
    assert!(zed::transport_config().is_ok());
}

fn gateway() -> GatewayState {
    GatewayState {
        status: "degraded".to_owned(),
        offline: false,
        missing_keys: 2,
        models: 1,
        dry_run: false,
    }
}

fn savings() -> Savings {
    Savings {
        priced: true,
        requests: 12,
        saved: number("0.004"),
        saved_percent: number("12.5"),
        routes: vec![("b".to_owned(), 1000), ("a".to_owned(), 1000), ("c".to_owned(), 2)],
    }
}

#[test]
fn gateways_are_summarized() {
    let sample = wayfinder::normalize(&gateway(), savings(), Some("1.5".to_owned()), Timestamp { nanos: 0 })
        .ok()
        .unwrap();
    let rows: Vec<_> = sample.sections[0].rows.iter().map(|r| (r.label.as_str(), r.value.as_str())).collect();
    assert_eq!(
        rows,
        [
            ("Gateway", "degraded · 1 model"),
            ("Routed", "a: 1,000 · b: 1,000 · c: 2"),
            ("Saved", "<$0.01 · 12.5% vs highest-cost route"),
            ("Avg decision", "1.5 ms"),
        ]
    );
    assert_eq!(sample.organization.as_deref(), Some("1 model · local gateway"));
    assert_eq!(sample.login_method.as_deref(), Some("Degraded — 2 keys missing"));
    let crowded = GatewayState { models: 513, ..gateway() };
    let failed = wayfinder::normalize(&crowded, savings(), None, Timestamp { nanos: 0 });
    assert_eq!(failed.err().unwrap().kind(), ErrorKind::Parse);
    let offline = GatewayState { offline: true, dry_run: true, ..gateway() };
    assert_eq!(wayfinder::status_label(&offline), "Offline mode");
    assert_eq!(wayfinder::gateway_summary(&offline), "degraded · 1 model · offline · dry run");
    let unpriced = Savings { priced: false, saved_percent: number("12"), ..savings() };
    assert_eq!(
        wayfinder::saved_summary(&unpriced).as_deref(),
        Some("12% vs highest-cost route")
    );
    let rich = Savings { saved: number("12.345"), ..savings() };
    assert_eq!(
        wayfinder::saved_summary(&rich).as_deref(),
        Some("$12.34 · 12.5% vs highest-cost route")
    );
}

#[test]
fn gateway_requests_are_for_one_account() {
    let adapter =
        WayfinderProvider::from_endpoint(ProviderId::Wayfinder, "http://127.0.0.1:8088/base/".to_owned(), true)
            .ok()
            .unwrap();
    let path = vec!["v1", "savings"];
    let query = vec![("period".to_owned(), "30d".to_owned())];
    let request = adapter.request(true, ProviderSource::ApiKey, &path, &query, true).ok().unwrap();
    assert_eq!(request.url, "http://127.0.0.1:8088/base/v1/savings?period=30d");
    assert_eq!(request.method, Method::Get);
    assert!(adapter.request(false, ProviderSource::ApiKey, &path, &query, true).is_err());
    assert!(adapter.request(true, ProviderSource::LocalData, &path, &query, true).is_err());
    let env = environment(&[]);
    assert_eq!(WayfinderSettings::resolve(&env, true).ok().unwrap().base_url, "http://127.0.0.1:8088");
    assert!(WayfinderSettings::resolve(&env, false).is_err());
    assert!(wayfinder::transport_config().is_ok());
}

#[test]
fn decision_times_are_the_last_words() {
    let source = "# HELP x\nwayfinder_router_decision_latency_seconds_sum{route=\"a\"} 1.5\nwayfinder_router_decision_latency_seconds_sum 2.5 \nwayfinder_router_decision_latency_seconds_summary 9\nwayfinder_router_decision_latency_seconds_count 5\n";
    let (sums, counts) = wayfinder::decision_texts(source);
    assert_eq!(sums, ["1.5", "2.5"]);
    assert_eq!(counts, ["5"]);
}

#[test]
fn balances_name_what_is_left() {
    let payload = json::parse(
        br#"{"canConsume":true,"consumptionCurrency":"usd","balances":{"diem":"0b101","usd":" 2 "},
        "diemEpochAllocation":""}"#,
    )
    .unwrap();
    let response = venice::parse_response(&payload).ok().unwrap();
    assert_eq!(response.currency.as_deref(), Some("USD"));
    assert!(matches!(response.diem, Some(Amount::Based { radix: 2, ref digits }) if digits == "101"));
    assert!(matches!(response.usd, Some(Amount::Text(ref s)) if s == "2"));
    assert!(response.allocation.is_none());
    let shown = venice::select_balance(true, &response.currency, Some(true), Some(true), None);
    assert_eq!(shown, ShownBalance::Dollars);
    assert_eq!(venice::describe_balance(shown, "5.00", "2.00", ""), "$2.00 USD remaining");
    assert_eq!(venice::fixed_percentage(shown), Some(0));
    let epoch = venice::select_balance(true, &None, Some(false), None, Some(true));
    assert_eq!(
        venice::describe_balance(epoch, "0.00", "", "9.00"),
        "DIEM 0.00 / 9.00 epoch allocation"
    );
    assert_eq!(venice::fixed_percentage(epoch), None);
    assert_eq!(
        venice::select_balance(false, &None, Some(true), Some(true), Some(true)),
        ShownBalance::Unavailable
    );
    assert_eq!(venice::select_balance(true, &None, None, Some(false), None), ShownBalance::Nothing);
    for bad in ["[]", "{}", r#"{"canConsume":true,"balances":{"usd":"0xZZ"}}"#] {
        let payload = json::parse(bad.as_bytes()).unwrap();
        assert_eq!(venice::parse_response(&payload).err().unwrap().kind(), ErrorKind::Parse);
    }
    let env = environment(&[("VENICE_KEY", "second"), ("VENICE_API_KEY", "")]);
    assert_eq!(VeniceProvider::resolve_credential(&env).ok().unwrap().key, "second");
    assert!(VeniceProvider::new(ProviderId::Venice).is_ok());
    assert!(venice::transport_config().is_ok());
}

fn plan() -> CachedPlan {
    CachedPlan {
        plan_name: Some("Pro".to_owned()),
        end_timestamp: Some(1_714_564_800_999),
        messages: Some(Counts { total: Some(50), used: None, remaining: Some(20) }),
        flow_actions: None,
        daily: None,
        weekly: Some(QuotaLeft { reset_at_unix: Some(1_714_564_800) }),
    }
}

#[test]
fn local_state_is_found_and_read() {
    let root = |entries: &[(&str, &str)]| WindsurfSettings::resolve(&environment(entries));
    assert_eq!(
        root(&[("HOME", "/home/x")]).ok().unwrap().profile_root,
        "/home/x/.config/Windsurf/User/globalStorage"
    );
    assert_eq!(
        root(&[("XDG_CONFIG_HOME", "/c/"), ("HOME", "/h")]).ok().unwrap().profile_root,
        "/c/Windsurf/User/globalStorage"
    );
    assert_eq!(root(&[]).err().unwrap().kind(), ErrorKind::MissingCredential);
    assert_eq!(
        root(&[("WINDSURF_DATA_DIR", "relative")]).err().unwrap().kind(),
        ErrorKind::Api
    );
    assert!(WindsurfSettings::for_profile_root("x".to_owned()).is_err());
    let settings = WindsurfSettings::for_profile_root("/x".to_owned()).ok().unwrap();
    assert_eq!(WindsurfProvider::new(settings).settings.profile_root, "/x");
    let read = |stored: StoredValue| windsurf::read_stored(&stored).map_err(|e| e.kind());
    assert_eq!(read(StoredValue::Bytes(b"\0{\"a\":1}\0".to_vec())), Ok("{\"a\":1}".to_owned()));
    let wide: Vec<u8> = "{\"é\":1}".encode_utf16().flat_map(|u| u.to_le_bytes()).collect();
    assert_eq!(read(StoredValue::Bytes(wide)), Ok("{\"é\":1}".to_owned()));
    assert_eq!(read(StoredValue::Bytes(b"nope".to_vec())), Err(ErrorKind::Parse));
    assert_eq!(read(StoredValue::Other), Err(ErrorKind::Parse));
    assert_eq!(read(StoredValue::Absent), Err(ErrorKind::MissingCredential));
    assert_eq!(
        windsurf::classify_sqlite(SqliteSnapshotError::Replaced).kind(),
        ErrorKind::ProviderUnavailable
    );
    assert!(windsurf::check_context(true, ProviderSource::LocalData).is_ok());
    assert!(windsurf::check_context(true, ProviderSource::ApiKey).is_err());
}

#[test]
fn local_plans_are_normalized() {
    let sample = windsurf::normalize(plan(), Timestamp { nanos: 0 }).ok().unwrap();
    let primary = sample.primary.unwrap();
    assert_eq!(primary.used.unwrap().to_i64(), Some(60));
    assert_eq!(primary.description.as_deref(), Some("30 / 50 messages"));
    let weekly = sample.secondary.unwrap();
    assert_eq!(weekly.used, None);
    assert_eq!(weekly.resets_at.unwrap().unix_seconds(), 1_714_564_800);
    assert_eq!(sample.expires_at.unwrap().unix_seconds(), 1_714_564_800);
    let bare = CachedPlan { messages: None, weekly: None, ..plan() };
    assert_eq!(
        windsurf::normalize(bare, Timestamp { nanos: 0 }).err().unwrap().kind(),
        ErrorKind::Parse
    );
}

#[test]
fn an_unusable_key_does_not_hide_a_usable_one() {
    let resolve = |first: &str, second: &str| {
        VeniceProvider::resolve_credential(&Environment {
            entries: vec![
                ("VENICE_API_KEY".to_owned(), first.to_owned()),
                ("VENICE_KEY".to_owned(), second.to_owned()),
            ],
        })
        .map(|credential| credential.key)
        .map_err(|e| e.kind())
    };
    assert_eq!(resolve("a\nb", "good"), Ok("good".to_owned()));
    assert_eq!(resolve("first", "good"), Ok("first".to_owned()));
    assert_eq!(resolve("a\nb", " "), Err(ErrorKind::MissingCredential));
}

#[test]
fn counts_out_of_range_cannot_be_read() {
    let counts = Counts { total: Some(1), used: None, remaining: Some(i64::MIN) };
    assert_eq!(
        windsurf::count_window(&Some(counts), "messages").err().unwrap().kind(),
        ErrorKind::Parse
    );
}
