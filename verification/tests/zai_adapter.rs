use oab_providers::decimal::Decimal;
use oab_providers::error::ErrorKind;
use oab_providers::instant::Timestamp;
use oab_providers::json;
use oab_providers::json::Json;
use oab_providers::providers::zai;
use oab_providers::providers::zai::{ZaiProvider, ZaiRegion, ZaiSettings, ZaiUsageScope};
use oab_providers::providers::zai_models;
use oab_providers::providers::zai_sample;
use oab_providers::providers::zai_usage;
use oab_providers::providers::zai_usage::ParsedQuota;
use oab_providers::registry::ProviderId;
use oab_providers::settings::Environment;
use oab_providers::urls;
use oab_providers::usage::{DetailSensitivity, Share};

fn environment(entries: &[(&str, &str)]) -> Environment {
    Environment {
        entries: entries.iter().map(|(k, v)| (k.to_string(), v.to_string())).collect(),
    }
}

fn document(s: &str) -> Json {
    json::parse(s.as_bytes()).unwrap()
}

fn team() -> ZaiUsageScope {
    ZaiUsageScope::Team { organization: "org".to_owned(), project: "proj".to_owned() }
}

#[test]
fn zai_settings_follow_region_and_defaults() {
    let env = environment(&[("Z_AI_API_KEY", "key")]);
    let found = ZaiSettings::resolve(&env, &Vec::new()).ok().unwrap();
    assert_eq!(found.region(), ZaiRegion::Global);
    assert_eq!(found.quota_url(), "https://api.z.ai/api/monitor/usage/quota/limit");
    assert_eq!(found.model_usage_url(), "https://api.z.ai/api/monitor/usage/model-usage");
    assert_eq!(found.balance_url(), None);
    assert!(matches!(found.usage_scope(), ZaiUsageScope::Personal));
    let chinese = environment(&[("Z_AI_REGION", "bigmodel-cn"), ("GLM_API_KEY", "key")]);
    let found = ZaiSettings::resolve(&chinese, &Vec::new()).ok().unwrap();
    assert_eq!(
        found.balance_url(),
        Some("https://www.bigmodel.cn/api/biz/account/query-customer-account-report")
    );
}

#[test]
fn zai_settings_report_each_failure() {
    let kind = |entries: &[(&str, &str)]| {
        ZaiSettings::resolve(&environment(entries), &Vec::new()).err().map(|e| e.kind())
    };
    assert_eq!(kind(&[]), Some(ErrorKind::MissingCredential));
    assert_eq!(kind(&[("Z_AI_REGION", "mars")]), Some(ErrorKind::Api));
    assert_eq!(
        kind(&[("Z_AI_API_KEY", "k"), ("Z_AI_USAGE_SCOPE", "team")]),
        Some(ErrorKind::Api)
    );
    assert_eq!(
        kind(&[("Z_AI_API_KEY", "k"), ("Z_AI_API_HOST", "open.bigmodel.cn")]),
        Some(ErrorKind::Api)
    );
    assert_eq!(
        kind(&[("Z_AI_API_KEY", "k"), ("Z_AI_QUOTA_URL", "http://example.com")]),
        Some(ErrorKind::Api)
    );
    assert_eq!(kind(&[("Z_AI_API_KEY", "k"), ("Z_AI_API_HOST", "gateway.example:8443?x=1")]), None);
}

#[test]
fn regions_never_share_hosts() {
    let env = environment(&[("Z_AI_API_KEY", "k"), ("Z_AI_QUOTA_ENDPOINT", "https://OPEN.bigmodel.cn/q")]);
    assert!(zai::resolve_endpoints(&env, ZaiRegion::Global).is_err());
    assert!(zai::resolve_endpoints(&env, ZaiRegion::BigModelCn).is_ok());
    let host = environment(&[("Z_AI_API_HOST", "gateway.example?tenant=1")]);
    let found = zai::resolve_endpoints(&host, ZaiRegion::Global).ok().unwrap();
    assert_eq!(
        found.quota_url.href,
        "https://gateway.example/api/monitor/usage/quota/limit?tenant=1"
    );
}

#[test]
fn zai_keys_come_from_files_last() {
    let env = environment(&[("HOME", "/home/x")]);
    let files = vec![None, Some("\n\r\n  file-key \nrest".to_owned()), Some("other".to_owned())];
    let found = zai::resolve_credential(&env, ZaiRegion::BigModelCn, &files).ok().unwrap();
    assert_eq!(found.key, "file-key");
    assert!(zai::resolve_credential(&env, ZaiRegion::Global, &files).is_err());
    assert_eq!(zai::key_file_paths().len(), 3);
    assert!(zai::key_file_readable(true, 16 * 1024));
    assert!(!zai::key_file_readable(true, 16 * 1024 + 1));
}

#[test]
fn schemes_are_told_from_ports() {
    assert!(zai::has_explicit_scheme("https://x"));
    assert!(zai::has_explicit_scheme("mailto:x"));
    assert!(!zai::has_explicit_scheme("host:8080/path"));
    assert!(!zai::has_explicit_scheme("host/a:b"));
    assert!(zai::has_explicit_scheme("host:"));
    assert!(!zai::has_explicit_scheme("1host:x"));
}

#[test]
fn team_requests_carry_their_headers_and_type() {
    let headers = zai::team_headers(&team());
    assert_eq!(headers[0], ("Bigmodel-Organization".to_owned(), "org".to_owned()));
    assert!(zai::team_headers(&ZaiUsageScope::Personal).is_empty());
    let base = urls::parse("https://api.z.ai/q?type=1&a=b%20c").unwrap();
    assert_eq!(
        zai_models::quota_request_url(&base, &team()).unwrap(),
        "https://api.z.ai/q?a=b+c&type=2"
    );
    assert_eq!(
        zai_models::quota_request_url(&base, &ZaiUsageScope::Personal).unwrap(),
        "https://api.z.ai/q?type=1&a=b%20c"
    );
    let made = |provider, same_scope| {
        ZaiProvider::from_clients(provider, same_scope, ZaiRegion::Global, team(), 3600)
    };
    assert_eq!(made(ProviderId::Zai, true).ok().unwrap().local_offset, 3600);
    assert_eq!(made(ProviderId::Zed, true).err().unwrap().kind(), ErrorKind::Api);
    assert_eq!(made(ProviderId::Zai, false).err().unwrap().kind(), ErrorKind::Api);
    let bad = ZaiUsageScope::Team { organization: "a\nb".to_owned(), project: "p".to_owned() };
    assert!(zai::validate_scope(&bad).is_err());
    assert!(zai::wants_balance(ZaiRegion::BigModelCn, true, 23));
    assert!(!zai::wants_balance(ZaiRegion::BigModelCn, true, 24));
    assert!(zai::transport_config(15).is_ok());
}

#[test]
fn model_usage_is_asked_for_whole_days() {
    let local = Timestamp::parse("2024-05-10T13:45:00Z").unwrap();
    assert_eq!(
        zai_models::model_usage_url("https://api.z.ai/m?x=1", local, 7, &team()).unwrap(),
        "https://api.z.ai/m?startTime=2024-05-03%2000%3A00%3A00&endTime=2024-05-10%2013%3A59%3A59&type=3"
    );
    let far = zai_models::model_usage_url("https://api.z.ai/m", local, i64::MAX, &team());
    assert_eq!(far.err().unwrap().kind(), ErrorKind::Parse);
}

fn quota_answer() -> Json {
    document(
        r#"{"success":true,"code":200,"data":{"plan":" pro ","limits":[
        {"type":"TOKENS_LIMIT","unit":3,"number":5,"percentage":12},
        {"type":"CREDIT_LIMIT","unit":6,"number":1,"percentage":40,"usage":200,"currentValue":10,"remaining":150},
        {"type":"OTHER","unit":1,"number":1,"percentage":1},
        {"type":"TIME_LIMIT","unit":5,"number":1,"percentage":300,"nextResetTime":1714564800000,
         "usageDetails":[{"modelCode":"search","usage":3},{"modelCode":7}]}]}}"#,
    )
}

#[test]
fn quota_answers_are_read() {
    let quota = ParsedQuota::parse(&quota_answer()).ok().unwrap();
    assert_eq!(quota.plan.as_deref(), Some("pro"));
    assert_eq!(quota.limits.len(), 3);
    assert_eq!(quota.limits[0].window_minutes, Some(300));
    assert_eq!(quota.limits[0].share, Share::Percent(12));
    assert_eq!(quota.limits[1].share, Share::Count { used: 50, total: 200 });
    assert_eq!(quota.limits[2].share, Share::Percent(100));
    assert_eq!(quota.limits[2].usage_details, [("search".to_owned(), 3)]);
    let failure = |s: &str| ParsedQuota::parse(&document(s)).err().unwrap().kind();
    assert_eq!(failure(r#"{"success":true,"code":500}"#), ErrorKind::Api);
    assert_eq!(failure(r#"{"success":true,"code":200}"#), ErrorKind::Parse);
    assert_eq!(
        failure(r#"{"success":true,"code":200,"data":{"limits":[{"type":"X"}]}}"#),
        ErrorKind::Parse
    );
    assert_eq!(
        failure(
            r#"{"success":true,"code":200,"data":{"limits":[
            {"type":"TIME_LIMIT","unit":6,"number":9000000000000000000,"percentage":1}]}}"#
        ),
        ErrorKind::Parse
    );
}

#[test]
fn quota_windows_and_rows_are_selected() {
    let quota = ParsedQuota::parse(&quota_answer()).ok().unwrap();
    let percents = vec!["12".to_owned(), "25".to_owned(), "100".to_owned()];
    let sunday = Timestamp::parse("2024-05-05T07:00:00Z").unwrap();
    let shown = zai_usage::normalize_quota(&quota.limits, &percents, sunday).ok().unwrap();
    assert_eq!(shown.selection.session, Some(0));
    assert_eq!(shown.selection.longest, Some(1));
    assert_eq!(shown.primary.description.as_deref(), Some("5-hour"));
    assert_eq!(
        shown.secondary.as_ref().unwrap().description.as_deref(),
        Some("1 week window")
    );
    assert_eq!(shown.extra_windows[0].id, "zai-mcp");
    assert_eq!(shown.extra_windows[0].window.minutes, Some(43_200));
    assert_eq!(
        shown.extra_windows[0].window.resets_at.unwrap().unix_seconds(),
        1_714_564_800
    );
    let labels: Vec<_> = shown.rows.iter().map(|r| r.label.as_str()).collect();
    assert_eq!(
        labels,
        ["Credit quota", "Session token quota", "Quota rate", "MCP quota", "search"]
    );
    assert_eq!(shown.rows[0].value, "25% used");
    assert_eq!(shown.rows[0].secondary.as_deref(), Some("200 limit · 150 remaining"));
    assert_eq!(shown.rows[2].value, "Off-peak");
    assert_eq!(shown.rows[2].secondary.as_deref(), Some("peak in 23h"));
    let balance = zai_models::balance_row("1.00", &None, &None, &None);
    let rows = shown.rows.len();
    let sample =
        zai_sample::normalize(sunday, shown, Some(balance), Vec::new(), Some("pro".to_owned()));
    assert_eq!(sample.sections[0].title, "Quota details");
    assert_eq!(sample.sections[0].rows.len(), rows + 1);
    assert_eq!(sample.sections[0].rows[rows].sensitivity, DetailSensitivity::Personal);
    assert_eq!(sample.login_method.as_deref(), Some("pro"));
}

#[test]
fn peak_hours_end_the_same_day() {
    let tuesday = Timestamp::parse("2024-05-07T08:30:00Z").unwrap();
    let row = zai_usage::quota_rate_row(tuesday).ok().unwrap();
    assert_eq!(row.value, "Peak");
    assert_eq!(row.secondary.as_deref(), Some("off-peak in 1h 30m"));
    let friday = Timestamp::parse("2024-05-10T10:00:00Z").unwrap();
    let row = zai_usage::quota_rate_row(friday).ok().unwrap();
    assert_eq!(row.secondary.as_deref(), Some("peak in 2d 20h"));
}

#[test]
fn countdowns_round_up() {
    assert_eq!(zai_usage::countdown_text(0), "now");
    assert_eq!(zai_usage::countdown_text(1), "in 1m");
    assert_eq!(zai_usage::countdown_text(3600), "in 1h");
    assert_eq!(zai_usage::countdown_text(86_400 + 60), "in 1d 1m");
    assert_eq!(zai_usage::countdown_text(2 * 86_400 + 3 * 3600), "in 2d 3h");
}

#[test]
fn rows_of_a_quota_are_bounded() {
    let mut details = String::new();
    for i in 0..40 {
        if i > 0 {
            details.push(',');
        }
        details.push_str(&format!("{{\"modelCode\":\"m{i}\",\"usage\":{i}}}"));
    }
    let answer = document(&format!(
        r#"{{"success":true,"code":200,"data":{{"limits":[
        {{"type":"TIME_LIMIT","unit":5,"number":1,"percentage":1,"usageDetails":[{details}]}}]}}}}"#
    ));
    let quota = ParsedQuota::parse(&answer).ok().unwrap();
    let percents = vec!["1".to_owned()];
    let at = Timestamp { nanos: 0 };
    let shown = zai_usage::normalize_quota(&quota.limits, &percents, at).ok().unwrap();
    assert_eq!(shown.rows.len(), 21);
    assert!(shown.extra_windows.is_empty());
    assert_eq!(shown.primary.description.as_deref(), Some("MCP"));
}

#[test]
fn balances_are_read_as_scripts_read_them() {
    let answer = document(
        r#"{"success":true,"data":{"availableBalance":"0x10","balance":[],"rechargeAmount":true,
        "giveAmount":{},"totalSpendAmount":" 1.5 "}}"#,
    );
    let texts = zai_models::balance_texts(200, &answer).unwrap();
    assert_eq!(texts.available.as_deref(), Some("16"));
    assert_eq!(texts.current.as_deref(), Some("0"));
    assert_eq!(texts.recharged.as_deref(), Some("1"));
    assert_eq!(texts.granted, None);
    assert_eq!(texts.spent.as_deref(), Some("1.5"));
    assert!(zai_models::balance_texts(500, &answer).is_none());
    let row = zai_models::balance_row("16.00", &Some("1.00".to_owned()), &None, &Some("1.50".to_owned()));
    assert_eq!(row.value, "¥16.00");
    assert_eq!(row.secondary.as_deref(), Some("recharged ¥1.00 · spent ¥1.50"));
    assert_eq!(
        zai_models::javascript_primitive_string(&document("[1,null,[true]]")).as_deref(),
        Some("1,,true")
    );
    assert_eq!(zai_models::js_string(&document("[1,null,{}]")), "1,null,[object Object]");
}

#[test]
fn models_are_ranked_by_tokens() {
    let answer = document(
        r#"{"success":true,"code":200,"data":{"x_time":["a","b","c"],"modelDataList":[
        {"modelName":"small","tokensUsage":[1,0,null]},
        {"modelName":"big","tokensUsage":[5,5]},
        {"tokensUsage":[1]},
        {"modelName":"none","tokensUsage":[-4]}]}}"#,
    );
    let found = zai_models::normalize_model_usage(&answer).ok().unwrap().unwrap();
    assert_eq!(found.points, [("a".to_owned(), 7), ("b".to_owned(), 5)]);
    let rows: Vec<_> = found.rows.iter().map(|r| (r.label.as_str(), r.value.as_str())).collect();
    assert_eq!(rows, [("big", "10"), ("Unknown", "1"), ("small", "1")]);
    let section = zai_sample::model_section(found, "Hourly tokens");
    let chart = section.chart.unwrap();
    assert_eq!((chart.title.as_str(), chart.unit.as_str()), ("Hourly tokens", "tokens"));
    assert_eq!(chart.points[1], ("b".to_owned(), Decimal::of(5)));
    let empty = document(r#"{"success":true,"code":200}"#);
    assert!(zai_models::normalize_model_usage(&empty).ok().unwrap().is_none());
    let over = document(
        r#"{"success":true,"code":200,"data":{"x_time":[1],"modelDataList":[
        {"tokensUsage":[9223372036854775807]},{"tokensUsage":[1]}]}}"#,
    );
    assert_eq!(
        zai_models::normalize_model_usage(&over).err().unwrap().kind(),
        ErrorKind::Parse
    );
}
