use oab_providers::encoding;
use oab_providers::html;
use oab_providers::json;
use oab_providers::json::{Json, Limits};
use oab_providers::paths;
use oab_providers::redaction::RedactedProviderText;
use oab_providers::registry;
use oab_providers::registry::ProviderId;
use oab_providers::settings;
use oab_providers::settings::{ApiKeyCredential, Environment};
use oab_providers::error::ErrorKind;
use oab_providers::text;
use oab_providers::urls;

fn chars(s: &str) -> Vec<char> {
    s.chars().collect()
}

fn shown(parts: Vec<&[char]>) -> Vec<String> {
    parts.iter().map(|p| p.iter().collect()).collect()
}

fn environment(entries: &[(&str, &str)]) -> Environment {
    Environment {
        entries: entries.iter().map(|(k, v)| (k.to_string(), v.to_string())).collect(),
    }
}

#[test]
fn grouping_keeps_the_digits() {
    assert_eq!(text::group_digits(&chars("1234567")), "1,234,567");
    assert_eq!(text::group_digits(&chars("123")), "123");
    let grouped = text::group_digits(&chars("9007199254740993"));
    assert_eq!(grouped.replace(',', ""), "9007199254740993");
}

#[test]
fn numbers_are_read_and_written() {
    assert_eq!(text::parse_u64(&chars("18446744073709551615")), Some(u64::MAX));
    assert_eq!(text::parse_u64(&chars("18446744073709551616")), None);
    assert_eq!(text::parse_i64(&chars("-9223372036854775808")), Some(i64::MIN));
    assert_eq!(text::parse_i64(&chars("")), None);
    let mut out = String::new();
    text::push_signed(&mut out, i64::MIN);
    text::push_padded(&mut out, 7, 3);
    assert_eq!(out, "-9223372036854775808007");
}

#[test]
fn texts_are_taken_apart() {
    assert_eq!(shown(text::split(&chars("a,,b"), ',')), ["a", "", "b"]);
    assert_eq!(shown(text::words(&chars("  one\u{2003}two "), false)), ["one", "two"]);
    assert_eq!(shown(text::lines(&chars("one\r\ntwo\n\nlast\r"))), ["one", "two", "", "last\r"]);
    assert!(shown(text::lines(&chars(""))).is_empty());
    assert_eq!(text::trim_text("\u{3000} x \t"), "x");
    assert_eq!(text::find(&chars("abcabc"), &chars("ca"), 0), Some(2));
    assert_eq!(text::replace(&chars("aaa"), "aa", "b").iter().collect::<String>(), "ba");
    assert!(text::is_before(&chars("ab"), &chars("b")));
    assert!(!text::is_before(&chars("b"), &chars("ab")));
}

#[test]
fn words_are_titled() {
    assert_eq!(text::title_case("  PRO   plan "), "Pro Plan");
    assert_eq!(text::capitalize(&chars("ßeta")), "SSeta");
    assert_eq!(text::title_word(&chars("ÉCOLE")), "École");
}

#[test]
fn documents_round_trip_through_text() {
    let document = json::parse(br#"{"a":[1,2.5,null,true],"b":{"c":"x\"y"}}"#).unwrap();
    assert_eq!(json::render(&document), r#"{"a":[1,2.5,null,true],"b":{"c":"x\"y"}}"#);
    assert!(document.is_object());
    assert!(matches!(document.get("b").unwrap().get("c"), Some(Json::Text(s)) if s == "x\"y"));
    assert!(json::parse(b"{").is_none());
    assert!(json::is_nonzero("-0.5e3"));
    assert!(!json::is_nonzero("0.00"));
}

#[test]
fn walks_visit_values_in_order_and_respect_limits() {
    let document = json::parse(br#"{"outer":{"plan":"a"},"list":[{"plan":"b"}]}"#).unwrap();
    assert_eq!(json::visits(&document).len(), 6);
    assert_eq!(json::find_values(&document, "PLAN").len(), 2);
    let wanted = vec!["plan"];
    let found = json::find_object_containing_any(&document, &wanted).unwrap();
    assert!(matches!(found.get("plan"), Some(Json::Text(_))));
    let tight = Limits { nodes: 5, depth: 9, key_bytes: 99, text_bytes: 99 };
    assert!(!json::respects(&document, &tight));
    let wide = Limits { nodes: 6, depth: 2, key_bytes: 99, text_bytes: 99 };
    assert!(!json::respects(&document, &wide));
    let enough = Limits { nodes: 6, depth: 3, key_bytes: 99, text_bytes: 99 };
    assert!(json::respects(&document, &enough));
    assert!(json::parse_bounded(b"", 10, &enough).is_none());
    assert!(json::parse_bounded(b"[1,2]", 4, &enough).is_none());
    assert!(json::parse_bounded(b"[1,2]", 5, &enough).is_some());
}

#[test]
fn url_safe_texts_are_decoded_with_and_without_padding() {
    assert_eq!(encoding::decode_url_safe("_-8"), Some(vec![0xff, 0xef]));
    assert_eq!(encoding::decode_url_safe("_-8="), Some(vec![0xff, 0xef]));
    assert_eq!(encoding::decode_url_safe("+"), None);
}

#[test]
fn urls_are_taken_apart() {
    let url = urls::parse("HTTPS://user:pw@Example.com:8443/a%20b?x=1#frag").unwrap();
    assert_eq!(url.scheme, "https");
    assert_eq!(url.host.as_deref(), Some("example.com"));
    assert_eq!(url.port, Some(8443));
    assert_eq!(url.path, "/a%20b");
    assert_eq!(url.query.as_deref(), Some("x=1"));
    assert_eq!(url.fragment.as_deref(), Some("frag"));
    assert_eq!(url.username, "user");
    assert!(url.has_password);
    assert!(!urls::is_bare_origin(&url));
    assert!(urls::is_bare_origin(&urls::parse("https://example.com/").unwrap()));
    assert!(urls::parse("not a url").is_none());
}

#[test]
fn settings_are_cleaned_and_selected_in_order() {
    assert_eq!(settings::clean_setting("  'key'  ").as_deref(), Some("key"));
    assert_eq!(settings::clean_setting("   "), None);
    let env = environment(&[("A", " "), ("B", "\"second\""), ("C", "third")]);
    let names = vec!["A", "B", "C"];
    assert_eq!(settings::first_clean_setting(&env, &names).as_deref(), Some("second"));
    assert_eq!(ApiKeyCredential::resolve(&env, &names).unwrap().key, "second");
    let none = vec!["A", "D"];
    let failure = ApiKeyCredential::resolve(&env, &none).err().unwrap();
    assert_eq!(failure.kind(), ErrorKind::MissingCredential);
}

#[test]
fn paths_are_bounded_and_absolute() {
    assert_eq!(paths::validated_absolute_path("/tmp/x").unwrap(), "/tmp/x");
    assert_eq!(paths::validated_absolute_path("tmp").err().unwrap().kind(), ErrorKind::Api);
    assert!(paths::validate_path_bound("").is_err());
    assert!(paths::validate_path_bound("/a\0b").is_err());
    assert!(paths::validate_path_bound(&"x".repeat(4097)).is_err());
    assert_eq!(paths::join("/a/", "b"), "/a/b");
    assert_eq!(paths::join("/a", "b"), "/a/b");
}

#[test]
fn markup_is_read_without_its_tags() {
    let fragment = chars("<p>1 &amp; <b>2</b></p>");
    let seen: String = html::visible_text(&fragment).unwrap().iter().collect();
    assert_eq!(seen.split_whitespace().collect::<Vec<_>>(), ["1", "&", "2"]);
}

#[test]
fn diagnostics_are_discarded() {
    let text = RedactedProviderText::from_untrusted("token=SECRET");
    assert_eq!(text.display(), "<redacted-provider-diagnostic>");
    assert_eq!(text.debug(), "RedactedProviderText(<redacted>)");
}

#[test]
fn providers_have_distinct_positions_and_names() {
    let all = registry::providers();
    for (i, entry) in all.iter().enumerate() {
        assert_eq!(registry::provider_at(i), entry.id);
        assert_eq!(entry.display_name, entry.id.display_name());
        for other in &all[i + 1..] {
            assert_ne!(entry.id, other.id);
        }
    }
    assert_eq!(ProviderId::T3Chat.display_name(), Some("T3 Chat"));
    assert_eq!(ProviderId::Warp.display_name(), Some("Warp"));
    assert_eq!(ProviderId::Codex.display_name(), Some("Codex"));
    assert_eq!(ProviderId::AiAnd.display_name(), Some("ai&"));
    assert_eq!(all.iter().filter(|entry| entry.display_name.is_none()).count(), 1);
}
