//! sub2api group-key usage: settings, request URL and the reading of an answer.

use vstd::prelude::*;

use crate::decimal;
use crate::decimal::Decimal;
use crate::error;
use crate::error::{ClassifiedError, ErrorKind};
use crate::instant;
use crate::instant::{Duration, Timestamp};
use crate::registry::ProviderId;
use crate::retry;
use crate::retry::RetryPolicy;
use crate::settings;
use crate::settings::{ApiKeyCredential, Environment};
use crate::text;
use crate::transport;
use crate::transport::TransportConfig;
use crate::urls;
use crate::urls::UrlParts;
use crate::usage;
use crate::usage::{DetailRow, DetailSensitivity, NamedWindow, NamedWindowView, RateWindow, RowView, SampleView, SectionView, UsageSample, WindowView};

verus! {

pub const MAX_RESPONSE_BYTES: usize = 2 * 1024 * 1024;

pub const MAX_RATE_LIMITS: usize = 16;

pub const MAX_TIME_ZONE_BYTES: usize = 256;

/// Whether a text holds a character with a meaning in queries.
pub open spec fn holds_query_sign(s: Seq<char>) -> bool {
    s.contains('?') || s.contains('#') || s.contains('&') || s.contains('=')
}

fn holds(s: &[char], c: char) -> (r: bool)
    ensures
        r == s@.contains(c),
{
    let found = text::position(s, c, 0);
    proof {
        text::lemma_find_char_bounds(s@, c, 0);
        if found is Some {
            assert(s@[found->0 as int] == c);
        }
    }
    found.is_some()
}

/// The identifier of a time zone; `None` where a text can be none.
pub open spec fn zone_of(value: Seq<char>) -> Option<Seq<char>> {
    let zone = text::trimmed(value);
    if zone.len() == 0 || text::byte_len(zone) > MAX_TIME_ZONE_BYTES || text::has_control(zone)
        || holds_query_sign(zone) {
        None
    } else {
        Some(zone)
    }
}

/// The identifier of a time zone.
pub fn validate_time_zone(value: &str) -> (r: Result<String, ClassifiedError>)
    ensures
        match r {
            Ok(zone) => zone_of(value@) == Some(zone@),
            Err(e) => zone_of(value@) is None && e == error::plain(ErrorKind::Api),
        },
{
    let zone = text::trim_text(value);
    let chars = text::chars_of(zone.as_str());
    let s = chars.as_slice();
    if zone.as_str().is_empty() || zone.as_str().len() > MAX_TIME_ZONE_BYTES || text::any_control(s)
        || holds(s, '?') || holds(s, '#') || holds(s, '&') || holds(s, '=') {
        return Err(ClassifiedError::new(ErrorKind::Api));
    }
    Ok(zone)
}

/// The zone that a link into the zone database names.
pub open spec fn linked_zone(link: Seq<char>) -> Option<Seq<char>> {
    match text::find_from(link, "/zoneinfo/"@, 0) {
        Some(at) => {
            let name = link.skip(at + 10);
            if zone_of(name) is Some {
                Some(name)
            } else {
                None
            }
        },
        None => None,
    }
}

fn read_linked_zone(link: &str) -> (r: Option<String>)
    ensures
        r.deep_view() == linked_zone(link@),
{
    let chars = text::chars_of(link);
    let mark = text::chars_of("/zoneinfo/");
    proof {
        reveal_strlit("/zoneinfo/");
        text::lemma_find_from_bounds(link@, "/zoneinfo/"@, 0);
    }
    match text::find(chars.as_slice(), mark.as_slice(), 0) {
        Some(at) => {
            let n: usize = chars.len();
            let rest = vstd::slice::slice_subrange(chars.as_slice(), at + 10, n);
            assert(rest@ =~= link@.skip(at + 10));
            let name = text::text_of(rest);
            match validate_time_zone(name.as_str()) {
                Ok(_) => Some(name),
                Err(_) => None,
            }
        },
        None => None,
    }
}

/// The zone that the machine is set to: by its link into the zone database, or
/// else by its zone file.
pub open spec fn machine_zone(link: Option<Seq<char>>, file: Option<Seq<char>>) -> Option<Seq<char>> {
    let linked = match link {
        Some(target) => linked_zone(target),
        None => None,
    };
    match linked {
        Some(zone) => Some(zone),
        None => match file {
            Some(content) => match settings::cleaned_setting(content) {
                Some(zone) => if zone_of(zone) is Some {
                    Some(zone)
                } else {
                    None
                },
                None => None,
            },
            None => None,
        },
    }
}

/// The zone that the machine is set to. `link` is the target of its link into
/// the zone database, and `file` the content of its zone file.
pub fn system_time_zone(link: &Option<String>, file: &Option<String>) -> (r: Option<String>)
    ensures
        r.deep_view() == machine_zone(link.deep_view(), file.deep_view()),
{
    if let Some(target) = link {
        if let Some(zone) = read_linked_zone(target.as_str()) {
            return Some(zone);
        }
    }
    match file {
        Some(content) => match settings::clean_setting(content.as_str()) {
            Some(zone) => match validate_time_zone(zone.as_str()) {
                Ok(_) => Some(zone),
                Err(_) => None,
            },
            None => None,
        },
        None => None,
    }
}

/// The time zone of requests.
pub open spec fn request_zone(
    environment: Environment,
    link: Option<Seq<char>>,
    file: Option<Seq<char>>,
) -> Option<Seq<char>> {
    zone_of(
        match environment.setting("TZ"@) {
            Some(zone) => zone,
            None => match machine_zone(link, file) {
                Some(zone) => zone,
                None => "UTC"@,
            },
        },
    )
}

/// The settings of an account.
pub struct Sub2ApiSettings {
    pub credential: ApiKeyCredential,
    pub base_url: String,
    pub time_zone: String,
}

/// The failure of an environment's settings, in the order of the checks.
/// `allowed` is the endpoint policy's verdict on the base URL.
pub open spec fn settings_failure(
    environment: Environment,
    allowed: bool,
    link: Option<Seq<char>>,
    file: Option<Seq<char>>,
) -> Option<ErrorKind> {
    if settings::selected_key(environment, seq!["SUB2API_API_KEY"@]) is None {
        Some(ErrorKind::MissingCredential)
    } else if environment.setting("SUB2API_BASE_URL"@) is None || !allowed || request_zone(
        environment,
        link,
        file,
    ) is None {
        Some(ErrorKind::Api)
    } else {
        None
    }
}

impl Sub2ApiSettings {
    /// Resolves the endpoint, the key and the time zone of requests. `allowed` is
    /// the endpoint policy's verdict on the base URL.
    pub fn resolve(
        environment: &Environment,
        allowed: bool,
        link: &Option<String>,
        file: &Option<String>,
    ) -> (r: Result<Sub2ApiSettings, ClassifiedError>)
        ensures
            ({
                let failure = settings_failure(
                    *environment,
                    allowed,
                    link.deep_view(),
                    file.deep_view(),
                );
                match r {
                    Ok(found) => failure is None && settings::selected_key(
                        *environment,
                        seq!["SUB2API_API_KEY"@],
                    ) == Some(found.credential.key@) && environment.setting("SUB2API_BASE_URL"@)
                        == Some(found.base_url@) && request_zone(
                        *environment,
                        link.deep_view(),
                        file.deep_view(),
                    ) == Some(found.time_zone@),
                    Err(e) => failure is Some && e == error::plain(failure->0),
                }
            }),
    {
        let names = vec!["SUB2API_API_KEY"];
        assert(names.deep_view() =~= seq!["SUB2API_API_KEY"@]);
        let credential = match ApiKeyCredential::resolve(environment, &names) {
            Ok(credential) => credential,
            Err(e) => return Err(e),
        };
        let base_url = match environment.get_setting("SUB2API_BASE_URL") {
            Some(base_url) => base_url,
            None => return Err(ClassifiedError::new(ErrorKind::Api)),
        };
        if !allowed {
            return Err(ClassifiedError::new(ErrorKind::Api));
        }
        let raw = match environment.get_setting("TZ") {
            Some(zone) => zone,
            None => match system_time_zone(link, file) {
                Some(zone) => zone,
                None => "UTC".to_owned(),
            },
        };
        match validate_time_zone(raw.as_str()) {
            Ok(time_zone) => Ok(Sub2ApiSettings { credential, base_url, time_zone }),
            Err(e) => Err(e),
        }
    }
}

/// An adapter for an endpoint and a time zone.
pub struct Sub2ApiProvider {
    pub base_url: UrlParts,
    pub time_zone: String,
}

impl Sub2ApiProvider {
    /// Wraps the client of an account. `same_base` tells whether the client has
    /// the endpoint's base URL.
    pub fn from_client(
        provider: ProviderId,
        same_base: bool,
        base_url: UrlParts,
        time_zone: &str,
    ) -> (r: Result<Sub2ApiProvider, ClassifiedError>)
        ensures
            match r {
                Ok(adapter) => provider == ProviderId::Sub2Api && same_base && adapter.base_url
                    == base_url && zone_of(time_zone@) == Some(adapter.time_zone@),
                Err(e) => !(provider == ProviderId::Sub2Api && same_base && zone_of(time_zone@)
                    is Some) && e == error::plain(ErrorKind::Api),
            },
    {
        if provider != ProviderId::Sub2Api || !same_base {
            return Err(ClassifiedError::new(ErrorKind::Api));
        }
        match validate_time_zone(time_zone) {
            Ok(zone) => Ok(Sub2ApiProvider { base_url, time_zone: zone }),
            Err(e) => Err(e),
        }
    }

    /// The URL of a usage request.
    pub fn request_url(&self) -> (r: Result<String, ClassifiedError>)
        ensures
            match r {
                Ok(url) => request_href(*self) == Some(url@),
                Err(e) => request_href(*self) is None && e == error::plain(ErrorKind::Api),
            },
    {
        let url = usage_url(&self.base_url)?;
        let pairs = vec![
            ("days".to_owned(), "30".to_owned()),
            ("timezone".to_owned(), self.time_zone.clone()),
        ];
        assert(pairs.deep_view() =~= seq![("days"@, "30"@), ("timezone"@, self.time_zone@)]);
        match urls::extend_pairs(url.as_str(), &pairs) {
            Some(found) => Ok(found),
            None => Err(ClassifiedError::new(ErrorKind::Api)),
        }
    }
}

/// The URL of a usage request.
pub open spec fn request_href(adapter: Sub2ApiProvider) -> Option<Seq<char>> {
    match usage_href(adapter.base_url.path@, adapter.base_url.href@) {
        Some(url) => urls::url_with_more_pairs(
            url,
            seq![("days"@, "30"@), ("timezone"@, adapter.time_zone@)],
        ),
        None => None,
    }
}

/// The segments of a path that are not empty, among the first `n`.
pub open spec fn full_segments(segments: Seq<Seq<char>>, n: int) -> Seq<Seq<char>>
    decreases n,
{
    if n <= 0 {
        seq![]
    } else if segments[n - 1].len() == 0 {
        full_segments(segments, n - 1)
    } else {
        full_segments(segments, n - 1).push(segments[n - 1])
    }
}

/// The segments of a path that are not empty.
pub open spec fn path_segments(path: Seq<char>) -> Seq<Seq<char>> {
    let all = text::pieces(path.skip(1), '/');
    full_segments(all, all.len() as int)
}

/// The URL of usage below a base URL.
pub open spec fn usage_href(path: Seq<char>, href: Seq<char>) -> Option<Seq<char>> {
    let segments = path_segments(path);
    let n = segments.len() as int;
    if path.len() == 0 || path[0] != '/' {
        None
    } else if n >= 2 && segments[n - 2] == "v1"@ && segments[n - 1] == "usage"@ {
        Some(href)
    } else if n >= 1 && segments[n - 1] == "v1"@ {
        urls::url_below_segments(href, seq!["usage"@])
    } else {
        urls::url_below_segments(href, seq!["v1"@, "usage"@])
    }
}

/// The URL of usage below a base URL.
pub fn usage_url(base: &UrlParts) -> (r: Result<String, ClassifiedError>)
    ensures
        match r {
            Ok(url) => usage_href(base.path@, base.href@) == Some(url@),
            Err(e) => usage_href(base.path@, base.href@) is None && e == error::plain(
                ErrorKind::Api,
            ),
        },
{
    let path = text::chars_of(base.path.as_str());
    let length: usize = path.len();
    if length == 0 || path[0] != '/' {
        return Err(ClassifiedError::new(ErrorKind::Api));
    }
    let rest = vstd::slice::slice_subrange(path.as_slice(), 1, length);
    assert(rest@ =~= base.path@.skip(1));
    let pieces = text::split(rest, '/');
    let ghost all = text::pieces(base.path@.skip(1), '/');
    let mut segments: Vec<String> = Vec::new();
    let mut i: usize = 0;
    assert(segments.deep_view() =~= seq![]);
    while i < pieces.len()
        invariant
            i <= pieces@.len(),
            pieces@.len() == all.len(),
            forall|j: int| 0 <= j < pieces@.len() ==> (#[trigger] pieces@[j])@ == all[j],
            segments.deep_view() == full_segments(all, i as int),
        decreases pieces@.len() - i,
    {
        assert(pieces@[i as int]@ == all[i as int]);
        let ghost before = segments.deep_view();
        if pieces[i].len() > 0 {
            let segment = text::text_of(pieces[i]);
            segments.push(segment);
            assert(segments.deep_view() =~= before.push(all[i as int]));
        }
        i += 1;
    }
    let ghost found = segments.deep_view();
    let n: usize = segments.len();
    let last_is_v1 = n >= 1 && {
        assert(found[n as int - 1] == segments@[n as int - 1]@);
        text::same_text(segments[n - 1].as_str(), "v1")
    };
    let complete = n >= 2 && {
        assert(found[n as int - 1] == segments@[n as int - 1]@);
        assert(found[n as int - 2] == segments@[n as int - 2]@);
        text::same_text(segments[n - 2].as_str(), "v1") && text::same_text(
            segments[n - 1].as_str(),
            "usage",
        )
    };
    if complete {
        return Ok(base.href.clone());
    }
    let below = if last_is_v1 {
        let names = vec!["usage"];
        assert(names.deep_view() =~= seq!["usage"@]);
        urls::below_segments(base.href.as_str(), &names)
    } else {
        let names = vec!["v1", "usage"];
        assert(names.deep_view() =~= seq!["v1"@, "usage"@]);
        urls::below_segments(base.href.as_str(), &names)
    };
    match below {
        Some(url) => Ok(url),
        None => Err(ClassifiedError::new(ErrorKind::Api)),
    }
}

/// A quota of an account.
pub struct Quota {
    pub limit: Decimal,
    pub used: Decimal,
    pub unit: Option<String>,
}

/// A subscription of an account.
pub struct Subscription {
    pub daily_usage_usd: Option<Decimal>,
    pub weekly_usage_usd: Option<Decimal>,
    pub monthly_usage_usd: Option<Decimal>,
    pub daily_limit_usd: Option<Decimal>,
    pub weekly_limit_usd: Option<Decimal>,
    pub monthly_limit_usd: Option<Decimal>,
    pub expires_at: Option<String>,
}

/// A rate limit of an account.
pub struct RateLimit {
    pub window: String,
    pub limit: Decimal,
    pub used: Decimal,
    pub reset_at: Option<String>,
}

/// Totals over a span.
pub struct Totals {
    pub requests: Option<Decimal>,
    pub total_tokens: Option<Decimal>,
    pub actual_cost: Option<Decimal>,
}

/// An answer to a usage request.
pub struct UsageResponse {
    pub is_valid: Option<bool>,
    pub plan_name: Option<String>,
    pub balance: Option<Decimal>,
    pub unit: Option<String>,
    pub quota: Option<Quota>,
    pub subscription: Option<Subscription>,
    pub rate_limits: Vec<RateLimit>,
    pub today: Option<Totals>,
    pub total: Option<Totals>,
    pub expires_at: Option<String>,
}

/// Whether an optional decimal is representable.
pub open spec fn some_wf(value: Option<Decimal>) -> bool {
    value is Some ==> value->0.wf()
}

impl Totals {
    pub open spec fn wf(self) -> bool {
        some_wf(self.requests) && some_wf(self.total_tokens) && some_wf(self.actual_cost)
    }
}

impl UsageResponse {
    /// Every decimal is representable.
    pub open spec fn wf(self) -> bool {
        &&& some_wf(self.balance)
        &&& self.quota matches Some(q) ==> q.limit.wf() && q.used.wf()
        &&& self.subscription matches Some(s) ==> some_wf(s.daily_usage_usd) && some_wf(
            s.weekly_usage_usd,
        ) && some_wf(s.monthly_usage_usd) && some_wf(s.daily_limit_usd) && some_wf(
            s.weekly_limit_usd,
        ) && some_wf(s.monthly_limit_usd)
        &&& forall|i: int|
            0 <= i < self.rate_limits@.len() ==> (#[trigger] self.rate_limits@[i]).limit.wf()
                && self.rate_limits@[i].used.wf()
        &&& self.today matches Some(t) ==> t.wf()
        &&& self.total matches Some(t) ==> t.wf()
    }
}

/// A text without surrounding whitespace, where anything is left.
pub open spec fn cleaned(value: Option<Seq<char>>) -> Option<Seq<char>> {
    match value {
        Some(s) => if text::trimmed(s).len() > 0 {
            Some(text::trimmed(s))
        } else {
            None
        },
        None => None,
    }
}

/// A text without surrounding whitespace, where anything is left.
pub fn clean_optional(value: &Option<String>) -> (r: Option<String>)
    ensures
        r.deep_view() == cleaned(value.deep_view()),
{
    match value {
        Some(s) => {
            let shown = text::trim_text(s.as_str());
            if shown.as_str().is_empty() {
                None
            } else {
                Some(shown)
            }
        },
        None => None,
    }
}

/// The unit of an account: its own, or else that of its quota.
pub open spec fn unit_of(response: UsageResponse) -> Seq<char> {
    match cleaned(response.unit.deep_view()) {
        Some(unit) => unit,
        None => {
            let quota_unit = match response.quota {
                Some(q) => cleaned(q.unit.deep_view()),
                None => None,
            };
            match quota_unit {
                Some(unit) => unit,
                None => "USD"@,
            }
        },
    }
}

/// The unit of an account.
pub fn preferred_unit(response: &UsageResponse) -> (r: String)
    ensures
        r@ == unit_of(*response),
{
    if let Some(unit) = clean_optional(&response.unit) {
        return unit;
    }
    if let Some(quota) = &response.quota {
        if let Some(unit) = clean_optional(&quota.unit) {
            return unit;
        }
    }
    "USD".to_owned()
}

/// A number with two decimals and its integer digits in groups.
pub open spec fn grouped_amount(value: Decimal) -> Seq<char> {
    let raw = decimal::decimal_fixed(value, 2);
    text::grouped_number(raw) + (if raw.contains('.') {
        ""@
    } else {
        ".00"@
    })
}

fn format_decimal_grouped(value: Decimal) -> (r: String)
    requires
        value.wf(),
    ensures
        r@ == grouped_amount(value),
{
    let raw = decimal::to_fixed(value, 2);
    let mut r = text::group_number(raw.as_str());
    let chars = text::chars_of(raw.as_str());
    let ghost before = r@;
    if !holds(chars.as_slice(), '.') {
        r.append(".00");
    } else {
        proof {
            reveal_strlit("");
            assert(before + ""@ =~= before);
        }
    }
    r
}

/// An amount of money.
pub open spec fn money(value: Decimal, unit: Seq<char>) -> Seq<char> {
    if text::same_ignoring_case(unit, "USD"@) {
        "$"@ + grouped_amount(value)
    } else {
        decimal::decimal_fixed(value, 2) + " "@ + unit
    }
}

/// An amount of money.
pub fn format_money(value: Decimal, unit: &str) -> (r: String)
    requires
        value.wf(),
    ensures
        r@ == money(value, unit@),
{
    let chars = text::chars_of(unit);
    let dollars = text::chars_of("USD");
    if text::eq_ignore_case(chars.as_slice(), dollars.as_slice()) {
        let mut r = "$".to_owned();
        let amount = format_decimal_grouped(value);
        r.append(amount.as_str());
        r
    } else {
        let mut r = decimal::to_fixed(value, 2);
        r.append(" ");
        r.append(unit);
        r
    }
}

/// How many percent of a limit are used, within its range; `None` where that does
/// not fit.
pub open spec fn percent_of(used: Decimal, limit: Decimal) -> Option<Decimal> {
    if !limit.positive() {
        Some(decimal::whole(100))
    } else {
        decimal::percent_of(used, limit)
    }
}

/// How many percent of a limit are used.
pub fn percentage(used: Decimal, limit: Decimal) -> (r: Result<Decimal, ClassifiedError>)
    requires
        used.wf(),
        limit.wf(),
    ensures
        match r {
            Ok(percent) => percent_of(used, limit) == Some(percent) && percent.wf(),
            Err(e) => percent_of(used, limit) is None && e == error::plain(ErrorKind::Parse),
        },
{
    if !limit.is_positive() {
        return Ok(Decimal::of(100));
    }
    match used.percent_of_whole(limit) {
        Some(percent) => Ok(percent),
        None => Err(ClassifiedError::new(ErrorKind::Parse)),
    }
}

/// The window of a limit; `None` where its percentage does not fit.
pub open spec fn window_of(
    used: Decimal,
    limit: Decimal,
    minutes: Option<i64>,
    resets_at: Option<Timestamp>,
    unit: Seq<char>,
) -> Option<WindowView> {
    match percent_of(used, limit) {
        Some(percent) => Some(
            WindowView {
                used: Some(percent),
                minutes,
                resets_at,
                description: Some(money(used, unit) + " / "@ + money(limit, unit)),
            },
        ),
        None => None,
    }
}

fn window(
    used: Decimal,
    limit: Decimal,
    minutes: Option<i64>,
    resets_at: Option<Timestamp>,
    unit: &str,
) -> (r: Result<RateWindow, ClassifiedError>)
    requires
        used.wf(),
        limit.wf(),
    ensures
        match r {
            Ok(found) => window_of(used, limit, minutes, resets_at, unit@) == Some(found.value()),
            Err(e) => window_of(used, limit, minutes, resets_at, unit@) is None && e
                == error::plain(ErrorKind::Parse),
        },
{
    let percent = percentage(used, limit)?;
    let mut description = format_money(used, unit);
    let top = format_money(limit, unit);
    description.append(" / ");
    description.append(top.as_str());
    Ok(RateWindow { used: Some(percent), minutes, resets_at, description: Some(description) })
}

/// The window of a limit that may be absent: `Some(None)` where there is none.
pub open spec fn window_if_any(
    used: Decimal,
    limit: Option<Decimal>,
    minutes: Option<i64>,
    unit: Seq<char>,
) -> Option<Option<WindowView>> {
    match limit {
        Some(top) => if top.positive() {
            match window_of(used, top, minutes, None, unit) {
                Some(found) => Some(Some(found)),
                None => None,
            }
        } else {
            Some(None)
        },
        None => Some(None),
    }
}

fn optional_window(used: Decimal, limit: Option<Decimal>, minutes: Option<i64>, unit: &str) -> (r:
    Result<Option<RateWindow>, ClassifiedError>)
    requires
        used.wf(),
        some_wf(limit),
    ensures
        match r {
            Ok(found) => window_if_any(used, limit, minutes, unit@) == Some(
                usage::window_value(found),
            ),
            Err(e) => window_if_any(used, limit, minutes, unit@) is None && e == error::plain(
                ErrorKind::Parse,
            ),
        },
{
    match limit {
        Some(top) => if top.is_positive() {
            match window(used, top, minutes, None, unit) {
                Ok(found) => Ok(Some(found)),
                Err(e) => Err(e),
            }
        } else {
            Ok(None)
        },
        None => Ok(None),
    }
}

fn number_or_zero(value: Option<Decimal>) -> (r: Decimal)
    requires
        some_wf(value),
    ensures
        r == decimal::or_zero(value),
        r.wf(),
{
    match value {
        Some(d) => d,
        None => Decimal::of(0),
    }
}

/// The three windows of an account: of its subscription's day, week and month,
/// or else of its quota.
pub open spec fn windows_of(response: UsageResponse) -> Option<
    (Option<WindowView>, Option<WindowView>, Option<WindowView>),
> {
    match response.subscription {
        Some(s) => match (
            window_if_any(decimal::or_zero(s.daily_usage_usd), s.daily_limit_usd, Some(1440i64), "USD"@),
            window_if_any(decimal::or_zero(s.weekly_usage_usd), s.weekly_limit_usd, Some(10080i64), "USD"@),
            window_if_any(
                decimal::or_zero(s.monthly_usage_usd),
                s.monthly_limit_usd,
                Some(43200i64),
                "USD"@,
            ),
        ) {
            (Some(daily), Some(weekly), Some(monthly)) => Some((daily, weekly, monthly)),
            _ => None,
        },
        None => match response.quota {
            Some(q) => {
                let unit = match cleaned(q.unit.deep_view()) {
                    Some(unit) => unit,
                    None => unit_of(response),
                };
                match window_if_any(q.used, Some(q.limit), None, unit) {
                    Some(found) => Some((found, None, None)),
                    None => None,
                }
            },
            None => Some((None, None, None)),
        },
    }
}

fn quota_windows(response: &UsageResponse) -> (r: Result<
    (Option<RateWindow>, Option<RateWindow>, Option<RateWindow>),
    ClassifiedError,
>)
    requires
        response.wf(),
    ensures
        match r {
            Ok((first, second, third)) => windows_of(*response) == Some(
                (
                    usage::window_value(first),
                    usage::window_value(second),
                    usage::window_value(third),
                ),
            ),
            Err(e) => windows_of(*response) is None && e == error::plain(ErrorKind::Parse),
        },
{
    if let Some(s) = &response.subscription {
        let daily = optional_window(
            number_or_zero(s.daily_usage_usd),
            s.daily_limit_usd,
            Some(1440),
            "USD",
        )?;
        let weekly = optional_window(
            number_or_zero(s.weekly_usage_usd),
            s.weekly_limit_usd,
            Some(10080),
            "USD",
        )?;
        let monthly = optional_window(
            number_or_zero(s.monthly_usage_usd),
            s.monthly_limit_usd,
            Some(43200),
            "USD",
        )?;
        return Ok((daily, weekly, monthly));
    }
    match &response.quota {
        Some(q) => {
            let unit = match clean_optional(&q.unit) {
                Some(unit) => unit,
                None => preferred_unit(response),
            };
            let found = optional_window(q.used, Some(q.limit), None, unit.as_str())?;
            Ok((found, None, None))
        },
        None => Ok((None, None, None)),
    }
}

/// An instant that may be absent: `Some(None)` where it is, `None` where its text
/// is none.
pub open spec fn date_if_any(value: Option<Seq<char>>) -> Option<Option<Timestamp>> {
    match value {
        Some(s) => match instant::instant_of_text(s) {
            Some(at) => Some(Some(at)),
            None => None,
        },
        None => Some(None),
    }
}

fn optional_date(value: &Option<String>) -> (r: Result<Option<Timestamp>, ClassifiedError>)
    ensures
        match r {
            Ok(found) => date_if_any(value.deep_view()) == Some(found),
            Err(e) => date_if_any(value.deep_view()) is None && e == error::plain(
                ErrorKind::Parse,
            ),
        },
{
    match value {
        Some(s) => match Timestamp::parse(s.as_str()) {
            Some(at) => Ok(Some(at)),
            None => Err(ClassifiedError::new(ErrorKind::Parse)),
        },
        None => Ok(None),
    }
}

/// The title of a rate limit.
pub open spec fn rate_title(id: Seq<char>) -> Seq<char> {
    let name = text::lower(id);
    if name == "5h"@ {
        "5 hour limit"@
    } else if name == "1d"@ {
        "Daily limit"@
    } else if name == "7d"@ {
        "7 day limit"@
    } else {
        id + " limit"@
    }
}

/// The minutes of a rate limit's window, where they are known.
pub open spec fn rate_minutes(id: Seq<char>) -> Option<i64> {
    let name = text::lower(id);
    if name == "5h"@ {
        Some(300i64)
    } else if name == "1d"@ {
        Some(1440i64)
    } else if name == "7d"@ {
        Some(10080i64)
    } else {
        None
    }
}

/// The window of a rate limit; `None` where the limit is malformed.
pub open spec fn rate_of(rate: RateLimit) -> Option<NamedWindowView> {
    match (cleaned(Some(rate.window@)), date_if_any(rate.reset_at.deep_view())) {
        (Some(id), Some(reset)) => match window_of(
            rate.used,
            rate.limit,
            rate_minutes(id),
            reset,
            "USD"@,
        ) {
            Some(window) => Some(NamedWindowView { id, title: rate_title(id), window }),
            None => None,
        },
        _ => None,
    }
}

fn rate_window(rate: &RateLimit) -> (r: Result<NamedWindow, ClassifiedError>)
    requires
        rate.used.wf(),
        rate.limit.wf(),
    ensures
        match r {
            Ok(found) => rate_of(*rate) == Some(found.value()),
            Err(e) => rate_of(*rate) is None && e == error::plain(ErrorKind::Parse),
        },
{
    let id = text::trim_text(rate.window.as_str());
    if id.as_str().is_empty() {
        return Err(ClassifiedError::new(ErrorKind::Parse));
    }
    let chars = text::chars_of(id.as_str());
    let name = text::to_lower(chars.as_slice());
    let (title, minutes) = if text::equals(name.as_slice(), "5h") {
        ("5 hour limit".to_owned(), Some(300i64))
    } else if text::equals(name.as_slice(), "1d") {
        ("Daily limit".to_owned(), Some(1440i64))
    } else if text::equals(name.as_slice(), "7d") {
        ("7 day limit".to_owned(), Some(10080i64))
    } else {
        let mut title = id.clone();
        title.append(" limit");
        (title, None)
    };
    let reset = optional_date(&rate.reset_at)?;
    let found = window(rate.used, rate.limit, minutes, reset, "USD")?;
    Ok(NamedWindow { id, title, window: found })
}

/// The windows of the first `n` rate limits; `None` where one is malformed.
pub open spec fn rates_of(rates: Seq<RateLimit>, n: int) -> Option<Seq<NamedWindowView>>
    decreases n,
{
    if n <= 0 {
        Some(seq![])
    } else {
        match (rates_of(rates, n - 1), rate_of(rates[n - 1])) {
            (Some(before), Some(window)) => Some(before.push(window)),
            _ => None,
        }
    }
}

proof fn lemma_rates_failure(rates: Seq<RateLimit>, n: int, m: int)
    requires
        n <= m,
        rates_of(rates, n) is None,
    ensures
        rates_of(rates, m) is None,
    decreases m - n,
{
    if n < m {
        lemma_rates_failure(rates, n, m - 1);
    }
}

/// The windows of an account's rate limits, of which there may be a bounded
/// number.
pub open spec fn rate_windows_of(rates: Seq<RateLimit>) -> Option<Seq<NamedWindowView>> {
    if rates.len() > MAX_RATE_LIMITS {
        None
    } else {
        rates_of(rates, rates.len() as int)
    }
}

fn rate_windows(rates: &Vec<RateLimit>) -> (r: Result<Vec<NamedWindow>, ClassifiedError>)
    requires
        forall|i: int|
            0 <= i < rates@.len() ==> (#[trigger] rates@[i]).limit.wf() && rates@[i].used.wf(),
    ensures
        match r {
            Ok(found) => rate_windows_of(rates@) == Some(usage::named_values(found@)),
            Err(e) => rate_windows_of(rates@) is None && e == error::plain(ErrorKind::Parse),
        },
{
    if rates.len() > MAX_RATE_LIMITS {
        return Err(ClassifiedError::new(ErrorKind::Parse));
    }
    let mut found: Vec<NamedWindow> = Vec::new();
    let mut i: usize = 0;
    assert(usage::named_values(found@) =~= seq![]);
    while i < rates.len()
        invariant
            i <= rates@.len() <= MAX_RATE_LIMITS,
            forall|j: int|
                0 <= j < rates@.len() ==> (#[trigger] rates@[j]).limit.wf() && rates@[j].used.wf(),
            rates_of(rates@, i as int) == Some(usage::named_values(found@)),
        decreases rates@.len() - i,
    {
        let ghost before = usage::named_values(found@);
        match rate_window(&rates[i]) {
            Ok(window) => {
                found.push(window);
                assert(usage::named_values(found@) =~= before.push(window.value()));
            },
            Err(e) => {
                proof {
                    lemma_rates_failure(rates@, i as int + 1, rates@.len() as int);
                }
                return Err(e);
            },
        }
        i += 1;
    }
    Ok(found)
}

/// A count; `None` where it is not whole or does not fit.
pub open spec fn count_of(value: Option<Decimal>) -> Option<i64> {
    let d = decimal::or_zero(value);
    if d.integral() && i64::MIN <= d.truncated() <= i64::MAX {
        Some(d.truncated() as i64)
    } else {
        None
    }
}

fn integer(value: Option<Decimal>) -> (r: Result<i64, ClassifiedError>)
    requires
        some_wf(value),
    ensures
        match r {
            Ok(n) => count_of(value) == Some(n),
            Err(e) => count_of(value) is None && e == error::plain(ErrorKind::Parse),
        },
{
    let d = number_or_zero(value);
    if !d.is_integral() {
        return Err(ClassifiedError::new(ErrorKind::Parse));
    }
    match d.to_i64() {
        Some(n) => Ok(n),
        None => Err(ClassifiedError::new(ErrorKind::Parse)),
    }
}

/// A count with its digits in groups.
pub open spec fn grouped_count(n: i64) -> Seq<char> {
    text::grouped_number(text::signed_digits(n as int))
}

/// A count with its digits in groups.
pub fn format_integer(n: i64) -> (r: String)
    ensures
        r@ == grouped_count(n),
{
    let mut raw = String::new();
    text::push_signed(&mut raw, n);
    assert(raw@ =~= text::signed_digits(n as int));
    text::group_number(raw.as_str())
}

/// The rows of totals that may be absent; `None` where a count does not fit.
pub open spec fn total_rows(title: Seq<char>, totals: Option<Totals>) -> Option<Seq<RowView>> {
    match totals {
        None => Some(seq![]),
        Some(t) => match (count_of(t.requests), count_of(t.total_tokens)) {
            (Some(requests), Some(tokens)) => Some(
                seq![
                    RowView {
                        label: title + " requests"@,
                        value: grouped_count(requests),
                        secondary: None,
                        sensitivity: DetailSensitivity::Personal,
                    },
                    RowView {
                        label: title + " tokens"@,
                        value: grouped_count(tokens),
                        secondary: Some(money(decimal::or_zero(t.actual_cost), "USD"@)),
                        sensitivity: DetailSensitivity::Personal,
                    },
                ],
            ),
            _ => None,
        },
    }
}

fn push_totals(rows: &mut Vec<DetailRow>, title: &str, totals: &Option<Totals>) -> (r: Result<
    (),
    ClassifiedError,
>)
    requires
        totals matches Some(t) ==> t.wf(),
    ensures
        match r {
            Ok(_) => total_rows(title@, *totals) is Some && usage::row_values(final(rows)@)
                == usage::row_values(old(rows)@) + total_rows(title@, *totals)->0,
            Err(e) => total_rows(title@, *totals) is None && e == error::plain(ErrorKind::Parse),
        },
{
    let ghost before = usage::row_values(rows@);
    let t = match totals {
        Some(t) => t,
        None => {
            assert(before + seq![] =~= before);
            return Ok(());
        },
    };
    let requests: i64 = integer(t.requests)?;
    let tokens: i64 = integer(t.total_tokens)?;
    let cost = number_or_zero(t.actual_cost);
    let mut first = title.to_owned();
    first.append(" requests");
    let mut second = title.to_owned();
    second.append(" tokens");
    rows.push(DetailRow { label: first, value: format_integer(requests), secondary: None, sensitivity: DetailSensitivity::Personal });
    rows.push(
        DetailRow {
            label: second,
            value: format_integer(tokens),
            secondary: Some(format_money(cost, "USD")),
            sensitivity: DetailSensitivity::Personal,
        },
    );
    assert(usage::row_values(rows@) =~= before + total_rows(title@, *totals)->0);
    Ok(())
}

/// The rows of an account; `None` where a count does not fit.
pub open spec fn rows_of(response: UsageResponse) -> Option<Seq<RowView>> {
    let balance = match response.balance {
        Some(b) => seq![
            RowView { label: "Balance"@, value: money(b, unit_of(response)), secondary: None, sensitivity: DetailSensitivity::Personal },
        ],
        None => seq![],
    };
    match (total_rows("Today"@, response.today), total_rows("All time"@, response.total)) {
        (Some(today), Some(total)) => Some(balance + today + total),
        _ => None,
    }
}

/// When a subscription ends; `None` where one of its texts is malformed.
pub open spec fn expiry_of(response: UsageResponse) -> Option<Option<Timestamp>> {
    let first = match response.subscription {
        Some(s) => date_if_any(s.expires_at.deep_view()),
        None => Some(None),
    };
    match (first, date_if_any(response.expires_at.deep_view())) {
        (Some(Some(at)), Some(_)) => Some(Some(at)),
        (Some(None), Some(other)) => Some(other),
        _ => None,
    }
}

/// The failure of an answer.
pub open spec fn response_failure(response: UsageResponse) -> Option<ErrorKind> {
    if response.is_valid == Some(false) {
        Some(ErrorKind::AuthenticationExpired)
    } else if windows_of(response) is None || rate_windows_of(response.rate_limits@) is None
        || expiry_of(response) is None || rows_of(response) is None {
        Some(ErrorKind::Parse)
    } else {
        None
    }
}

/// The reading of an answer.
pub open spec fn sample_of(response: UsageResponse, fetched_at: Timestamp) -> SampleView {
    let (primary, secondary, tertiary) = windows_of(response)->0;
    let plan = cleaned(response.plan_name.deep_view());
    SampleView {
        primary,
        secondary,
        tertiary,
        extra: rate_windows_of(response.rate_limits@)->0,
        sections: if rows_of(response)->0.len() == 0 {
            seq![]
        } else {
            seq![
                SectionView { title: "Usage summary"@, rows: rows_of(response)->0, chart: None },
            ]
        },
        organization: plan,
        login_method: plan,
        expires_at: expiry_of(response)->0,
        ..usage::empty_sample(ProviderId::Sub2Api, fetched_at, "sub2api"@, "api"@)
    }
}

/// The reading of an answer.
pub fn normalize(response: &UsageResponse, fetched_at: Timestamp) -> (r: Result<
    UsageSample,
    ClassifiedError,
>)
    requires
        response.wf(),
    ensures
        match r {
            Ok(sample) => response_failure(*response) is None && sample.value() == sample_of(
                *response,
                fetched_at,
            ),
            Err(e) => response_failure(*response) is Some && e == error::plain(
                response_failure(*response)->0,
            ),
        },
{
    if let Some(valid) = response.is_valid {
        if !valid {
            return Err(ClassifiedError::new(ErrorKind::AuthenticationExpired));
        }
    }
    let unit = preferred_unit(response);
    let (primary, secondary, tertiary) = quota_windows(response)?;
    let extra = rate_windows(&response.rate_limits)?;
    let subscribed = match &response.subscription {
        Some(s) => optional_date(&s.expires_at)?,
        None => None,
    };
    let stated = optional_date(&response.expires_at)?;
    let expires_at = match subscribed {
        Some(at) => Some(at),
        None => stated,
    };
    let mut rows: Vec<DetailRow> = Vec::new();
    if let Some(balance) = response.balance {
        rows.push(
            DetailRow {
                label: "Balance".to_owned(),
                value: format_money(balance, unit.as_str()),
                secondary: None,
                sensitivity: DetailSensitivity::Personal,
            },
        );
    }
    let ghost first = match response.balance {
        Some(b) => seq![
            RowView { label: "Balance"@, value: money(b, unit_of(*response)), secondary: None, sensitivity: DetailSensitivity::Personal },
        ],
        None => seq![],
    };
    assert(usage::row_values(rows@) =~= first);
    push_totals(&mut rows, "Today", &response.today)?;
    push_totals(&mut rows, "All time", &response.total)?;
    let mut sample = UsageSample::empty(ProviderId::Sub2Api, fetched_at, "sub2api", "api");
    sample.primary = primary;
    sample.secondary = secondary;
    sample.tertiary = tertiary;
    sample.extra = extra;
    if rows.len() > 0 {
        sample.sections = usage::one_section("Usage summary", rows, None);
    }
    sample.organization = clean_optional(&response.plan_name);
    sample.login_method = clean_optional(&response.plan_name);
    sample.expires_at = expires_at;
    Ok(sample)
}

/// A limit that is used up or not positive shows as wholly used, and no
/// percentage leaves its range.
pub proof fn law_percentage_in_range(used: Decimal, limit: Decimal)
    requires
        percent_of(used, limit) is Some,
    ensures
        !percent_of(used, limit)->0.below_zero(),
        !decimal::whole(100).less(percent_of(used, limit)->0),
        !limit.positive() ==> percent_of(used, limit) == Some(decimal::whole(100)),
{
    if limit.positive() {
        let percent = decimal::decimal_quotient(
            decimal::decimal_product(used, decimal::whole(100))->0,
            limit,
        )->0;
        decimal::law_clamped_in_range(percent, decimal::whole(100));
    }
}

/// Ceilings of this adapter's transport.
pub fn transport_config() -> (r: Result<TransportConfig, ClassifiedError>)
    ensures
        r == Ok::<TransportConfig, ClassifiedError>(
            transport::ceilings(5, 15, MAX_RESPONSE_BYTES, 3, retry::one_retry(250, 15)),
        ),
        r->Ok_0.valid(),
{
    transport::bounded(
        5,
        15,
        MAX_RESPONSE_BYTES,
        3,
        RetryPolicy::one(Duration::from_millis(250), Duration::from_secs(15)),
    )
}

/// The windows of a subscription are of a day, a week of seven and a month of thirty
/// days, each with the share of its own use in its own limit.
pub proof fn law_subscription_windows(response: UsageResponse)
    requires
        response.subscription is Some,
    ensures
        ({
            let s = response.subscription->0;
            windows_of(response) matches Some((daily, weekly, monthly)) ==> {
                &&& daily matches Some(w) ==> w.minutes == Some((24 * 60) as i64) && s.daily_limit_usd
                    is Some && w.used == percent_of(
                    decimal::or_zero(s.daily_usage_usd),
                    s.daily_limit_usd->0,
                )
                &&& weekly matches Some(w) ==> w.minutes == Some((7 * 24 * 60) as i64)
                    && s.weekly_limit_usd is Some && w.used == percent_of(
                    decimal::or_zero(s.weekly_usage_usd),
                    s.weekly_limit_usd->0,
                )
                &&& monthly matches Some(w) ==> w.minutes == Some((30 * 24 * 60) as i64)
                    && s.monthly_limit_usd is Some && w.used == percent_of(
                    decimal::or_zero(s.monthly_usage_usd),
                    s.monthly_limit_usd->0,
                )
            }
        }),
{
}

/// The share of a positive limit that is used is shown in percent of it.
pub proof fn law_limits_show_as_percentages(used: Decimal, limit: Decimal)
    requires
        decimal::computes(),
        used.wf(),
        limit.wf(),
        limit.positive(),
        100 * used.magnitude < decimal::MAGNITUDE_LIMIT,
    ensures
        percent_of(used, limit) is Some ==> decimal::limited_percentage(
            used,
            limit,
            percent_of(used, limit)->0,
        ),
{
    if percent_of(used, limit) is Some {
        decimal::law_percentages_are_shares(used, limit);
    }
}

/// The lengths of named rates agree: seven days are seven times a day, and a day is
/// twenty-four fifths of five hours.
pub proof fn law_rate_lengths_agree(five_hours: Seq<char>, day: Seq<char>, week: Seq<char>)
    requires
        text::lower(five_hours) == "5h"@,
        text::lower(day) == "1d"@,
        text::lower(week) == "7d"@,
    ensures
        rate_minutes(five_hours) == Some((5 * 60) as i64),
        rate_minutes(day) == Some((24 * 60) as i64),
        rate_minutes(week) == Some((7 * 24 * 60) as i64),
{
    reveal_strlit("5h");
    reveal_strlit("1d");
    reveal_strlit("7d");
    assert("5h"@[0] != "1d"@[0] && "5h"@[0] != "7d"@[0] && "1d"@[0] != "7d"@[0]);
}

/// A response that says that it is not valid has an expired session. What is told of
/// today and of all time is counted from its own totals, behind the balance.
pub proof fn law_responses_tell_their_totals(response: UsageResponse)
    ensures
        response.is_valid == Some(false) ==> response_failure(response) == Some(
            ErrorKind::AuthenticationExpired,
        ),
        response.is_valid != Some(false) ==> response_failure(response)
            != Some(ErrorKind::AuthenticationExpired),
        response.balance is None && response.total is None ==> rows_of(response) == total_rows(
            "Today"@,
            response.today,
        ),
        response.balance is None && response.today is None ==> rows_of(response) == total_rows(
            "All time"@,
            response.total,
        ),
        response.balance is Some && rows_of(response) is Some ==> rows_of(response)->0.len() > 0
            && rows_of(response)->0[0].label == "Balance"@,
{
    if response.balance is None && response.total is None && rows_of(response) is Some {
        assert(rows_of(response)->0 =~= total_rows("Today"@, response.today)->0);
    }
    if response.balance is None && response.today is None && rows_of(response) is Some {
        assert(rows_of(response)->0 =~= total_rows("All time"@, response.total)->0);
    }
}

/// Counts are read only where they are whole.
pub proof fn law_counts_are_whole(value: Decimal)
    ensures
        count_of(Some(value)) matches Some(n) ==> n * decimal::pow10(value.scale as nat)
            == value.mantissa(),
        count_of(None) == Some(0i64),
{
    decimal::lemma_pow10_positive(value.scale as nat);
    let unit = decimal::pow10(value.scale as nat);
    let m = value.magnitude as int;
    if value.integral() {
        assert((m / unit) * unit == m && -(m / unit) * unit == -m) by (nonlinear_arith)
            requires
                unit > 0,
                m % unit == 0,
        ;
    }
    decimal::law_whole_numbers_count(0, 0, 0);
}

/// A subscription ends when it says so, and only where it says nothing when the
/// account does.
pub proof fn law_subscriptions_end_as_told(response: UsageResponse)
    ensures
        expiry_of(response) matches Some(end) ==> {
            let own = match response.subscription {
                Some(s) => date_if_any(s.expires_at.deep_view()),
                None => Some(None),
            };
            &&& own == Some(end) || (own == Some(None::<Timestamp>) && date_if_any(
                response.expires_at.deep_view(),
            ) == Some(end))
            &&& end is None ==> date_if_any(response.expires_at.deep_view()) == Some(
                None::<Timestamp>,
            )
        },
{
}

/// A rate limit is shown under its own name, with its own reset, use and limit.
pub proof fn law_rates_are_their_own(rate: RateLimit)
    ensures
        rate_of(rate) matches Some(named) ==> {
            &&& cleaned(Some(rate.window@)) == Some(named.id)
            &&& date_if_any(rate.reset_at.deep_view()) == Some(named.window.resets_at)
            &&& window_of(
                rate.used,
                rate.limit,
                rate_minutes(named.id),
                named.window.resets_at,
                "USD"@,
            ) == Some(named.window)
        },
{
}

} // verus!
