//! Zed account and edit-prediction usage.

use vstd::prelude::*;
use vstd::slice::slice_subrange;

use crate::decimal;
use crate::decimal::Decimal;
use crate::error;
use crate::error::{ClassifiedError, ErrorKind};
use crate::instant::{Duration, Timestamp};
use crate::registry::ProviderId;
use crate::retry;
use crate::retry::RetryPolicy;
use crate::settings;
use crate::settings::{ApiKeyCredential, Environment};
use crate::text;
use crate::transport;
use crate::transport::TransportConfig;
use crate::usage;
use crate::usage::{NamedWindow, NamedWindowView, RateWindow, SampleView, UsageSample, WindowView};

verus! {

pub const MAX_RESPONSE_BYTES: usize = 1024 * 1024;

/// Characters that quote a setting.
pub open spec fn quote(c: char) -> bool {
    c == '\'' || c == '"'
}

/// A text without the quotes at its start.
pub open spec fn unquoted_start(s: Seq<char>) -> Seq<char>
    decreases s.len(),
{
    if s.len() > 0 && quote(s[0]) {
        unquoted_start(s.drop_first())
    } else {
        s
    }
}

/// A text without the quotes at its end.
pub open spec fn unquoted_end(s: Seq<char>) -> Seq<char>
    decreases s.len(),
{
    if s.len() > 0 && quote(s.last()) {
        unquoted_end(s.drop_last())
    } else {
        s
    }
}

fn strip_quotes(s: &[char]) -> (r: &[char])
    ensures
        r@ == unquoted_end(unquoted_start(s@)),
{
    let n: usize = s.len();
    let mut start: usize = 0;
    assert(s@.skip(0) =~= s@);
    while start < n && (s[start] == '\'' || s[start] == '"')
        invariant
            start <= n,
            n == s@.len(),
            unquoted_start(s@) == unquoted_start(s@.skip(start as int)),
        decreases n - start,
    {
        assert(s@.skip(start as int).drop_first() =~= s@.skip(start as int + 1));
        start += 1;
    }
    let rest = slice_subrange(s, start, n);
    assert(rest@ =~= s@.skip(start as int));
    let mut end: usize = rest.len();
    assert(rest@.take(end as int) =~= rest@);
    while end > 0 && (rest[end - 1] == '\'' || rest[end - 1] == '"')
        invariant
            end <= rest@.len(),
            unquoted_end(rest@) == unquoted_end(rest@.take(end as int)),
        decreases end,
    {
        assert(rest@.take(end as int).drop_last() =~= rest@.take(end as int - 1));
        end -= 1;
    }
    let r = slice_subrange(rest, 0, end);
    assert(r@ =~= rest@.take(end as int));
    r
}

/// The user that a setting names.
pub open spec fn user_of(value: Option<Seq<char>>) -> Option<Seq<char>> {
    match value {
        Some(raw) => {
            let user = unquoted_end(unquoted_start(text::trimmed(raw)));
            if user.len() > 0 && !text::has_whitespace(user) {
                Some(user)
            } else {
                None
            }
        },
        None => None,
    }
}

/// Explicit credentials of an account.
pub struct ZedSettings {
    pub user_id: String,
    pub access_token: ApiKeyCredential,
}

impl ZedSettings {
    /// The user and the access token of an environment.
    pub fn resolve(environment: &Environment) -> (r: Result<ZedSettings, ClassifiedError>)
        ensures
            ({
                let user = user_of(environment.value_of("ZED_USER_ID"@));
                let token = settings::selected_key(*environment, seq!["ZED_ACCESS_TOKEN"@]);
                match r {
                    Ok(found) => user == Some(found.user_id@) && token == Some(
                        found.access_token.key@,
                    ),
                    Err(e) => (user is None || token is None) && e == error::plain(
                        ErrorKind::MissingCredential,
                    ),
                }
            }),
    {
        let raw = match environment.get("ZED_USER_ID") {
            Some(raw) => raw,
            None => return Err(ClassifiedError::new(ErrorKind::MissingCredential)),
        };
        let chars = text::chars_of(raw);
        let user = strip_quotes(text::trim(chars.as_slice()));
        if user.len() == 0 || text::any_whitespace(user) {
            return Err(ClassifiedError::new(ErrorKind::MissingCredential));
        }
        let names = vec!["ZED_ACCESS_TOKEN"];
        assert(names.deep_view() =~= seq!["ZED_ACCESS_TOKEN"@]);
        match ApiKeyCredential::resolve(environment, &names) {
            Ok(access_token) => Ok(ZedSettings { user_id: text::text_of(user), access_token }),
            Err(e) => Err(e),
        }
    }
}

/// An adapter bound to an account.
pub struct ZedProvider {
    pub base_url: String,
}

impl ZedProvider {
    /// Wraps the client of an account.
    pub fn from_client(provider: ProviderId, base_url: String) -> (r: Result<
        ZedProvider,
        ClassifiedError,
    >)
        ensures
            match r {
                Ok(adapter) => provider == ProviderId::Zed && adapter.base_url == base_url,
                Err(e) => provider != ProviderId::Zed && e == error::plain(ErrorKind::Api),
            },
    {
        if provider != ProviderId::Zed {
            return Err(ClassifiedError::new(ErrorKind::Api));
        }
        Ok(ZedProvider { base_url })
    }

    /// The adapter at the production origin.
    pub fn new(provider: ProviderId) -> (r: Result<ZedProvider, ClassifiedError>)
        ensures
            match r {
                Ok(adapter) => provider == ProviderId::Zed && adapter.base_url@
                    == "https://cloud.zed.dev"@,
                Err(e) => provider != ProviderId::Zed && e == error::plain(ErrorKind::Api),
            },
    {
        ZedProvider::from_client(provider, "https://cloud.zed.dev".to_owned())
    }
}

/// The limit on edit predictions, as an answer states it.
pub enum UsageLimit {
    Limited(i64),
    Object { limited: i64 },
    Text(String),
}

/// A subscription period.
pub struct SubscriptionPeriod {
    pub started_at: Timestamp,
    pub ended_at: Timestamp,
}

/// An answer to an account request.
pub struct AccountResponse {
    pub user_id: i64,
    pub github_login: String,
    pub name: Option<String>,
    pub plan_kind: String,
    pub subscription_period: Option<SubscriptionPeriod>,
    pub used_predictions: i64,
    pub prediction_limit: UsageLimit,
    pub has_overdue_invoices: bool,
}

/// How many percent one number is of another; `None` where that is not defined.
pub open spec fn ratio_of(numerator: i64, denominator: i64) -> Option<Decimal> {
    if denominator <= 0 {
        None
    } else {
        match decimal::decimal_product(decimal::signed_whole(numerator), decimal::whole(100)) {
            Some(product) => decimal::decimal_quotient(
                product,
                decimal::signed_whole(denominator),
            ),
            None => None,
        }
    }
}

/// How many percent one number is of another.
pub fn ratio_percent(numerator: i64, denominator: i64) -> (r: Result<Decimal, ClassifiedError>)
    ensures
        match r {
            Ok(percent) => ratio_of(numerator, denominator) == Some(percent) && percent.wf()
                && decimal::is_percentage(
                decimal::signed_whole(numerator),
                decimal::signed_whole(denominator),
                percent,
            ),
            Err(e) => ratio_of(numerator, denominator) is None && e == error::plain(
                ErrorKind::Parse,
            ),
        },
{
    if denominator <= 0 {
        return Err(ClassifiedError::new(ErrorKind::Parse));
    }
    match Decimal::of_signed(numerator).times(Decimal::of(100)) {
        Some(product) => match product.over(Decimal::of_signed(denominator)) {
            Some(percent) => {
                proof {
                    decimal::lemma_percentage(
                        decimal::signed_whole(numerator),
                        decimal::signed_whole(denominator),
                        product,
                        percent,
                    );
                }
                Ok(percent)
            },
            None => Err(ClassifiedError::new(ErrorKind::Parse)),
        },
        None => Err(ClassifiedError::new(ErrorKind::Parse)),
    }
}

/// The percentage of two counts is a hundred times the first over the second, and
/// exact where that is a whole number.
pub proof fn law_ratios_are_percentages(numerator: i64, denominator: i64)
    requires
        decimal::computes(),
        denominator > 0,
    ensures
        ratio_of(numerator, denominator) matches Some(percent) ==> decimal::is_percentage(
            decimal::signed_whole(numerator),
            decimal::signed_whole(denominator),
            percent,
        ),
{
    if ratio_of(numerator, denominator) is Some {
        let part = decimal::signed_whole(numerator);
        let scaled = decimal::decimal_product(part, decimal::whole(100))->0;
        decimal::lemma_percentage(
            part,
            decimal::signed_whole(denominator),
            scaled,
            ratio_of(numerator, denominator)->0,
        );
    }
}

/// A count within its limit.
pub open spec fn within(used: i64, limit: i64) -> i64 {
    if used < 0 {
        0
    } else if used > limit {
        limit
    } else {
        used
    }
}

/// The window of edit predictions under a limit.
pub open spec fn limited_window(used: i64, limit: i64) -> Option<WindowView> {
    if limit <= 0 {
        None
    } else {
        match ratio_of(within(used, limit), limit) {
            Some(percent) => Some(
                WindowView {
                    used: Some(percent),
                    minutes: None,
                    resets_at: None,
                    description: Some(
                        text::signed_digits(within(used, limit) as int) + " / "@
                            + text::signed_digits(limit as int) + " predictions"@,
                    ),
                },
            ),
            None => None,
        }
    }
}

/// The window of edit predictions; `None` where the limit is malformed.
pub open spec fn prediction_of(used: i64, limit: UsageLimit) -> Option<WindowView> {
    match limit {
        UsageLimit::Limited(n) => limited_window(used, n),
        UsageLimit::Object { limited } => limited_window(used, limited),
        UsageLimit::Text(s) => if text::same_ignoring_case(s@, "unlimited"@) {
            Some(
                WindowView {
                    used: Some(decimal::whole(0)),
                    minutes: None,
                    resets_at: None,
                    description: Some("Unlimited"@),
                },
            )
        } else {
            None
        },
    }
}

fn counted_window(used: i64, limit: i64) -> (r: Result<RateWindow, ClassifiedError>)
    ensures
        match r {
            Ok(window) => limited_window(used, limit) == Some(window.value()),
            Err(e) => limited_window(used, limit) is None && e == error::plain(ErrorKind::Parse),
        },
{
    if limit <= 0 {
        return Err(ClassifiedError::new(ErrorKind::Parse));
    }
    let shown: i64 = if used < 0 {
        0
    } else if used > limit {
        limit
    } else {
        used
    };
    let percent = ratio_percent(shown, limit)?;
    let mut description = String::new();
    text::push_signed(&mut description, shown);
    description.append(" / ");
    text::push_signed(&mut description, limit);
    description.append(" predictions");
    assert(description@ =~= limited_window(used, limit)->0.description->0);
    Ok(
        RateWindow {
            used: Some(percent),
            minutes: None,
            resets_at: None,
            description: Some(description),
        },
    )
}

/// The window of edit predictions.
pub fn prediction_window(used: i64, limit: &UsageLimit) -> (r: Result<RateWindow, ClassifiedError>)
    ensures
        match r {
            Ok(window) => prediction_of(used, *limit) == Some(window.value()),
            Err(e) => prediction_of(used, *limit) is None && e == error::plain(ErrorKind::Parse),
        },
{
    match limit {
        UsageLimit::Limited(n) => counted_window(used, *n),
        UsageLimit::Object { limited } => counted_window(used, *limited),
        UsageLimit::Text(s) => {
            let chars = text::chars_of(s.as_str());
            let unlimited = text::chars_of("unlimited");
            if text::eq_ignore_case(chars.as_slice(), unlimited.as_slice()) {
                Ok(
                    RateWindow {
                        used: Some(Decimal::of(0)),
                        minutes: None,
                        resets_at: None,
                        description: Some("Unlimited".to_owned()),
                    },
                )
            } else {
                Err(ClassifiedError::new(ErrorKind::Parse))
            }
        },
    }
}

/// The window of a billing period: how much of it has passed. `None` where the
/// period does not end behind its start.
pub open spec fn billing_of(fetched_at: Timestamp, period: SubscriptionPeriod) -> Option<WindowView> {
    let start = period.started_at.seconds();
    let end = period.ended_at.seconds();
    if end <= start {
        None
    } else {
        match ratio_of((fetched_at.seconds() - start) as i64, (end - start) as i64) {
            Some(percent) => Some(
                WindowView {
                    used: Some(decimal::clamped(percent, decimal::whole(100))),
                    minutes: None,
                    resets_at: Some(period.ended_at),
                    description: None,
                },
            ),
            None => None,
        }
    }
}

/// The window of a billing period.
pub fn billing_window(fetched_at: Timestamp, period: &SubscriptionPeriod) -> (r: Result<
    RateWindow,
    ClassifiedError,
>)
    requires
        fetched_at.in_calendar(),
        period.started_at.in_calendar(),
        period.ended_at.in_calendar(),
    ensures
        match r {
            Ok(window) => billing_of(fetched_at, *period) == Some(window.value()),
            Err(e) => billing_of(fetched_at, *period) is None && e == error::plain(
                ErrorKind::Parse,
            ),
        },
{
    let start: i128 = period.started_at.unix_seconds();
    let end: i128 = period.ended_at.unix_seconds();
    if end <= start {
        return Err(ClassifiedError::new(ErrorKind::Parse));
    }
    let elapsed: i64 = (fetched_at.unix_seconds() - start) as i64;
    let percent = ratio_percent(elapsed, (end - start) as i64)?;
    Ok(
        RateWindow {
            used: Some(percent.clamp_to(Decimal::of(100))),
            minutes: None,
            resets_at: Some(period.ended_at),
            description: None,
        },
    )
}

/// The titled parts among the first `n` that are not empty.
pub open spec fn titled_parts(parts: Seq<Seq<char>>, n: int) -> Seq<Seq<char>>
    decreases n,
{
    if n <= 0 {
        seq![]
    } else if parts[n - 1].len() == 0 {
        titled_parts(parts, n - 1)
    } else {
        titled_parts(parts, n - 1).push(text::titled(parts[n - 1]))
    }
}

/// A plan's name for display: its parts titled, with spaces between them.
pub open spec fn plan_name(value: Seq<char>) -> Seq<char> {
    let parts = text::pieces(value, '_');
    text::joined(titled_parts(parts, parts.len() as int), " "@)
}

/// A plan's name for display.
pub fn display_plan_name(value: &str) -> (r: String)
    ensures
        r@ == plan_name(value@),
{
    let chars = text::chars_of(value);
    let parts = text::split(chars.as_slice(), '_');
    let ghost all = text::pieces(value@, '_');
    let mut names: Vec<String> = Vec::new();
    let mut i: usize = 0;
    assert(names.deep_view() =~= seq![]);
    while i < parts.len()
        invariant
            i <= parts@.len(),
            parts@.len() == all.len(),
            forall|j: int| 0 <= j < parts@.len() ==> (#[trigger] parts@[j])@ == all[j],
            names.deep_view() == titled_parts(all, i as int),
        decreases parts@.len() - i,
    {
        assert(parts@[i as int]@ == all[i as int]);
        let ghost before = names.deep_view();
        if parts[i].len() > 0 {
            let name = text::title_word(parts[i]);
            names.push(name);
            assert(names.deep_view() =~= before.push(name@));
        }
        i += 1;
    }
    text::join(&names, " ")
}

/// A text, where it holds more than whitespace.
pub open spec fn not_blank(value: Option<Seq<char>>) -> Option<Seq<char>> {
    match value {
        Some(s) => if text::trimmed(s).len() > 0 {
            Some(s)
        } else {
            None
        },
        None => None,
    }
}

fn non_empty(value: &str) -> (r: Option<String>)
    ensures
        r.deep_view() == not_blank(Some(value@)),
{
    let shown = text::trim_text(value);
    if shown.as_str().is_empty() {
        None
    } else {
        Some(value.to_owned())
    }
}

/// The reading of an account; `None` where a window is malformed.
pub open spec fn sample_of(payload: AccountResponse, fetched_at: Timestamp) -> Option<SampleView> {
    let secondary = match payload.subscription_period {
        Some(period) => match billing_of(fetched_at, period) {
            Some(window) => Some(Some(window)),
            None => None,
        },
        None => Some(None),
    };
    match (prediction_of(payload.used_predictions, payload.prediction_limit), secondary) {
        (Some(primary), Some(second)) => Some(
            SampleView {
                primary: Some(primary),
                secondary: second,
                extra: if payload.has_overdue_invoices {
                    seq![
                        NamedWindowView {
                            id: "zed.overdue-invoices"@,
                            title: "Billing"@,
                            window: WindowView {
                                used: None,
                                minutes: None,
                                resets_at: None,
                                description: Some("Overdue invoices"@),
                            },
                        },
                    ]
                } else {
                    seq![]
                },
                account_id: Some(text::signed_digits(payload.user_id as int)),
                email: not_blank(Some(payload.github_login@)),
                organization: not_blank(payload.name.deep_view()),
                login_method: Some(plan_name(payload.plan_kind@)),
                renews_at: match payload.subscription_period {
                    Some(period) => Some(period.ended_at),
                    None => None,
                },
                ..usage::empty_sample(ProviderId::Zed, fetched_at, "zed"@, "cloud-api"@)
            },
        ),
        _ => None,
    }
}

/// The reading of an account.
pub fn normalize(payload: &AccountResponse, fetched_at: Timestamp) -> (r: Result<
    UsageSample,
    ClassifiedError,
>)
    requires
        fetched_at.in_calendar(),
        payload.subscription_period matches Some(period) ==> period.started_at.in_calendar()
            && period.ended_at.in_calendar(),
    ensures
        match r {
            Ok(sample) => sample_of(*payload, fetched_at) == Some(sample.value()),
            Err(e) => sample_of(*payload, fetched_at) is None && e == error::plain(
                ErrorKind::Parse,
            ),
        },
{
    let primary = prediction_window(payload.used_predictions, &payload.prediction_limit)?;
    let mut sample = UsageSample::empty(ProviderId::Zed, fetched_at, "zed", "cloud-api");
    sample.primary = Some(primary);
    if let Some(period) = &payload.subscription_period {
        sample.secondary = Some(billing_window(fetched_at, period)?);
        sample.renews_at = Some(period.ended_at);
    }
    let mut extra: Vec<NamedWindow> = Vec::new();
    if payload.has_overdue_invoices {
        extra.push(
            NamedWindow {
                id: "zed.overdue-invoices".to_owned(),
                title: "Billing".to_owned(),
                window: RateWindow {
                    used: None,
                    minutes: None,
                    resets_at: None,
                    description: Some("Overdue invoices".to_owned()),
                },
            },
        );
    }
    assert(usage::named_values(extra@) =~= sample_of(*payload, fetched_at)->0.extra);
    sample.extra = extra;
    let mut id = String::new();
    text::push_signed(&mut id, payload.user_id);
    assert(id@ =~= text::signed_digits(payload.user_id as int));
    sample.account_id = Some(id);
    sample.email = non_empty(payload.github_login.as_str());
    sample.organization = match &payload.name {
        Some(name) => non_empty(name.as_str()),
        None => None,
    };
    sample.login_method = Some(display_plan_name(payload.plan_kind.as_str()));
    Ok(sample)
}

/// Ceilings of this adapter's transport.
pub fn transport_config() -> (r: Result<TransportConfig, ClassifiedError>)
    ensures
        r == Ok::<TransportConfig, ClassifiedError>(
            transport::ceilings(5, 20, MAX_RESPONSE_BYTES, 3, retry::one_retry(250, 30)),
        ),
        r->Ok_0.valid(),
{
    transport::bounded(
        5,
        20,
        MAX_RESPONSE_BYTES,
        3,
        RetryPolicy::one(Duration::from_millis(250), Duration::from_secs(30)),
    )
}

/// A billing period shows how much of it has passed, in percent from zero to a
/// hundred, and resets at its end.
pub proof fn law_periods_show_what_has_passed(fetched_at: Timestamp, period: SubscriptionPeriod)
    requires
        decimal::computes(),
        fetched_at.in_calendar(),
        period.started_at.in_calendar(),
        period.ended_at.in_calendar(),
    ensures
        ({
            let passed = fetched_at.seconds() - period.started_at.seconds();
            let length = period.ended_at.seconds() - period.started_at.seconds();
            &&& length <= 0 ==> billing_of(fetched_at, period) is None
            &&& billing_of(fetched_at, period) matches Some(window) ==> {
                &&& window.resets_at == Some(period.ended_at)
                &&& window.used is Some
                &&& decimal::limited_percentage(
                    decimal::signed_whole(passed as i64),
                    decimal::signed_whole(length as i64),
                    window.used->0,
                )
            }
        }),
{
    let passed = fetched_at.seconds() - period.started_at.seconds();
    let length = period.ended_at.seconds() - period.started_at.seconds();
    if billing_of(fetched_at, period) is Some {
        law_ratios_are_percentages(passed as i64, length as i64);
        let percent = ratio_of(passed as i64, length as i64)->0;
        assert(decimal::is_percentage(
            decimal::signed_whole(passed as i64),
            decimal::signed_whole(length as i64),
            percent,
        ));
    }
}

/// Predictions under a limit show their count within it, in percent of it; without
/// limit nothing is used.
pub proof fn law_predictions_show_their_share(used: i64, limit: i64)
    requires
        decimal::computes(),
        limit > 0,
    ensures
        limited_window(used, limit) matches Some(window) ==> {
            let counted: i64 = if used < 0 {
                0
            } else if used > limit {
                limit
            } else {
                used
            };
            window.used is Some && decimal::is_percentage(
                decimal::signed_whole(counted),
                decimal::signed_whole(limit),
                window.used->0,
            )
        },
        prediction_of(used, UsageLimit::Limited(limit)) == limited_window(used, limit),
        prediction_of(used, UsageLimit::Object { limited: limit }) == limited_window(used, limit),
{
    law_ratios_are_percentages(within(used, limit), limit);
}

/// A used count within its limit is kept; it is never negative and never above the
/// limit.
pub proof fn law_counts_stay_within_limits(used: i64, limit: i64)
    requires
        limit >= 0,
    ensures
        0 <= within(used, limit) <= limit,
        0 <= used <= limit ==> within(used, limit) == used,
        used > limit ==> within(used, limit) == limit,
{
}

} // verus!
