//! ZenMux subscription quota and pay-as-you-go balance.

use vstd::prelude::*;

use crate::decimal;
use crate::decimal::Decimal;
use crate::error;
use crate::error::{ClassifiedError, ErrorKind};
use crate::instant;
use crate::instant::{Duration, Timestamp};
use crate::registry::ProviderId;
use crate::retry;
use crate::retry::RetryPolicy;
use crate::settings;
use crate::settings::{ApiKeyCredential, Environment};
use crate::text;
use crate::transport;
use crate::transport::TransportConfig;
use crate::usage;
use crate::usage::{CostSummary, RateWindow, SampleView, UsageSample, WindowView};

verus! {

pub const MAX_RESPONSE_BYTES: usize = 2 * 1024 * 1024;

/// An adapter bound to a management key.
pub struct ZenMuxProvider {
    pub base_url: String,
}

impl ZenMuxProvider {
    /// The management key of an environment.
    pub fn resolve_credential(environment: &Environment) -> (r: Result<
        ApiKeyCredential,
        ClassifiedError,
    >)
        ensures
            settings::is_selected_key(r, *environment, seq!["ZENMUX_MANAGEMENT_API_KEY"@]),
    {
        let names = vec!["ZENMUX_MANAGEMENT_API_KEY"];
        assert(names.deep_view() =~= seq!["ZENMUX_MANAGEMENT_API_KEY"@]);
        ApiKeyCredential::resolve(environment, &names)
    }

    /// The adapter at the production origin.
    pub fn new(provider: ProviderId) -> (r: Result<ZenMuxProvider, ClassifiedError>)
        ensures
            match r {
                Ok(adapter) => provider == ProviderId::ZenMux && adapter.base_url@
                    == "https://zenmux.ai/api/v1/management/"@,
                Err(e) => provider != ProviderId::ZenMux && e == error::plain(ErrorKind::Api),
            },
    {
        ZenMuxProvider::from_client(provider, "https://zenmux.ai/api/v1/management/".to_owned())
    }

    /// Wraps the client of an account.
    pub fn from_client(provider: ProviderId, base_url: String) -> (r: Result<
        ZenMuxProvider,
        ClassifiedError,
    >)
        ensures
            match r {
                Ok(adapter) => provider == ProviderId::ZenMux && adapter.base_url == base_url,
                Err(e) => provider != ProviderId::ZenMux && e == error::plain(ErrorKind::Api),
            },
    {
        if provider != ProviderId::ZenMux {
            return Err(ClassifiedError::new(ErrorKind::Api));
        }
        Ok(ZenMuxProvider { base_url })
    }
}

/// A quota of an account, as an answer states it.
pub struct Quota {
    pub usage_percentage: Decimal,
    pub resets_at: Option<String>,
    pub max_flows: Decimal,
    pub used_flows: Decimal,
}

impl Quota {
    /// Every decimal is representable.
    pub open spec fn wf(self) -> bool {
        self.usage_percentage.wf() && self.max_flows.wf() && self.used_flows.wf()
    }
}

/// An answer to a subscription request.
pub struct SubscriptionEnvelope {
    pub success: bool,
    pub tier: String,
    pub expires_at: Option<String>,
    pub account_status: String,
    pub quota_5_hour: Quota,
    pub quota_7_day: Quota,
}

/// An answer to a balance request.
pub struct BalanceEnvelope {
    pub success: bool,
    pub currency: String,
    pub total_credits: Decimal,
}

/// A quota of an account.
pub struct ParsedQuota {
    pub usage_fraction: Decimal,
    pub resets_at: Option<Timestamp>,
    pub max_flows: Decimal,
    pub used_flows: Decimal,
}

impl ParsedQuota {
    /// Every decimal is representable.
    pub open spec fn wf(self) -> bool {
        self.usage_fraction.wf() && self.max_flows.wf() && self.used_flows.wf()
    }
}

/// A subscription of an account.
pub struct ParsedSubscription {
    pub plan_tier: String,
    pub expires_at: Option<Timestamp>,
    pub account_status: String,
    pub five_hour: ParsedQuota,
    pub weekly: ParsedQuota,
}

impl ParsedSubscription {
    /// Every decimal is representable.
    pub open spec fn wf(self) -> bool {
        self.five_hour.wf() && self.weekly.wf()
    }
}

/// The instant of a text, where it is one.
pub open spec fn date_of(raw: Option<Seq<char>>) -> Option<Timestamp> {
    match raw {
        Some(s) => instant::instant_of_text(s),
        None => None,
    }
}

fn parse_optional_date(raw: &Option<String>) -> (r: Option<Timestamp>)
    ensures
        r == date_of(raw.deep_view()),
{
    match raw {
        Some(s) => Timestamp::parse(s.as_str()),
        None => None,
    }
}

/// A quota of an account.
pub open spec fn quota_of(quota: Quota) -> ParsedQuota {
    ParsedQuota {
        usage_fraction: quota.usage_percentage,
        resets_at: date_of(quota.resets_at.deep_view()),
        max_flows: quota.max_flows,
        used_flows: quota.used_flows,
    }
}

fn parse_quota(quota: &Quota) -> (r: ParsedQuota)
    ensures
        r == quota_of(*quota),
{
    ParsedQuota {
        usage_fraction: quota.usage_percentage,
        resets_at: parse_optional_date(&quota.resets_at),
        max_flows: quota.max_flows,
        used_flows: quota.used_flows,
    }
}

impl ParsedSubscription {
    /// The subscription of an answer that reports success.
    pub fn parse(response: SubscriptionEnvelope) -> (r: Result<ParsedSubscription, ClassifiedError>)
        ensures
            match r {
                Ok(found) => response.success && found.plan_tier == response.tier
                    && found.expires_at == date_of(response.expires_at.deep_view())
                    && found.account_status == response.account_status && found.five_hour
                    == quota_of(response.quota_5_hour) && found.weekly == quota_of(
                    response.quota_7_day,
                ),
                Err(e) => !response.success && e == error::plain(ErrorKind::Parse),
            },
    {
        if !response.success {
            return Err(ClassifiedError::new(ErrorKind::Parse));
        }
        Ok(
            ParsedSubscription {
                expires_at: parse_optional_date(&response.expires_at),
                five_hour: parse_quota(&response.quota_5_hour),
                weekly: parse_quota(&response.quota_7_day),
                plan_tier: response.tier,
                account_status: response.account_status,
            },
        )
    }
}

/// The balance of an answer, where it is in dollars.
pub open spec fn balance_of(response: BalanceEnvelope) -> Option<Decimal> {
    if response.success && text::same_ignoring_case(text::trimmed(response.currency@), "usd"@) {
        Some(response.total_credits)
    } else {
        None
    }
}

/// The balance of an answer, where it is in dollars.
pub fn parse_balance(response: &BalanceEnvelope) -> (r: Option<Decimal>)
    ensures
        r == balance_of(*response),
{
    let chars = text::chars_of(response.currency.as_str());
    let dollars = text::chars_of("usd");
    if response.success && text::eq_ignore_case(text::trim(chars.as_slice()), dollars.as_slice()) {
        Some(response.total_credits)
    } else {
        None
    }
}

/// What becomes of a balance request: a refused login is a failure, anything
/// else that fails leaves the balance out.
pub fn balance_or_none(outcome: Result<Option<BalanceEnvelope>, ClassifiedError>) -> (r: Result<
    Option<Decimal>,
    ClassifiedError,
>)
    ensures
        r == (match outcome {
            Ok(Some(response)) => Ok::<Option<Decimal>, ClassifiedError>(balance_of(response)),
            Ok(None) => Ok(None),
            Err(e) => if e.kind == ErrorKind::AuthenticationExpired {
                Err(e)
            } else {
                Ok(None)
            },
        }),
{
    match outcome {
        Ok(Some(response)) => Ok(parse_balance(&response)),
        Ok(None) => Ok(None),
        Err(e) => if e.kind == ErrorKind::AuthenticationExpired {
            Err(e)
        } else {
            Ok(None)
        },
    }
}

/// A number of flows: without decimals where it is whole, else with two.
pub open spec fn flows(value: Decimal) -> Seq<char> {
    if value.integral() {
        decimal::decimal_fixed(value, 0)
    } else {
        decimal::decimal_fixed(value, 2)
    }
}

/// A number of flows.
pub fn format_flows(value: Decimal) -> (r: String)
    requires
        value.wf(),
    ensures
        r@ == flows(value),
{
    if value.is_integral() {
        decimal::to_fixed(value, 0)
    } else {
        decimal::to_fixed(value, 2)
    }
}

/// The window of a quota; `None` where its percentage does not fit.
pub open spec fn window_of(quota: ParsedQuota, minutes: i64) -> Option<WindowView> {
    match decimal::decimal_product(quota.usage_fraction, decimal::whole(100)) {
        Some(percent) => Some(
            WindowView {
                used: Some(decimal::clamped(percent, decimal::whole(100))),
                minutes: Some(minutes),
                resets_at: quota.resets_at,
                description: Some(
                    flows(quota.used_flows) + " / "@ + flows(quota.max_flows) + " flows"@,
                ),
            },
        ),
        None => None,
    }
}

/// The window of a quota.
pub fn quota_window(quota: &ParsedQuota, minutes: i64) -> (r: Result<RateWindow, ClassifiedError>)
    requires
        quota.wf(),
    ensures
        match r {
            Ok(window) => window_of(*quota, minutes) == Some(window.value()),
            Err(e) => window_of(*quota, minutes) is None && e == error::plain(ErrorKind::Parse),
        },
{
    let percent = match quota.usage_fraction.times(Decimal::of(100)) {
        Some(percent) => percent.clamp_to(Decimal::of(100)),
        None => return Err(ClassifiedError::new(ErrorKind::Parse)),
    };
    let mut description = format_flows(quota.used_flows);
    let top = format_flows(quota.max_flows);
    description.append(" / ");
    description.append(top.as_str());
    description.append(" flows");
    Ok(
        RateWindow {
            used: Some(percent),
            minutes: Some(minutes),
            resets_at: quota.resets_at,
            description: Some(description),
        },
    )
}

/// A window shows a hundred times the used fraction, from zero to a hundred.
pub proof fn law_fractions_show_as_percentages(quota: ParsedQuota, minutes: i64)
    requires
        decimal::computes(),
        quota.usage_fraction.wf(),
        100 * quota.usage_fraction.magnitude < decimal::MAGNITUDE_LIMIT,
    ensures
        ({
            let fraction = quota.usage_fraction;
            &&& window_of(quota, minutes) matches Some(window)
            &&& window.used matches Some(shown)
            &&& fraction.below_zero() ==> shown == decimal::whole(0)
            &&& !fraction.below_zero() && fraction.magnitude <= decimal::pow10(
                fraction.scale as nat,
            ) ==> shown.magnitude == 100 * fraction.magnitude && !shown.negative && (
            fraction.magnitude > 0 ==> shown.scale == fraction.scale)
            &&& !fraction.below_zero() && fraction.magnitude > decimal::pow10(
                fraction.scale as nat,
            ) ==> shown == decimal::whole(100)
            &&& window.minutes == Some(minutes)
            &&& window.resets_at == quota.resets_at
        }),
{
    let fraction = quota.usage_fraction;
    let hundred = decimal::whole(100).magnitude;
    assert(fraction.magnitude * hundred == 100 * fraction.magnitude) by (nonlinear_arith)
        requires
            hundred == 100,
    ;
    assert(decimal::pow10(0) == 1);
    let percent = decimal::decimal_product(fraction, decimal::whole(100))->0;
    decimal::lemma_pow10_positive(fraction.scale as nat);
    assert(percent.mantissa() * decimal::pow10(0) == percent.mantissa()) by (nonlinear_arith)
        requires
            decimal::pow10(0) == 1,
    ;
}

/// How an account is logged in: its plan, and its status unless it is healthy.
pub open spec fn login_of(tier: Seq<char>, status: Seq<char>) -> Option<Seq<char>> {
    let plan = if text::trimmed(tier).len() > 0 {
        Some(text::title(text::trimmed(tier)) + " plan"@)
    } else {
        None
    };
    let shown = text::trimmed(status);
    if shown.len() == 0 || text::same_ignoring_case(shown, "healthy"@) {
        plan
    } else {
        Some(
            match plan {
                Some(p) => p + " · "@ + text::title(shown),
                None => text::title(shown),
            },
        )
    }
}

fn describe_login(tier: &str, status: &str) -> (r: Option<String>)
    ensures
        r.deep_view() == login_of(tier@, status@),
{
    let tier_shown = text::trim_text(tier);
    let plan = if tier_shown.as_str().is_empty() {
        None
    } else {
        let mut plan = text::title_case(tier_shown.as_str());
        plan.append(" plan");
        Some(plan)
    };
    let shown = text::trim_text(status);
    let chars = text::chars_of(shown.as_str());
    let healthy = text::chars_of("healthy");
    if shown.as_str().is_empty() || text::eq_ignore_case(chars.as_slice(), healthy.as_slice()) {
        return plan;
    }
    let note = text::title_case(shown.as_str());
    match plan {
        Some(p) => {
            let mut r = p;
            r.append(" · ");
            r.append(note.as_str());
            Some(r)
        },
        None => Some(note),
    }
}

/// The reading of an account; `None` where a percentage does not fit.
pub open spec fn sample_of(
    subscription: ParsedSubscription,
    balance: Option<Decimal>,
    fetched_at: Timestamp,
) -> Option<SampleView> {
    match (window_of(subscription.five_hour, 300), window_of(subscription.weekly, 10080)) {
        (Some(primary), Some(secondary)) => Some(
            SampleView {
                primary: Some(primary),
                secondary: Some(secondary),
                login_method: login_of(subscription.plan_tier@, subscription.account_status@),
                expires_at: subscription.expires_at,
                cost: match balance {
                    Some(amount) => Some(
                        usage::dollar_balance(amount, "ZenMux PAYG balance"@, fetched_at),
                    ),
                    None => None,
                },
                ..usage::empty_sample(ProviderId::ZenMux, fetched_at, "zenmux"@, "api"@)
            },
        ),
        _ => None,
    }
}

/// The reading of an account.
pub fn normalize(
    subscription: &ParsedSubscription,
    balance: Option<Decimal>,
    fetched_at: Timestamp,
) -> (r: Result<UsageSample, ClassifiedError>)
    requires
        subscription.wf(),
    ensures
        match r {
            Ok(sample) => sample_of(*subscription, balance, fetched_at) == Some(sample.value()),
            Err(e) => sample_of(*subscription, balance, fetched_at) is None && e == error::plain(
                ErrorKind::Parse,
            ),
        },
{
    let primary = quota_window(&subscription.five_hour, 300)?;
    let secondary = quota_window(&subscription.weekly, 10080)?;
    let mut sample = UsageSample::empty(ProviderId::ZenMux, fetched_at, "zenmux", "api");
    sample.primary = Some(primary);
    sample.secondary = Some(secondary);
    sample.login_method = describe_login(
        subscription.plan_tier.as_str(),
        subscription.account_status.as_str(),
    );
    sample.expires_at = subscription.expires_at;
    if let Some(amount) = balance {
        sample.cost = Some(CostSummary::balance(amount, "ZenMux PAYG balance", fetched_at));
    }
    Ok(sample)
}

/// No shown percentage leaves its range.
pub proof fn law_window_in_range(quota: ParsedQuota, minutes: i64)
    requires
        window_of(quota, minutes) is Some,
    ensures
        window_of(quota, minutes)->0.used matches Some(percent) && !percent.below_zero()
            && !decimal::whole(100).less(percent),
{
    let percent = decimal::decimal_product(quota.usage_fraction, decimal::whole(100))->0;
    decimal::law_clamped_in_range(percent, decimal::whole(100));
}

/// Ceilings of this adapter's transport.
pub fn transport_config() -> (r: Result<TransportConfig, ClassifiedError>)
    ensures
        r == Ok::<TransportConfig, ClassifiedError>(
            transport::ceilings(5, 15, MAX_RESPONSE_BYTES, 3, retry::one_retry(250, 15)),
        ),
        r->Ok_0.valid(),
{
    transport::bounded(
        5,
        15,
        MAX_RESPONSE_BYTES,
        3,
        RetryPolicy::one(Duration::from_millis(250), Duration::from_secs(15)),
    )
}

/// The windows are of five hours and of seven days, each of its own quota.
pub proof fn law_windows_are_of_their_quotas(
    subscription: ParsedSubscription,
    balance: Option<Decimal>,
    fetched_at: Timestamp,
)
    ensures
        sample_of(subscription, balance, fetched_at) matches Some(sample) ==> {
            &&& sample.primary matches Some(short)
            &&& sample.secondary matches Some(long)
            &&& short.minutes == Some((5 * 60) as i64)
            &&& long.minutes == Some((7 * 24 * 60) as i64)
            &&& short.resets_at == subscription.five_hour.resets_at
            &&& long.resets_at == subscription.weekly.resets_at
            &&& Some(short) == window_of(subscription.five_hour, (5 * 60) as i64)
            &&& Some(long) == window_of(subscription.weekly, (7 * 24 * 60) as i64)
            &&& balance is None ==> sample.cost is None
            &&& balance matches Some(amount) ==> sample.cost is Some && sample.cost->0.amount
                == amount
            &&& sample.expires_at == subscription.expires_at
        },
{
}

/// A window tells the used flows before the most.
pub proof fn law_windows_tell_used_and_most(quota: Quota, minutes: i64)
    ensures
        window_of(quota_of(quota), minutes) matches Some(window) ==> window.description == Some(
            flows(quota.used_flows) + " / "@ + flows(quota.max_flows) + " flows"@,
        ),
        quota_of(quota).usage_fraction == quota.usage_percentage,
{
}

} // verus!
