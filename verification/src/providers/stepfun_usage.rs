//! StepFun rolling windows and credits.
//!
//! Rates are measured numbers and stay with the caller; what is decided here is
//! which of them a reading shows.

use vstd::prelude::*;

use crate::error;
use crate::error::{ClassifiedError, ErrorKind};
use crate::instant;
use crate::instant::Timestamp;
use crate::json;
use crate::json::{Json, Limits, Tree};
use crate::providers::stepfun;
use crate::registry::ProviderId;
use crate::text;
use crate::usage;
use crate::usage::{RateWindow, SampleView, UsageSample, WindowView};

verus! {

pub const FIVE_HOUR_MINUTES: i64 = 300;

pub const WEEKLY_MINUTES: i64 = 10_080;

pub const MONTHLY_MINUTES: i64 = 43_200;

/// Limits on a response document.
pub open spec fn limits() -> Limits {
    Limits { nodes: 32_768, depth: 40, key_bytes: 512, text_bytes: stepfun::MAX_JSON_TEXT_BYTES }
}

/// The document of a response body; `None` where it is not bounded JSON.
pub open spec fn document_of(body: Seq<u8>) -> Option<Tree> {
    json::bounded_document(body, stepfun::MAX_RESPONSE_BYTES, limits())
}

/// The document of a response body.
pub fn parse_bounded_json(body: &[u8]) -> (r: Result<Json, ClassifiedError>)
    ensures
        match r {
            Ok(document) => document_of(body@) == Some(document.tree()),
            Err(e) => document_of(body@) is None && e == error::plain(ErrorKind::Parse),
        },
{
    let bounds = Limits {
        nodes: 32_768,
        depth: 40,
        key_bytes: 512,
        text_bytes: stepfun::MAX_JSON_TEXT_BYTES,
    };
    match json::parse_bounded(body, stepfun::MAX_RESPONSE_BYTES, &bounds) {
        Some(document) => Ok(document),
        None => Err(ClassifiedError::new(ErrorKind::Parse)),
    }
}

/// A finite number: negative, or known by a rank that orders numbers and is zero
/// for zero only.
#[derive(Debug, Clone, Copy, PartialEq, Eq, Structural)]
pub enum Amount {
    Negative,
    Rank(u64),
}

/// One pool of credits.
#[derive(Debug, Clone, Copy, PartialEq, Eq, Structural)]
pub struct CreditBucket {
    pub total: Option<Amount>,
    pub residual: Option<Amount>,
}

/// The credits of an answer.
pub struct CreditLimit {
    pub has_subscription_left: bool,
    pub subscription_reset: Option<Json>,
    pub has_topup_left: bool,
    pub buckets: Option<Vec<CreditBucket>>,
}

/// An answer on the usage. Of the rates it tells only whether they are there,
/// and of the plan family whether it is the one of credits.
pub struct RateLimitResponse {
    pub status: Option<i64>,
    pub code: Option<i64>,
    pub message: Option<String>,
    pub desc: Option<String>,
    pub has_five_hour_left: bool,
    pub has_weekly_left: bool,
    pub five_hour_reset: Option<Json>,
    pub weekly_reset: Option<Json>,
    pub is_credit_family: bool,
    pub credit: Option<CreditLimit>,
}

/// The second that a value names; zero where it names none.
pub open spec fn second_of(value: Option<Tree>) -> i64 {
    let parsed = match value {
        Some(Tree::Number(n)) => text::i64_value(n),
        Some(Tree::Text(s)) => text::i64_value(s),
        _ => None,
    };
    match parsed {
        Some(n) => n,
        None => 0,
    }
}

/// The second that a value names.
pub fn flexible_second(value: &Option<Json>) -> (r: i64)
    ensures
        r == second_of(json::optional_tree(*value)),
{
    let parsed = match value {
        Some(Json::Number(n)) => {
            let chars = text::chars_of(n.as_str());
            text::parse_i64(chars.as_slice())
        },
        Some(Json::Text(s)) => {
            let chars = text::chars_of(s.as_str());
            text::parse_i64(chars.as_slice())
        },
        _ => None,
    };
    match parsed {
        Some(n) => n,
        None => 0,
    }
}

/// Words of a message that tell an expired login.
pub open spec fn expiry_words() -> Seq<Seq<char>> {
    seq![
        "401"@,
        "403"@,
        "unauthorized"@,
        "unauthenticated"@,
        "invalid credentials"@,
        "invalid token"@,
        "token expired"@,
        "expired token"@,
    ]
}

/// Whether a message tells an expired login.
pub open spec fn tells_expiry(message: Seq<char>) -> bool {
    exists|i: int|
        0 <= i < expiry_words().len() && text::contains(
            text::lower(text::trimmed(message)),
            #[trigger] expiry_words()[i],
        )
}

/// Whether a message tells an expired login.
pub fn is_authentication_message(message: &str) -> (r: bool)
    ensures
        r == tells_expiry(message@),
{
    let chars = text::chars_of(message);
    let lower = text::to_lower(text::trim(chars.as_slice()));
    let words = vec![
        "401",
        "403",
        "unauthorized",
        "unauthenticated",
        "invalid credentials",
        "invalid token",
        "token expired",
        "expired token",
    ];
    let ghost all = expiry_words();
    assert(words.deep_view() =~= all);
    let mut i: usize = 0;
    while i < words.len()
        invariant
            words.deep_view() == all,
            all == expiry_words(),
            lower@ == text::lower(text::trimmed(message@)),
            i <= words@.len(),
            forall|j: int| 0 <= j < i ==> !text::contains(lower@, #[trigger] all[j]),
        decreases words@.len() - i,
    {
        assert(all[i as int] == words@[i as int]@);
        if text::has(lower.as_slice(), words[i]) {
            return true;
        }
        i += 1;
    }
    assert(words@.len() == all.len());
    false
}

/// The first of two texts that is not blank, trimmed.
pub open spec fn first_message(message: Option<Seq<char>>, desc: Option<Seq<char>>) -> Option<
    Seq<char>,
> {
    if message is Some && text::trimmed(message->0).len() > 0 {
        Some(text::trimmed(message->0))
    } else if desc is Some && text::trimmed(desc->0).len() > 0 {
        Some(text::trimmed(desc->0))
    } else {
        None
    }
}

/// Whether a refusal tells an expired login.
pub open spec fn refused_login(response: RateLimitResponse) -> bool {
    let message = first_message(response.message.deep_view(), response.desc.deep_view());
    response.code == Some(401i64) || response.code == Some(403i64) || (message is Some
        && tells_expiry(message->0))
}

fn is_refused_login(response: &RateLimitResponse) -> (r: bool)
    ensures
        r == refused_login(*response),
{
    if let Some(code) = response.code {
        if code == 401 || code == 403 {
            return true;
        }
    }
    if let Some(message) = &response.message {
        let plain = text::trim_text(message.as_str());
        if !plain.as_str().is_empty() {
            return is_authentication_message(plain.as_str());
        }
    }
    if let Some(desc) = &response.desc {
        let plain = text::trim_text(desc.as_str());
        if !plain.as_str().is_empty() {
            return is_authentication_message(plain.as_str());
        }
    }
    false
}

/// Whether a pool's numbers make sense: some credits in all, and not more left
/// than there are.
pub open spec fn bucket_usable(bucket: CreditBucket) -> bool {
    match (bucket.total, bucket.residual) {
        (Some(Amount::Rank(total)), Some(Amount::Rank(residual))) => total > 0 && residual <= total,
        _ => false,
    }
}

/// Where the rate of credits left comes from.
#[derive(Debug, Clone, Copy, PartialEq, Eq, Structural)]
pub enum CreditField {
    Subscription,
    Topup,
}

/// How the rate of credits left is found: from the sums of all pools where they
/// are usable, or else from a field.
#[derive(Debug, Clone, Copy, PartialEq, Eq, Structural)]
pub struct CreditChoice {
    pub pools: bool,
    pub field: Option<CreditField>,
}

/// Whether there are pools, all of them usable.
pub open spec fn pools_usable(credit: CreditLimit) -> bool {
    credit.buckets matches Some(buckets) && buckets@.len() > 0 && forall|i: int|
        0 <= i < buckets@.len() ==> bucket_usable(#[trigger] buckets@[i])
}

/// How the rate of credits left is found.
pub open spec fn choice_of(credit: CreditLimit) -> CreditChoice {
    CreditChoice {
        pools: pools_usable(credit),
        field: if credit.has_subscription_left {
            Some(CreditField::Subscription)
        } else if credit.has_topup_left {
            Some(CreditField::Topup)
        } else {
            None
        },
    }
}

/// How the rate of credits left is found.
pub fn total_credit_left_rate(credit: &CreditLimit) -> (r: CreditChoice)
    ensures
        r == choice_of(*credit),
{
    let mut pools = false;
    if let Some(buckets) = &credit.buckets {
        let mut i: usize = 0;
        let mut usable = true;
        while i < buckets.len() && usable
            invariant
                i <= buckets@.len(),
                usable ==> forall|j: int| 0 <= j < i ==> bucket_usable(#[trigger] buckets@[j]),
                !usable ==> exists|j: int|
                    0 <= j < buckets@.len() && !bucket_usable(#[trigger] buckets@[j]),
            decreases buckets@.len() - i,
        {
            usable =
            match (buckets[i].total, buckets[i].residual) {
                (Some(Amount::Rank(total)), Some(Amount::Rank(residual))) => total > 0 && residual
                    <= total,
                _ => false,
            };
            assert(usable == bucket_usable(buckets@[i as int]));
            i += 1;
        }
        pools = usable && buckets.len() > 0;
    }
    let field = if credit.has_subscription_left {
        Some(CreditField::Subscription)
    } else if credit.has_topup_left {
        Some(CreditField::Topup)
    } else {
        None
    };
    CreditChoice { pools, field }
}

/// What an answer says, apart from its rates.
#[derive(Debug, Clone, Copy, PartialEq, Eq, Structural)]
pub struct ParsedUsage {
    pub five_hour_reset: i64,
    pub weekly_reset: i64,
    pub credit: CreditChoice,
    pub credit_reset: Option<Timestamp>,
    pub is_credit_plan: bool,
}

/// Whether an answer names any pool of credits.
pub open spec fn has_credits(response: RateLimitResponse) -> bool {
    response.credit matches Some(credit) && (credit.has_subscription_left || credit.has_topup_left
        || (credit.buckets matches Some(buckets) && buckets@.len() > 0))
}

/// Whether the plan is one of credits: no live window, and a pool or the family.
pub open spec fn credit_plan(response: RateLimitResponse) -> bool {
    if second_of(json::optional_tree(response.five_hour_reset)) > 0 || second_of(
        json::optional_tree(response.weekly_reset),
    ) > 0 {
        false
    } else {
        has_credits(response) || response.is_credit_family
    }
}

/// The instant of a second, where the calendar holds it.
pub open spec fn instant_at(second: i64) -> Option<Timestamp> {
    instant::calendar_nanos(second * 1_000_000_000)
}

/// The instant of a second, where the calendar holds it.
pub fn timestamp_from_unix(second: i64) -> (r: Option<Timestamp>)
    ensures
        r == instant_at(second),
{
    Timestamp::from_nanos(second as i128 * 1_000_000_000)
}

/// When the credits are renewed.
pub open spec fn credit_reset_of(response: RateLimitResponse) -> Option<Timestamp> {
    match response.credit {
        Some(credit) => {
            let second = second_of(json::optional_tree(credit.subscription_reset));
            if second > 0 {
                instant_at(second)
            } else {
                None
            }
        },
        None => None,
    }
}

/// What an answer says, or its failure.
pub open spec fn usage_of(response: RateLimitResponse) -> Result<ParsedUsage, ErrorKind> {
    if response.status != Some(1i64) {
        if refused_login(response) {
            Err(ErrorKind::AuthenticationExpired)
        } else {
            Err(ErrorKind::Api)
        }
    } else if !credit_plan(response) && (!response.has_five_hour_left || !response.has_weekly_left
        || response.five_hour_reset is None || response.weekly_reset is None) {
        Err(ErrorKind::Parse)
    } else {
        Ok(
            ParsedUsage {
                five_hour_reset: second_of(json::optional_tree(response.five_hour_reset)),
                weekly_reset: second_of(json::optional_tree(response.weekly_reset)),
                credit: match response.credit {
                    Some(credit) => choice_of(credit),
                    None => CreditChoice { pools: false, field: None },
                },
                credit_reset: credit_reset_of(response),
                is_credit_plan: credit_plan(response),
            },
        )
    }
}

/// What an answer says, apart from its rates.
pub fn parse_usage(response: &RateLimitResponse) -> (r: Result<ParsedUsage, ClassifiedError>)
    ensures
        match r {
            Ok(parsed) => usage_of(*response) == Ok::<_, ErrorKind>(parsed),
            Err(e) => usage_of(*response) is Err && e == error::plain(
                usage_of(*response)->Err_0,
            ),
        },
{
    let succeeded = match response.status {
        Some(status) => status == 1,
        None => false,
    };
    if !succeeded {
        return Err(
            ClassifiedError::new(
                if is_refused_login(response) {
                    ErrorKind::AuthenticationExpired
                } else {
                    ErrorKind::Api
                },
            ),
        );
    }
    let five_hour_reset: i64 = flexible_second(&response.five_hour_reset);
    let weekly_reset: i64 = flexible_second(&response.weekly_reset);
    let has_live_window = five_hour_reset > 0 || weekly_reset > 0;
    let has_credit_pool = match &response.credit {
        Some(credit) => credit.has_subscription_left || credit.has_topup_left
            || match &credit.buckets {
            Some(buckets) => buckets.len() > 0,
            None => false,
        },
        None => false,
    };
    let is_credit_plan = !has_live_window && (has_credit_pool || response.is_credit_family);
    if !is_credit_plan && (!response.has_five_hour_left || !response.has_weekly_left
        || response.five_hour_reset.is_none() || response.weekly_reset.is_none()) {
        return Err(ClassifiedError::new(ErrorKind::Parse));
    }
    let (credit, credit_reset) = match &response.credit {
        Some(credit) => {
            let second: i64 = flexible_second(&credit.subscription_reset);
            (
                total_credit_left_rate(credit),
                if second > 0 {
                    timestamp_from_unix(second)
                } else {
                    None
                },
            )
        },
        None => (CreditChoice { pools: false, field: None }, None),
    };
    Ok(ParsedUsage { five_hour_reset, weekly_reset, credit, credit_reset, is_credit_plan })
}

/// The name that a reading shows as login method.
pub open spec fn login_name(plan: Option<Seq<char>>) -> Seq<char> {
    match plan {
        Some(name) => {
            let shown = text::trimmed(name);
            if shown.len() > 0 && text::byte_len(shown) <= stepfun::MAX_IDENTITY_BYTES {
                shown
            } else {
                "password"@
            }
        },
        None => "password"@,
    }
}

/// A window of a known length whose percentage is measured.
pub open spec fn measured_window(minutes: Option<i64>, resets_at: Option<Timestamp>) -> WindowView {
    WindowView { used: None, minutes, resets_at, description: None }
}

/// The reading of an account: the window of its credits where the plan has a
/// rate for them, or else the two rolling windows. The percentages are measured.
pub open spec fn sample_of(
    fetched_at: Timestamp,
    parsed: ParsedUsage,
    credit_known: bool,
    plan: Option<Seq<char>>,
    can_sign_in: bool,
) -> Option<SampleView> {
    let base = SampleView {
        login_method: Some(login_name(plan)),
        ..usage::empty_sample(
            ProviderId::StepFun,
            fetched_at,
            "stepfun"@,
            if can_sign_in {
                "password_login"@
            } else {
                "manual_cookie"@
            },
        )
    };
    if parsed.is_credit_plan && credit_known {
        Some(
            SampleView {
                primary: Some(
                    measured_window(
                        if parsed.credit_reset is Some {
                            Some(MONTHLY_MINUTES)
                        } else {
                            None
                        },
                        parsed.credit_reset,
                    ),
                ),
                ..base
            },
        )
    } else if instant_at(parsed.five_hour_reset) is None || instant_at(parsed.weekly_reset) is None {
        None
    } else {
        Some(
            SampleView {
                primary: Some(
                    measured_window(Some(FIVE_HOUR_MINUTES), instant_at(parsed.five_hour_reset)),
                ),
                secondary: Some(
                    measured_window(Some(WEEKLY_MINUTES), instant_at(parsed.weekly_reset)),
                ),
                ..base
            },
        )
    }
}

/// The reading of an account. `credit_known` tells whether the rate of credits
/// left was found, `can_sign_in` whether the account was opened by a password.
pub fn normalize_usage(
    fetched_at: Timestamp,
    parsed: &ParsedUsage,
    credit_known: bool,
    plan: &Option<String>,
    can_sign_in: bool,
) -> (r: Result<UsageSample, ClassifiedError>)
    ensures
        match r {
            Ok(sample) => sample_of(
                fetched_at,
                *parsed,
                credit_known,
                plan.deep_view(),
                can_sign_in,
            ) == Some(sample.value()),
            Err(e) => sample_of(
                fetched_at,
                *parsed,
                credit_known,
                plan.deep_view(),
                can_sign_in,
            ) is None && e == error::plain(ErrorKind::Parse),
        },
{
    let strategy = if can_sign_in {
        "password_login"
    } else {
        "manual_cookie"
    };
    let mut sample = UsageSample::empty(ProviderId::StepFun, fetched_at, "stepfun", strategy);
    let mut login = "password".to_owned();
    if let Some(name) = plan {
        let shown = text::trim_text(name.as_str());
        if !shown.as_str().is_empty() && shown.as_str().len() <= stepfun::MAX_IDENTITY_BYTES {
            login = shown;
        }
    }
    sample.login_method = Some(login);
    if parsed.is_credit_plan && credit_known {
        let minutes = match parsed.credit_reset {
            Some(_) => Some(MONTHLY_MINUTES),
            None => None,
        };
        sample.primary =
        Some(
            RateWindow { used: None, minutes, resets_at: parsed.credit_reset, description: None },
        );
        return Ok(sample);
    }
    match (timestamp_from_unix(parsed.five_hour_reset), timestamp_from_unix(parsed.weekly_reset)) {
        (Some(five_hour), Some(weekly)) => {
            sample.primary =
            Some(
                RateWindow {
                    used: None,
                    minutes: Some(FIVE_HOUR_MINUTES),
                    resets_at: Some(five_hour),
                    description: None,
                },
            );
            sample.secondary =
            Some(
                RateWindow {
                    used: None,
                    minutes: Some(WEEKLY_MINUTES),
                    resets_at: Some(weekly),
                    description: None,
                },
            );
            Ok(sample)
        },
        _ => Err(ClassifiedError::new(ErrorKind::Parse)),
    }
}

/// The usable name of a subscription.
pub open spec fn plan_name_of(name: Option<Seq<char>>) -> Option<Seq<char>> {
    match name {
        Some(raw) => {
            let shown = text::trimmed(raw);
            if shown.len() > 0 && text::byte_len(shown) <= stepfun::MAX_IDENTITY_BYTES
                && !text::has_control(shown) {
                Some(shown)
            } else {
                None
            }
        },
        None => None,
    }
}

/// The usable name of a subscription.
pub fn clean_plan_name(name: &Option<String>) -> (r: Option<String>)
    ensures
        r.deep_view() == plan_name_of(name.deep_view()),
{
    match name {
        Some(raw) => {
            let shown = text::trim_text(raw.as_str());
            let chars = text::chars_of(shown.as_str());
            if chars.len() > 0 && shown.as_str().len() <= stepfun::MAX_IDENTITY_BYTES
                && !text::any_control(chars.as_slice()) {
                Some(shown)
            } else {
                None
            }
        },
        None => None,
    }
}

/// An answer with a live window is never read as one of credits.
pub proof fn law_live_window_wins(response: RateLimitResponse)
    requires
        second_of(json::optional_tree(response.five_hour_reset)) > 0 || second_of(
            json::optional_tree(response.weekly_reset),
        ) > 0,
    ensures
        usage_of(response) matches Ok(parsed) ==> !parsed.is_credit_plan,
{
}

/// Without a credit plan, the windows are of five hours and of seven days, and each
/// resets at the second that the response names.
pub proof fn law_windows_reset_as_told(
    fetched_at: Timestamp,
    parsed: ParsedUsage,
    credit_known: bool,
    plan: Option<Seq<char>>,
    can_sign_in: bool,
)
    ensures
        !(parsed.is_credit_plan && credit_known) ==> (sample_of(
            fetched_at,
            parsed,
            credit_known,
            plan,
            can_sign_in,
        ) matches Some(sample) ==> {
            &&& sample.primary matches Some(short)
            &&& sample.secondary matches Some(long)
            &&& short.minutes == Some((5 * 60) as i64)
            &&& long.minutes == Some((7 * 24 * 60) as i64)
            &&& short.resets_at matches Some(first)
            &&& long.resets_at matches Some(second)
            &&& first.nanos == parsed.five_hour_reset * 1_000_000_000
            &&& second.nanos == parsed.weekly_reset * 1_000_000_000
        }),
        parsed.is_credit_plan && credit_known ==> (sample_of(
            fetched_at,
            parsed,
            credit_known,
            plan,
            can_sign_in,
        ) matches Some(sample) ==> {
            &&& sample.primary matches Some(window)
            &&& sample.secondary is None
            &&& window.resets_at == parsed.credit_reset
            &&& window.minutes == (if parsed.credit_reset is Some {
                Some((30 * 24 * 60) as i64)
            } else {
                None
            })
        }),
{
}

/// A response with another status than one is refused: for want of a session where
/// its code or message tells so. The subscription's credits are shown before those
/// that were bought on top.
pub proof fn law_refusals_and_credits(response: RateLimitResponse)
    ensures
        response.status != Some(1i64) ==> usage_of(response) is Err,
        response.status != Some(1i64) && (response.code == Some(401i64) || response.code == Some(
            403i64,
        )) ==> usage_of(response) == Err::<ParsedUsage, _>(ErrorKind::AuthenticationExpired),
        response.status == Some(1i64) ==> usage_of(response) is Ok || usage_of(response) == Err::<
            ParsedUsage,
            _,
        >(ErrorKind::Parse),
        usage_of(response) is Ok && response.credit is Some
            && response.credit->0.has_subscription_left ==> usage_of(response)->Ok_0.credit.field
            == Some(CreditField::Subscription),
        usage_of(response) is Ok && response.credit is Some && response.credit->0.has_topup_left
            && !response.credit->0.has_subscription_left ==> usage_of(response)->Ok_0.credit.field
            == Some(CreditField::Topup),
{
}

/// A pool of credits counts only where it has some in all and not more left than
/// there are.
pub proof fn law_pools_hold_what_is_left(bucket: CreditBucket)
    ensures
        bucket_usable(bucket) <==> (bucket.total matches Some(Amount::Rank(total))
            && bucket.residual matches Some(Amount::Rank(residual)) && 0 < total && residual
            <= total),
{
}

} // verus!
