//! xAI prepaid balance and daily spend.

use vstd::prelude::*;

use crate::decimal;
use crate::decimal::Decimal;
use crate::error;
use crate::error::{ClassifiedError, ErrorKind};
use crate::instant;
use crate::instant::Timestamp;
use crate::json;
use crate::json::{Json, Tree};
use crate::registry::ProviderId;
use crate::retry;
use crate::retry::RetryPolicy;
use crate::settings;
use crate::settings::{ApiKeyCredential, Environment};
use crate::text;
use crate::transport;
use crate::transport::TransportConfig;
use crate::urls;
use crate::usage;
use crate::usage::{
    ChartView, CostMetrics, CostProvenance, CostSummary, CostUsage, CostUsageView, DataConfidence, DetailChart,
    DetailRow, DetailSensitivity, RowView, SampleView, SectionView, UsageSample,
};

verus! {

pub const MAX_TEAM_ID_BYTES: usize = 512;

pub const MAX_RESPONSE_BYTES: usize = 2 * 1024 * 1024;

/// How many days a history spans.
pub const HISTORY_DAYS: u16 = 30;

pub const MAX_DAILY_POINTS: usize = 120;

/// Days of history before the current one, in nanoseconds.
pub const HISTORY_NANOS: i128 = 2_505_600_000_000_000;

pub const DAY_NANOS: i128 = 86_400_000_000_000;

/// Whether a text can be the path segment of a team.
pub open spec fn team_ok(s: Seq<char>) -> bool {
    &&& s.len() > 0
    &&& text::byte_len(s) <= MAX_TEAM_ID_BYTES
    &&& s != "."@
    &&& s != ".."@
    &&& !s.contains('/')
    &&& !text::has_control(s)
}

/// Checks a team identifier.
pub fn validate_team_id(team_id: &str) -> (r: Result<(), ClassifiedError>)
    ensures
        match r {
            Ok(_) => team_ok(team_id@),
            Err(e) => !team_ok(team_id@) && e == error::plain(ErrorKind::MissingCredential),
        },
{
    let chars = text::chars_of(team_id);
    let slash = text::position(chars.as_slice(), '/', 0);
    proof {
        text::lemma_find_char_bounds(team_id@, '/', 0);
        if slash is Some {
            assert(team_id@[slash->0 as int] == '/');
        }
    }
    if chars.len() == 0 || team_id.len() > MAX_TEAM_ID_BYTES || text::same_text(team_id, ".")
        || text::same_text(team_id, "..") || slash.is_some() || text::any_control(
        chars.as_slice(),
    ) {
        return Err(ClassifiedError::new(ErrorKind::MissingCredential));
    }
    Ok(())
}

/// A management key and the team it is used for.
pub struct XaiCredential {
    pub key: ApiKeyCredential,
    pub team_id: String,
}

/// The team that a setting names.
pub open spec fn team_of(raw: Seq<char>) -> Option<Seq<char>> {
    match settings::cleaned_setting(raw) {
        Some(team) => if team_ok(team) {
            Some(team)
        } else {
            None
        },
        None => None,
    }
}

/// The variable of the key.
pub open spec fn key_names() -> Seq<Seq<char>> {
    seq!["XAI_MANAGEMENT_API_KEY"@]
}

/// The variable of the team.
pub open spec fn team_names() -> Seq<Seq<char>> {
    seq!["XAI_TEAM_ID"@]
}

/// The team that an environment selects.
pub open spec fn selected_team(environment: Environment) -> Option<Seq<char>> {
    match settings::first_setting(environment, team_names(), 0) {
        Some(raw) => team_of(raw),
        None => None,
    }
}

impl XaiCredential {
    /// Selects the key and the team of an environment.
    pub fn resolve(environment: &Environment) -> (r: Result<XaiCredential, ClassifiedError>)
        ensures
            match r {
                Ok(credential) => settings::selected_key(*environment, key_names()) == Some(
                    credential.key.key@,
                ) && selected_team(*environment) == Some(credential.team_id@),
                Err(e) => (settings::selected_key(*environment, key_names()) is None
                    || selected_team(*environment) is None) && e == error::plain(
                    ErrorKind::MissingCredential,
                ),
            },
    {
        let names = vec!["XAI_MANAGEMENT_API_KEY"];
        assert(names.deep_view() =~= key_names());
        let key = match ApiKeyCredential::resolve(environment, &names) {
            Ok(key) => key,
            Err(e) => return Err(e),
        };
        let teams = vec!["XAI_TEAM_ID"];
        assert(teams.deep_view() =~= team_names());
        match settings::first_clean_setting(environment, &teams) {
            Some(raw) => XaiCredential::new(key, raw.as_str()),
            None => Err(ClassifiedError::new(ErrorKind::MissingCredential)),
        }
    }

    /// A chosen key and team.
    pub fn new(key: ApiKeyCredential, team_id: &str) -> (r: Result<XaiCredential, ClassifiedError>)
        ensures
            match r {
                Ok(credential) => team_of(team_id@) == Some(credential.team_id@) && credential.key
                    == key,
                Err(e) => team_of(team_id@) is None && e == error::plain(
                    ErrorKind::MissingCredential,
                ),
            },
    {
        let team = match settings::clean_setting(team_id) {
            Some(team) => team,
            None => return Err(ClassifiedError::new(ErrorKind::MissingCredential)),
        };
        match validate_team_id(team.as_str()) {
            Ok(_) => Ok(XaiCredential { key, team_id: team }),
            Err(e) => Err(e),
        }
    }
}

/// The adapter of one team.
pub struct XaiProvider {
    pub base_url: String,
    pub team_id: String,
}

impl XaiProvider {
    /// Wraps the client of an account.
    pub fn from_client(provider: ProviderId, base_url: String, team_id: String) -> (r: Result<
        XaiProvider,
        ClassifiedError,
    >)
        ensures
            match r {
                Ok(adapter) => provider == ProviderId::Xai && team_ok(team_id@) && adapter.base_url
                    == base_url && adapter.team_id == team_id,
                Err(e) => e == error::plain(
                    if provider != ProviderId::Xai {
                        ErrorKind::Api
                    } else {
                        ErrorKind::MissingCredential
                    },
                ) && !(provider == ProviderId::Xai && team_ok(team_id@)),
            },
    {
        if provider != ProviderId::Xai {
            return Err(ClassifiedError::new(ErrorKind::Api));
        }
        match validate_team_id(team_id.as_str()) {
            Ok(_) => Ok(XaiProvider { base_url, team_id }),
            Err(e) => Err(e),
        }
    }

    /// The URL of the prepaid balance.
    pub fn balance_url(&self) -> (r: Result<String, ClassifiedError>)
        ensures
            ({
                let url = urls::url_below_segments(
                    self.base_url@,
                    seq![self.team_id@, "prepaid"@, "balance"@],
                );
                match r {
                    Ok(found) => url == Some(found@),
                    Err(e) => url is None && e == error::plain(ErrorKind::Api),
                }
            }),
    {
        let segments = vec![self.team_id.as_str(), "prepaid", "balance"];
        assert(segments.deep_view() =~= seq![self.team_id@, "prepaid"@, "balance"@]);
        team_url(self.base_url.as_str(), &segments)
    }

    /// The URL of the spend history.
    pub fn usage_url(&self) -> (r: Result<String, ClassifiedError>)
        ensures
            ({
                let url = urls::url_below_segments(
                    self.base_url@,
                    seq![self.team_id@, "usage"@],
                );
                match r {
                    Ok(found) => url == Some(found@),
                    Err(e) => url is None && e == error::plain(ErrorKind::Api),
                }
            }),
    {
        let segments = vec![self.team_id.as_str(), "usage"];
        assert(segments.deep_view() =~= seq![self.team_id@, "usage"@]);
        team_url(self.base_url.as_str(), &segments)
    }
}

fn team_url(base: &str, segments: &Vec<&str>) -> (r: Result<String, ClassifiedError>)
    ensures
        ({
            let url = urls::url_below_segments(base@, segments.deep_view());
            match r {
                Ok(found) => url == Some(found@),
                Err(e) => url is None && e == error::plain(ErrorKind::Api),
            }
        }),
{
    match urls::below_segments(base, segments) {
        Some(url) => Ok(url),
        None => Err(ClassifiedError::new(ErrorKind::Api)),
    }
}

/// A text without one leading minus sign.
pub open spec fn without_minus(s: Seq<char>) -> Seq<char> {
    if s.len() > 0 && s[0] == '-' {
        s.skip(1)
    } else {
        s
    }
}

/// Whether a text is an optional minus sign, digits, and perhaps a point and
/// more digits.
pub open spec fn plain_decimal(s: Seq<char>) -> bool {
    let parts = text::pieces(without_minus(s), '.');
    (parts.len() == 1 || parts.len() == 2) && forall|i: int|
        0 <= i < parts.len() ==> (#[trigger] parts[i]).len() > 0 && text::all_digits(parts[i])
}

fn only_digits(s: &[char]) -> (r: bool)
    ensures
        r == (s@.len() > 0 && text::all_digits(s@)),
{
    let mut i: usize = 0;
    while i < s.len()
        invariant
            i <= s@.len(),
            forall|j: int| 0 <= j < i ==> text::ascii_digit(#[trigger] s@[j]),
        decreases s@.len() - i,
    {
        if !('0' <= s[i] && s[i] <= '9') {
            assert(!text::ascii_digit(s@[i as int]));
            return false;
        }
        i += 1;
    }
    s.len() > 0
}

/// Whether a text is a plain decimal number.
pub fn is_plain_decimal(value: &[char]) -> (r: bool)
    ensures
        r == plain_decimal(value@),
{
    let n: usize = value.len();
    let body = if n > 0 && value[0] == '-' {
        vstd::slice::slice_subrange(value, 1, n)
    } else {
        value
    };
    assert(body@ =~= without_minus(value@));
    let parts = text::split(body, '.');
    let ghost all = text::pieces(without_minus(value@), '.');
    if parts.len() == 1 {
        assert(parts@[0]@ == all[0]);
        only_digits(parts[0])
    } else if parts.len() == 2 {
        assert(parts@[0]@ == all[0]);
        assert(parts@[1]@ == all[1]);
        only_digits(parts[0]) && only_digits(parts[1])
    } else {
        false
    }
}

/// The prepaid balance of a ledger total in cents: its negation, in dollars.
pub open spec fn balance_of(raw: Seq<char>) -> Option<Decimal> {
    let plain = text::trimmed(raw);
    if !plain_decimal(plain) {
        None
    } else {
        match decimal::decimal_parsed(plain) {
            Some(ledger) => match decimal::decimal_difference(decimal::whole(0), ledger) {
                Some(cents) => decimal::decimal_quotient(cents, decimal::whole(100)),
                None => None,
            },
            None => None,
        }
    }
}

/// A balance is a ledger's total with its sign changed, in dollars for cents: a
/// hundred times it makes up for the ledger, up to the last digit.
pub proof fn law_balances_settle_the_ledger(raw: Seq<char>)
    requires
        decimal::computes(),
    ensures
        balance_of(raw) matches Some(balance) ==> (decimal::decimal_parsed(
            text::trimmed(raw),
        ) matches Some(ledger) && (ledger.wf() ==> decimal::near(
            balance,
            -ledger.mantissa(),
            100 * decimal::pow10(ledger.scale as nat),
        ))),
{
    if balance_of(raw) is Some {
        let ledger = decimal::decimal_parsed(text::trimmed(raw))->0;
        let cents = decimal::decimal_difference(decimal::whole(0), ledger)->0;
        assert(decimal::pow10(0) == 1);
        assert(cents.mantissa() * decimal::pow10(0) == cents.mantissa()) by (nonlinear_arith)
            requires
                decimal::pow10(0) == 1,
        ;
    }
}

/// The prepaid balance of a ledger total.
pub fn parse_balance(total: &str) -> (r: Result<Decimal, ClassifiedError>)
    ensures
        match r {
            Ok(balance) => balance_of(total@) == Some(balance) && balance.wf(),
            Err(e) => balance_of(total@) is None && e == error::plain(ErrorKind::Parse),
        },
{
    let plain = text::trim_text(total);
    let chars = text::chars_of(plain.as_str());
    if !is_plain_decimal(chars.as_slice()) {
        return Err(ClassifiedError::new(ErrorKind::Parse));
    }
    let ledger = match decimal::parse(plain.as_str()) {
        Some(ledger) => ledger,
        None => return Err(ClassifiedError::new(ErrorKind::Parse)),
    };
    let cents = match Decimal::of(0).minus(ledger) {
        Some(cents) => cents,
        None => return Err(ClassifiedError::new(ErrorKind::Parse)),
    };
    match cents.over(Decimal::of(100)) {
        Some(balance) => Ok(balance),
        None => Err(ClassifiedError::new(ErrorKind::Parse)),
    }
}

/// One point of the spend history; its numbers are kept as their texts.
pub struct UsagePoint {
    pub timestamp: String,
    pub values: Option<Vec<String>>,
}

/// Mathematical value of a [`UsagePoint`].
pub struct PointView {
    pub timestamp: Seq<char>,
    pub values: Option<Seq<Seq<char>>>,
}

impl UsagePoint {
    pub open spec fn value(self) -> PointView {
        PointView {
            timestamp: self.timestamp@,
            values: match self.values {
                Some(texts) => Some(texts.deep_view()),
                None => None,
            },
        }
    }
}

/// One series of the spend history.
pub struct UsageSeries {
    pub data_points: Option<Vec<UsagePoint>>,
}

/// The answer about the spend history.
pub struct UsageEnvelope {
    pub time_series: Option<Vec<UsageSeries>>,
    pub limit_reached: Option<bool>,
}

/// The points of a series.
pub open spec fn points_of(series: UsageSeries) -> Option<Seq<PointView>> {
    match series.data_points {
        Some(points) => Some(Seq::new(points@.len(), |i: int| points@[i].value())),
        None => None,
    }
}

/// The points of several series.
pub open spec fn all_points(series: Seq<UsageSeries>) -> Seq<Option<Seq<PointView>>> {
    Seq::new(series.len(), |i: int| points_of(series[i]))
}

/// Whether every text is a readable number.
pub open spec fn readable(texts: Seq<Seq<char>>) -> bool {
    forall|i: int| 0 <= i < texts.len() ==> decimal::number_decimal(#[trigger] texts[i]) is Some
}

/// The day and the amount of a point: its first number, which is not negative.
pub open spec fn reading_of(point: PointView) -> Option<(Seq<char>, Decimal)> {
    match (point.values, instant::instant_of_text(point.timestamp)) {
        (Some(texts), Some(at)) => if texts.len() > 0 && readable(texts)
            && !decimal::number_decimal(texts[0])->0.below_zero() {
            Some((instant::day_text(instant::civil(at)), decimal::number_decimal(texts[0])->0))
        } else {
            None
        },
        _ => None,
    }
}

/// The day and the amount of a point.
pub fn read_point(point: &UsagePoint) -> (r: Option<(String, Decimal)>)
    ensures
        match r {
            Some((day, amount)) => reading_of(point.value()) == Some((day@, amount)) && amount.wf(),
            None => reading_of(point.value()) is None,
        },
{
    let texts = match &point.values {
        Some(texts) => texts,
        None => return None,
    };
    let ghost all = texts.deep_view();
    let mut first: Option<Decimal> = None;
    let mut i: usize = 0;
    while i < texts.len()
        invariant
            all == texts.deep_view(),
            point.values == Some(*texts),
            i <= texts@.len(),
            forall|j: int|
                0 <= j < i ==> decimal::number_decimal(#[trigger] all[j]) is Some,
            i == 0 ==> first is None,
            i > 0 ==> first == decimal::number_decimal(all[0]) && first is Some && first->0.wf(),
        decreases texts@.len() - i,
    {
        assert(all[i as int] == texts@[i as int]@);
        match decimal::from_number(texts[i].as_str()) {
            Some(amount) => {
                if i == 0 {
                    first = Some(amount);
                }
            },
            None => {
                assert(!readable(all));
                return None;
            },
        }
        i += 1;
    }
    let amount = match first {
        Some(amount) => amount,
        None => return None,
    };
    if amount.is_below_zero() {
        return None;
    }
    match Timestamp::parse(point.timestamp.as_str()) {
        Some(at) => Some((instant::day_of(instant::to_civil(at)), amount)),
        None => None,
    }
}

/// Where a day stands, or would stand, among days in order.
pub open spec fn slot(daily: Seq<(Seq<char>, Decimal)>, day: Seq<char>, from: int) -> int
    decreases daily.len() - from,
{
    if from < 0 || from >= daily.len() || !text::precedes(daily[from].0, day) {
        from
    } else {
        slot(daily, day, from + 1)
    }
}

proof fn lemma_slot(daily: Seq<(Seq<char>, Decimal)>, day: Seq<char>, from: int)
    requires
        0 <= from <= daily.len(),
    ensures
        from <= slot(daily, day, from) <= daily.len(),
        forall|i: int|
            from <= i < slot(daily, day, from) ==> text::precedes((#[trigger] daily[i]).0, day),
        slot(daily, day, from) < daily.len() ==> !text::precedes(
            daily[slot(daily, day, from)].0,
            day,
        ),
    decreases daily.len() - from,
{
    if from < daily.len() && text::precedes(daily[from].0, day) {
        lemma_slot(daily, day, from + 1);
    }
}

/// The days with one more amount; `None` where a sum overflows.
pub open spec fn with_amount(
    daily: Seq<(Seq<char>, Decimal)>,
    day: Seq<char>,
    amount: Decimal,
) -> Option<Seq<(Seq<char>, Decimal)>> {
    let at = slot(daily, day, 0);
    if at < daily.len() && daily[at].0 == day {
        match decimal::decimal_sum(daily[at].1, amount) {
            Some(sum) => Some(daily.update(at, (day, sum))),
            None => None,
        }
    } else {
        Some(daily.insert(at, (day, amount)))
    }
}

/// The days of the first `n` points added to `start`.
pub open spec fn days_of_points(
    start: Option<Seq<(Seq<char>, Decimal)>>,
    points: Seq<PointView>,
    n: int,
) -> Option<Seq<(Seq<char>, Decimal)>>
    decreases n,
{
    if n <= 0 {
        start
    } else {
        match (days_of_points(start, points, n - 1), reading_of(points[n - 1])) {
            (Some(daily), Some((day, amount))) => with_amount(daily, day, amount),
            _ => None,
        }
    }
}

/// The days of the first `n` series, in order; `None` where a point is
/// malformed.
pub open spec fn days_of_series(series: Seq<Option<Seq<PointView>>>, n: int) -> Option<
    Seq<(Seq<char>, Decimal)>,
>
    decreases n,
{
    if n <= 0 {
        Some(seq![])
    } else {
        match series[n - 1] {
            Some(points) => days_of_points(
                days_of_series(series, n - 1),
                points,
                points.len() as int,
            ),
            None => None,
        }
    }
}

/// The sum of the first `n` amounts; `None` where it overflows.
pub open spec fn total_of(daily: Seq<(Seq<char>, Decimal)>, n: int) -> Option<Decimal>
    decreases n,
{
    if n <= 0 {
        Some(decimal::whole(0))
    } else {
        match total_of(daily, n - 1) {
            Some(total) => decimal::decimal_sum(total, daily[n - 1].1),
            None => None,
        }
    }
}

/// Spend by day, in order.
pub struct SpendHistory {
    pub daily: Vec<(String, Decimal)>,
    pub total: Decimal,
    pub partial: bool,
}

/// Mathematical value of a [`SpendHistory`].
pub struct HistoryView {
    pub daily: Seq<(Seq<char>, Decimal)>,
    pub total: Decimal,
    pub partial: bool,
}

/// Whether all amounts are well formed.
pub open spec fn amounts_wf(daily: Seq<(String, Decimal)>) -> bool {
    forall|i: int| 0 <= i < daily.len() ==> (#[trigger] daily[i]).1.wf()
}

impl SpendHistory {
    pub open spec fn value(self) -> HistoryView {
        HistoryView {
            daily: usage::point_values(self.daily@),
            total: self.total,
            partial: self.partial,
        }
    }

    /// All amounts are well formed.
    pub open spec fn wf(self) -> bool {
        amounts_wf(self.daily@) && self.total.wf()
    }
}

/// The history of an answer; `None` where it is malformed or too long.
pub open spec fn history_of(response: UsageEnvelope) -> Option<HistoryView> {
    match response.time_series {
        Some(list) => {
            let series = all_points(list@);
            match days_of_series(series, series.len() as int) {
                Some(daily) => if daily.len() > MAX_DAILY_POINTS {
                    None
                } else {
                    match total_of(daily, daily.len() as int) {
                        Some(total) => Some(
                            HistoryView { daily, total, partial: response.limit_reached == Some(true) },
                        ),
                        None => None,
                    }
                },
                None => None,
            }
        },
        None => None,
    }
}

fn add_amount(daily: Vec<(String, Decimal)>, day: String, amount: Decimal) -> (r: Option<
    Vec<(String, Decimal)>,
>)
    requires
        amounts_wf(daily@),
        amount.wf(),
    ensures
        match r {
            Some(next) => with_amount(usage::point_values(daily@), day@, amount) == Some(
                usage::point_values(next@),
            ) && amounts_wf(next@),
            None => with_amount(usage::point_values(daily@), day@, amount) is None,
        },
{
    let ghost all = usage::point_values(daily@);
    let wanted = text::chars_of(day.as_str());
    let mut at: usize = 0;
    let mut searching = true;
    while searching && at < daily.len()
        invariant
            all == usage::point_values(daily@),
            wanted@ == day@,
            at <= daily@.len(),
            searching ==> slot(all, day@, 0) == slot(all, day@, at as int),
            !searching ==> slot(all, day@, 0) == at,
        decreases
            daily@.len() - at,
            if searching {
                1int
            } else {
                0
            },
    {
        assert(all[at as int].0 == daily@[at as int].0@);
        let here = text::chars_of(daily[at].0.as_str());
        if text::is_before(here.as_slice(), wanted.as_slice()) {
            at += 1;
        } else {
            searching = false;
        }
    }
    assert(slot(all, day@, 0) == at);
    let mut next = daily;
    if at < next.len() && text::same_text(next[at].0.as_str(), day.as_str()) {
        assert(all[at as int].0 == day@);
        let sum = match next[at].1.plus(amount) {
            Some(sum) => sum,
            None => return None,
        };
        next.set(at, (day, sum));
        assert(usage::point_values(next@) =~= all.update(at as int, (day@, sum)));
    } else {
        assert(at < all.len() ==> all[at as int].0 != day@);
        next.insert(at, (day, amount));
        assert(usage::point_values(next@) =~= all.insert(at as int, (day@, amount)));
        assert(amounts_wf(next@)) by {
            assert forall|i: int| 0 <= i < next@.len() implies (#[trigger] next@[i]).1.wf() by {
                if i < at {
                    assert(next@[i] == daily@[i]);
                } else if i > at {
                    assert(next@[i] == daily@[i - 1]);
                }
            }
        }
    }
    Some(next)
}

proof fn lemma_points_failure(
    start: Option<Seq<(Seq<char>, Decimal)>>,
    points: Seq<PointView>,
    n: int,
    m: int,
)
    requires
        0 <= n <= m,
        days_of_points(start, points, n) is None,
    ensures
        days_of_points(start, points, m) is None,
    decreases m - n,
{
    if n < m {
        lemma_points_failure(start, points, n, m - 1);
    }
}

proof fn lemma_series_failure(series: Seq<Option<Seq<PointView>>>, n: int, m: int)
    requires
        0 <= n <= m,
        days_of_series(series, n) is None,
    ensures
        days_of_series(series, m) is None,
    decreases m - n,
{
    if n < m {
        lemma_series_failure(series, n, m - 1);
        if series[m - 1] is Some {
            lemma_points_failure(None, series[m - 1]->0, 0, series[m - 1]->0.len() as int);
        }
    }
}

/// The spend history of an answer.
pub fn parse_history(response: &UsageEnvelope) -> (r: Result<SpendHistory, ClassifiedError>)
    ensures
        match r {
            Ok(history) => history_of(*response) == Some(history.value()) && history.wf(),
            Err(e) => history_of(*response) is None && e == error::plain(ErrorKind::Parse),
        },
{
    let list = match &response.time_series {
        Some(list) => list,
        None => return Err(ClassifiedError::new(ErrorKind::Parse)),
    };
    let ghost series = all_points(list@);
    let mut daily: Vec<(String, Decimal)> = Vec::new();
    assert(usage::point_values(daily@) =~= seq![]);
    let mut i: usize = 0;
    while i < list.len()
        invariant
            series == all_points(list@),
            i <= list@.len(),
            days_of_series(series, i as int) == Some(usage::point_values(daily@)),
            amounts_wf(daily@),
            response.time_series == Some(*list),
        decreases list@.len() - i,
    {
        assert(series[i as int] == points_of(list@[i as int]));
        let points = match &list[i].data_points {
            Some(points) => points,
            None => {
                proof {
                    lemma_series_failure(series, i as int + 1, series.len() as int);
                }
                return Err(ClassifiedError::new(ErrorKind::Parse));
            },
        };
        let ghost all = series[i as int]->0;
        let ghost start = days_of_series(series, i as int);
        let mut k: usize = 0;
        while k < points.len()
            invariant
                series == all_points(list@),
                response.time_series == Some(*list),
                i < list@.len(),
                series[i as int] == Some(all),
                all == Seq::new(points@.len(), |j: int| points@[j].value()),
                start == days_of_series(series, i as int),
                k <= points@.len(),
                days_of_points(start, all, k as int) == Some(usage::point_values(daily@)),
                amounts_wf(daily@),
            decreases points@.len() - k,
        {
            assert(all[k as int] == points@[k as int].value());
            let (day, amount) = match read_point(&points[k]) {
                Some(reading) => reading,
                None => {
                    proof {
                        lemma_points_failure(start, all, k as int + 1, all.len() as int);
                        lemma_series_failure(series, i as int + 1, series.len() as int);
                    }
                    return Err(ClassifiedError::new(ErrorKind::Parse));
                },
            };
            daily =
            match add_amount(daily, day, amount) {
                Some(next) => next,
                None => {
                    proof {
                        lemma_points_failure(start, all, k as int + 1, all.len() as int);
                        lemma_series_failure(series, i as int + 1, series.len() as int);
                    }
                    return Err(ClassifiedError::new(ErrorKind::Parse));
                },
            };
            k += 1;
        }
        i += 1;
    }
    if daily.len() > MAX_DAILY_POINTS {
        return Err(ClassifiedError::new(ErrorKind::Parse));
    }
    let ghost all = usage::point_values(daily@);
    let mut total = Decimal::of(0);
    let mut k: usize = 0;
    while k < daily.len()
        invariant
            all == usage::point_values(daily@),
            amounts_wf(daily@),
            k <= daily@.len(),
            total.wf(),
            total_of(all, k as int) == Some(total),
            response.time_series == Some(*list),
            days_of_series(all_points(list@), list@.len() as int) == Some(all),
            daily@.len() <= MAX_DAILY_POINTS,
        decreases daily@.len() - k,
    {
        assert(all[k as int].1 == daily@[k as int].1);
        total =
        match total.plus(daily[k].1) {
            Some(sum) => sum,
            None => {
                proof {
                    lemma_total_failure(all, k as int + 1, all.len() as int);
                }
                return Err(ClassifiedError::new(ErrorKind::Parse));
            },
        };
        k += 1;
    }
    let partial = match response.limit_reached {
        Some(reached) => reached,
        None => false,
    };
    Ok(SpendHistory { daily, total, partial })
}

proof fn lemma_total_failure(daily: Seq<(Seq<char>, Decimal)>, n: int, m: int)
    requires
        0 <= n <= m,
        total_of(daily, n) is None,
    ensures
        total_of(daily, m) is None,
    decreases m - n,
{
    if n < m {
        lemma_total_failure(daily, n, m - 1);
    }
}

/// Whether each day comes before the next.
pub open spec fn ascending(daily: Seq<(Seq<char>, Decimal)>) -> bool {
    forall|i: int, j: int|
        0 <= i && j == i + 1 && j < daily.len() ==> text::precedes(
            (#[trigger] daily[i]).0,
            (#[trigger] daily[j]).0,
        )
}

proof fn lemma_amount_keeps_order(
    daily: Seq<(Seq<char>, Decimal)>,
    day: Seq<char>,
    amount: Decimal,
)
    requires
        ascending(daily),
    ensures
        with_amount(daily, day, amount) matches Some(next) ==> ascending(next),
{
    lemma_slot(daily, day, 0);
    let at = slot(daily, day, 0);
    if with_amount(daily, day, amount) is Some {
        let next = with_amount(daily, day, amount)->0;
        assert forall|i: int, j: int|
            0 <= i && j == i + 1 && j < next.len() implies text::precedes(
            (#[trigger] next[i]).0,
            (#[trigger] next[j]).0,
        ) by {
            if next.len() == daily.len() {
                assert(next[i].0 == daily[i].0);
                assert(next[j].0 == daily[j].0);
            } else if j < at {
                assert(next[i] == daily[i] && next[j] == daily[j]);
            } else if j == at {
                assert(next[i] == daily[i]);
            } else if i == at {
                assert(next[j] == daily[at]);
                text::lemma_precedes_total(daily[at].0, day);
            } else {
                assert(next[i] == daily[i - 1] && next[j] == daily[j - 1]);
            }
        }
    }
}

proof fn lemma_points_keep_order(
    start: Option<Seq<(Seq<char>, Decimal)>>,
    points: Seq<PointView>,
    n: int,
)
    requires
        start matches Some(daily) ==> ascending(daily),
    ensures
        days_of_points(start, points, n) matches Some(daily) ==> ascending(daily),
    decreases n,
{
    if n > 0 {
        lemma_points_keep_order(start, points, n - 1);
        if days_of_points(start, points, n - 1) is Some && reading_of(points[n - 1]) is Some {
            let (day, amount) = reading_of(points[n - 1])->0;
            lemma_amount_keeps_order(days_of_points(start, points, n - 1)->0, day, amount);
        }
    }
}

proof fn lemma_series_keep_order(series: Seq<Option<Seq<PointView>>>, n: int)
    ensures
        days_of_series(series, n) matches Some(daily) ==> ascending(daily),
    decreases n,
{
    if n > 0 {
        lemma_series_keep_order(series, n - 1);
        if series[n - 1] is Some {
            lemma_points_keep_order(
                days_of_series(series, n - 1),
                series[n - 1]->0,
                series[n - 1]->0.len() as int,
            );
        }
    }
}

/// A history names each day once, in order, and at most so many of them.
pub proof fn law_days_ascend(response: UsageEnvelope)
    ensures
        history_of(response) matches Some(history) ==> ascending(history.daily)
            && history.daily.len() <= MAX_DAILY_POINTS,
{
    if response.time_series is Some {
        let series = all_points(response.time_series->0@);
        lemma_series_keep_order(series, series.len() as int);
    }
}

/// What the history adds to the balance: the chart, the current day's amount and
/// the total.
pub struct HistoryEnrichment {
    pub total: Decimal,
    pub partial: bool,
    pub chart: Vec<(String, Decimal)>,
    pub session: Option<Decimal>,
}

/// The amount of a day at or behind `from`.
pub open spec fn amount_on(daily: Seq<(Seq<char>, Decimal)>, day: Seq<char>, from: int) -> Option<
    Decimal,
>
    decreases daily.len() - from,
{
    if from < 0 || from >= daily.len() {
        None
    } else if daily[from].0 == day {
        Some(daily[from].1)
    } else {
        amount_on(daily, day, from + 1)
    }
}

/// The chart of a history, and the amount of the day of `fetched_at`.
pub fn build_history(history: SpendHistory, fetched_at: Timestamp) -> (r: HistoryEnrichment)
    requires
        fetched_at.in_calendar(),
    ensures
        r.total == history.total,
        r.partial == history.partial,
        r.chart == history.daily,
        r.session == amount_on(
            history.value().daily,
            instant::day_text(instant::civil(fetched_at)),
            0,
        ),
{
    let ghost all = history.value().daily;
    let today = instant::day_of(instant::to_civil(fetched_at));
    let mut session: Option<Decimal> = None;
    let mut i: usize = 0;
    while i < history.daily.len() && session.is_none()
        invariant
            all == usage::point_values(history.daily@),
            i <= history.daily@.len(),
            session is None ==> amount_on(all, today@, 0) == amount_on(all, today@, i as int),
            session is Some ==> session == amount_on(all, today@, 0),
        decreases history.daily@.len() - i,
    {
        assert(all[i as int] == (history.daily@[i as int].0@, history.daily@[i as int].1));
        if text::same_text(history.daily[i].0.as_str(), today.as_str()) {
            session = Some(history.daily[i].1);
        }
        i += 1;
    }
    HistoryEnrichment {
        total: history.total,
        partial: history.partial,
        chart: history.daily,
        session,
    }
}

/// An amount in dollars with two digits behind the point.
pub open spec fn usd(value: Decimal) -> Seq<char> {
    "$"@ + decimal::decimal_fixed(decimal::decimal_rounded(value, 2), 2)
}

/// An amount in dollars.
pub fn format_usd(value: Decimal) -> (r: String)
    requires
        value.wf(),
    ensures
        r@ == usd(value),
{
    let mut r = "$".to_owned();
    let shown = decimal::to_fixed(decimal::round(value, 2), 2);
    r.append(shown.as_str());
    r
}

/// The rows of the billing summary.
pub open spec fn summary_rows(balance: Decimal, total: Decimal, partial: bool) -> Seq<RowView> {
    seq![
        RowView { label: "Prepaid balance"@, value: usd(balance), secondary: None, sensitivity: DetailSensitivity::Public },
        RowView {
            label: if partial {
                "Last 30 days (partial)"@
            } else {
                "Last 30 days"@
            },
            value: usd(total),
            secondary: None,
            sensitivity: DetailSensitivity::Public,
        },
    ]
}

/// The spending that a history gives: in dollars over thirty days, with the
/// current day as session.
pub open spec fn spending_of(history: HistoryEnrichment, fetched_at: Timestamp) -> CostUsageView {
    let daily = usage::point_values(history.chart@);
    CostUsageView {
        unit: "USD"@,
        session: CostMetrics { amount: history.session, records: None },
        history: CostMetrics { amount: Some(history.total), records: None },
        days: HISTORY_DAYS,
        complete: !history.partial,
        label: if history.partial {
            Some("Last 30 days (partial)"@)
        } else {
            None
        },
        daily: Seq::new(
            daily.len(),
            |i: int| (daily[i].0, CostMetrics { amount: Some(daily[i].1), records: None }),
        ),
        updated_at: fetched_at,
        provenance: CostProvenance::VendorMetered,
    }
}

fn spending(history: &HistoryEnrichment, fetched_at: Timestamp) -> (r: CostUsage)
    ensures
        r.value() == spending_of(*history, fetched_at),
{
    let ghost all = spending_of(*history, fetched_at).daily;
    let mut daily: Vec<(String, CostMetrics)> = Vec::new();
    let mut i: usize = 0;
    while i < history.chart.len()
        invariant
            i <= history.chart@.len(),
            all == spending_of(*history, fetched_at).daily,
            usage::bucket_values(daily@) == all.take(i as int),
        decreases history.chart@.len() - i,
    {
        let ghost before = usage::bucket_values(daily@);
        let metrics = CostMetrics { amount: Some(history.chart[i].1), records: None };
        daily.push((history.chart[i].0.clone(), metrics));
        assert(usage::bucket_values(daily@) =~= before.push(all[i as int]));
        assert(all.take(i as int + 1) =~= all.take(i as int).push(all[i as int]));
        i += 1;
    }
    assert(all.take(i as int) =~= all);
    let label = if history.partial {
        Some("Last 30 days (partial)".to_owned())
    } else {
        None
    };
    CostUsage {
        unit: "USD".to_owned(),
        session: CostMetrics { amount: history.session, records: None },
        history: CostMetrics { amount: Some(history.total), records: None },
        days: HISTORY_DAYS,
        complete: !history.partial,
        label,
        daily,
        updated_at: fetched_at,
        provenance: CostProvenance::VendorMetered,
    }
}

/// The chart of a history.
pub open spec fn spend_chart(history: HistoryEnrichment) -> ChartView {
    ChartView {
        title: "Daily spend"@,
        unit: "USD"@,
        points: usage::point_values(history.chart@),
    }
}

/// The reading of an account: its balance, and its history where there is one. A
/// partial history makes it an estimate.
pub open spec fn sample_of(
    fetched_at: Timestamp,
    balance: Decimal,
    history: Option<HistoryEnrichment>,
) -> SampleView {
    let total = match history {
        Some(h) => h.total,
        None => decimal::whole(0),
    };
    let partial = history matches Some(h) && h.partial;
    SampleView {
        login_method: Some("Management API"@),
        cost: Some(usage::dollar_balance(balance, "Prepaid credits"@, fetched_at)),
        sections: seq![
            SectionView {
                title: "Billing summary"@,
                rows: summary_rows(balance, total, partial),
                chart: match history {
                    Some(h) => Some(spend_chart(h)),
                    None => None,
                },
            },
        ],
        confidence: Some(
            if partial {
                DataConfidence::Estimated
            } else {
                DataConfidence::Exact
            },
        ),
        cost_usage: match history {
            Some(h) => Some(spending_of(h, fetched_at)),
            None => None,
        },
        ..usage::empty_sample(ProviderId::Xai, fetched_at, "xai"@, "management-api"@)
    }
}

/// The reading of an account, with its history or without.
pub fn normalize(fetched_at: Timestamp, balance: Decimal, history: Option<HistoryEnrichment>) -> (r:
    UsageSample)
    requires
        balance.wf(),
        history matches Some(h) ==> h.total.wf(),
    ensures
        r.value() == sample_of(fetched_at, balance, history),
{
    let (total, partial) = match &history {
        Some(h) => (h.total, h.partial),
        None => (Decimal::of(0), false),
    };
    let mut sample = UsageSample::empty(ProviderId::Xai, fetched_at, "xai", "management-api");
    sample.login_method = Some("Management API".to_owned());
    sample.cost = Some(CostSummary::balance(balance, "Prepaid credits", fetched_at));
    let confidence = if partial {
        DataConfidence::Estimated
    } else {
        DataConfidence::Exact
    };
    sample.confidence = Some(confidence);
    let label = if partial {
        "Last 30 days (partial)"
    } else {
        "Last 30 days"
    };
    let rows = vec![
        DetailRow {
            label: "Prepaid balance".to_owned(),
            value: format_usd(balance),
            secondary: None,
            sensitivity: DetailSensitivity::Public,
        },
        DetailRow {
            label: label.to_owned(),
            value: format_usd(total),
            secondary: None,
            sensitivity: DetailSensitivity::Public,
        },
    ];
    assert(usage::row_values(rows@) =~= summary_rows(balance, total, partial));
    let mut chart: Option<DetailChart> = None;
    if let Some(h) = history {
        sample.cost_usage = Some(spending(&h, fetched_at));
        chart =
        Some(
            DetailChart {
                title: "Daily spend".to_owned(),
                unit: "USD".to_owned(),
                points: h.chart,
            },
        );
    }
    sample.sections = usage::one_section("Billing summary", rows, chart);
    sample
}

/// The start of the history: the midnight that starts the first of thirty days.
pub open spec fn history_start(fetched_at: Timestamp) -> Option<Timestamp> {
    instant::calendar_nanos(
        (fetched_at.nanos as int / DAY_NANOS as int) * DAY_NANOS - HISTORY_NANOS,
    )
}

/// The request for the spend of the last thirty days.
pub open spec fn usage_request(start: Seq<char>, end: Seq<char>) -> Tree {
    Tree::Object(
        seq!["analyticsRequest"@],
        seq![
            Tree::Object(
                seq!["timeRange"@, "timeUnit"@, "values"@, "groupBy"@, "filters"@],
                seq![
                    Tree::Object(
                        seq!["startTime"@, "endTime"@, "timezone"@],
                        seq![Tree::Text(start), Tree::Text(end), Tree::Text("Etc/GMT"@)],
                    ),
                    Tree::Text("TIME_UNIT_DAY"@),
                    Tree::Array(
                        seq![
                            Tree::Object(
                                seq!["name"@, "aggregation"@],
                                seq![Tree::Text("usd"@), Tree::Text("AGGREGATION_SUM"@)],
                            ),
                        ],
                    ),
                    Tree::Array(seq![]),
                    Tree::Array(seq![]),
                ],
            ),
        ],
    )
}

/// The text of the request for the spend of the last thirty days.
pub fn usage_request_body(fetched_at: Timestamp) -> (r: Result<String, ClassifiedError>)
    requires
        fetched_at.in_calendar(),
    ensures
        match r {
            Ok(body) => history_start(fetched_at) is Some && body@ == json::rendered(
                usage_request(
                    instant::moment_text(instant::civil(history_start(fetched_at)->0)),
                    instant::moment_text(instant::civil(fetched_at)),
                ),
            ),
            Err(e) => history_start(fetched_at) is None && e == error::plain(ErrorKind::Parse),
        },
{
    let quotient: i128 = fetched_at.nanos / DAY_NANOS;
    let day: i128 = if fetched_at.nanos % DAY_NANOS < 0 {
        quotient - 1
    } else {
        quotient
    };
    assert(day == fetched_at.nanos as int / DAY_NANOS as int);
    let start = match Timestamp::from_nanos(day * DAY_NANOS - HISTORY_NANOS) {
        Some(start) => start,
        None => return Err(ClassifiedError::new(ErrorKind::Parse)),
    };
    let first = instant::moment_of(instant::to_civil(start));
    let last = instant::moment_of(instant::to_civil(fetched_at));
    let ghost whole = usage_request(first@, last@);
    let ghost inner = json::children(whole)[0];
    let range = Json::Object(
        vec![
            ("startTime".to_owned(), json::owned_text(first.as_str())),
            ("endTime".to_owned(), json::owned_text(last.as_str())),
            ("timezone".to_owned(), json::owned_text("Etc/GMT")),
        ],
    );
    assert(json::keys(range.tree()) =~= json::keys(json::children(inner)[0]));
    assert(json::children(range.tree()) =~= json::children(json::children(inner)[0]));
    let value = Json::Object(
        vec![
            ("name".to_owned(), json::owned_text("usd")),
            ("aggregation".to_owned(), json::owned_text("AGGREGATION_SUM")),
        ],
    );
    let ghost values_tree = json::children(inner)[2];
    assert(json::keys(value.tree()) =~= json::keys(json::children(values_tree)[0]));
    assert(json::children(value.tree()) =~= json::children(json::children(values_tree)[0]));
    let values = Json::Array(vec![value]);
    assert(json::children(values.tree()) =~= json::children(values_tree));
    let group_by = Json::Array(Vec::new());
    assert(json::children(group_by.tree()) =~= seq![]);
    let filters = Json::Array(Vec::new());
    assert(json::children(filters.tree()) =~= seq![]);
    let analytics = Json::Object(
        vec![
            ("timeRange".to_owned(), range),
            ("timeUnit".to_owned(), json::owned_text("TIME_UNIT_DAY")),
            ("values".to_owned(), values),
            ("groupBy".to_owned(), group_by),
            ("filters".to_owned(), filters),
        ],
    );
    assert(json::keys(analytics.tree()) =~= json::keys(inner));
    assert(json::children(analytics.tree()) =~= json::children(inner));
    let request = Json::Object(vec![("analyticsRequest".to_owned(), analytics)]);
    assert(json::keys(request.tree()) =~= json::keys(whole));
    assert(json::children(request.tree()) =~= json::children(whole));
    Ok(json::render(&request))
}

/// Reads a refused permission as an expired login.
pub fn remap_authentication(e: ClassifiedError) -> (r: ClassifiedError)
    ensures
        r == error::expired_if_denied(e),
{
    e.denied_as_expired()
}

/// What becomes of a failed history: an expired login stays a failure, anything
/// else leaves the balance alone.
pub fn history_or_none(history: Result<SpendHistory, ClassifiedError>) -> (r: Result<
    Option<SpendHistory>,
    ClassifiedError,
>)
    ensures
        r == (match history {
            Ok(h) => Ok::<Option<SpendHistory>, ClassifiedError>(Some(h)),
            Err(e) => if e.kind == ErrorKind::AuthenticationExpired {
                Err(e)
            } else {
                Ok(None)
            },
        }),
{
    match history {
        Ok(h) => Ok(Some(h)),
        Err(e) => if e.kind == ErrorKind::AuthenticationExpired {
            Err(e)
        } else {
            Ok(None)
        },
    }
}

/// The failure classes of the balance that differ from the usual ones.
pub fn xai_balance_status(status: u16) -> (r: Option<ErrorKind>)
    ensures
        r == (if status == 403 {
            Some(ErrorKind::AuthenticationExpired)
        } else if status == 408 || 500 <= status <= 599 {
            Some(ErrorKind::Api)
        } else {
            None
        }),
{
    if status == 403 {
        Some(ErrorKind::AuthenticationExpired)
    } else if status == 408 || (500 <= status && status <= 599) {
        Some(ErrorKind::Api)
    } else {
        None
    }
}

/// Ceilings of this adapter's transport.
pub fn transport_config() -> (r: Result<TransportConfig, ClassifiedError>)
    ensures
        r == Ok::<TransportConfig, ClassifiedError>(
            transport::ceilings(5, 15, MAX_RESPONSE_BYTES, 3, retry::one_retry(250, 15)),
        ),
        r->Ok_0.valid(),
{
    transport::bounded(
        5,
        15,
        MAX_RESPONSE_BYTES,
        3,
        RetryPolicy::one(
            crate::instant::Duration::from_millis(250),
            crate::instant::Duration::from_secs(15),
        ),
    )
}

/// A history starts at the midnight of the day that is the first of thirty with the
/// day of the reading.
pub proof fn law_history_covers_thirty_days(fetched_at: Timestamp)
    ensures
        history_start(fetched_at) matches Some(start) ==> {
            &&& start.nanos as int % 86_400_000_000_000 == 0
            &&& fetched_at.nanos as int / 86_400_000_000_000 - start.nanos as int
                / 86_400_000_000_000 == 29
        },
{
}

/// The sum of the mantissas of the first `n` days.
pub open spec fn mantissa_sum(daily: Seq<(Seq<char>, Decimal)>, n: int) -> int
    decreases n,
{
    if n <= 0 {
        0
    } else {
        mantissa_sum(daily, n - 1) + daily[n - 1].1.mantissa()
    }
}

/// The total of days is the sum of their amounts: exactly, for positive amounts of
/// one scale whose sum can be represented.
pub proof fn law_totals_are_sums(daily: Seq<(Seq<char>, Decimal)>, n: int, scale: u32)
    requires
        decimal::computes(),
        0 < n <= daily.len(),
        scale <= decimal::MAX_SCALE,
        forall|i: int|
            0 <= i < daily.len() ==> (#[trigger] daily[i]).1.wf() && daily[i].1.positive()
                && daily[i].1.scale == scale,
        mantissa_sum(daily, n) < decimal::MAGNITUDE_LIMIT,
    ensures
        total_of(daily, n) matches Some(total) && total.wf() && total.mantissa() == mantissa_sum(
            daily,
            n,
        ) && total.scale == scale && total.magnitude > 0,
        mantissa_sum(daily, n) > 0,
    decreases n,
{
    assert(daily[n - 1].1.positive());
    if n == 1 {
        assert(mantissa_sum(daily, 0) == 0);
        assert(total_of(daily, 0) == Some(decimal::whole(0)));
    } else {
        law_totals_are_sums(daily, n - 1, scale);
        let before = total_of(daily, n - 1)->0;
        let more = daily[n - 1].1;
        assert(decimal::pow10(0) == 1);
        assert(before.mantissa() * decimal::pow10(0) == before.mantissa() && more.mantissa()
            * decimal::pow10(0) == more.mantissa()) by (nonlinear_arith)
            requires
                decimal::pow10(0) == 1,
        ;
        assert(before.mantissa() > 0);
    }
}

proof fn lemma_days_precede(daily: Seq<(Seq<char>, Decimal)>, i: int, j: int)
    requires
        ascending(daily),
        0 <= i < j < daily.len(),
    ensures
        text::precedes(daily[i].0, daily[j].0),
    decreases j - i,
{
    let next = i + 1;
    assert(text::precedes(daily[i].0, daily[next].0));
    if next < j {
        lemma_days_precede(daily, next, j);
        text::law_order_is_transitive(daily[i].0, daily[next].0, daily[j].0);
    }
}

proof fn lemma_amount_skip(daily: Seq<(Seq<char>, Decimal)>, day: Seq<char>, from: int, to: int)
    requires
        0 <= from <= to <= daily.len(),
        forall|i: int| from <= i < to ==> (#[trigger] daily[i]).0 != day,
    ensures
        amount_on(daily, day, from) == amount_on(daily, day, to),
    decreases to - from,
{
    if from < to {
        lemma_amount_skip(daily, day, from + 1, to);
    }
}

proof fn lemma_amount_elsewhere(
    before: Seq<(Seq<char>, Decimal)>,
    after: Seq<(Seq<char>, Decimal)>,
    day: Seq<char>,
    at: int,
    shift: int,
    from: int,
)
    requires
        shift == 0 || shift == 1,
        after.len() == before.len() + shift,
        0 <= at,
        at < after.len(),
        after[at].0 != day,
        shift == 0 ==> before[at].0 != day,
        0 <= from <= before.len(),
        forall|i: int| 0 <= i < at ==> #[trigger] after[i] == before[i],
        forall|i: int| at < i < after.len() ==> #[trigger] after[i] == before[i - shift],
    ensures
        from <= at ==> amount_on(after, day, from) == amount_on(before, day, from),
        from > at ==> amount_on(after, day, from + shift) == amount_on(before, day, from),
        from == at && shift == 1 ==> amount_on(after, day, at + 1) == amount_on(before, day, at),
    decreases before.len() - from,
{
    if from < before.len() {
        lemma_amount_elsewhere(before, after, day, at, shift, from + 1);
        if from > at {
            assert(after[from + shift] == before[from]);
        } else if from == at && shift == 1 {
            assert(after[from + 1] == before[from]);
        }
    }
}

/// An amount is added to its own day, and the other days keep theirs.
pub proof fn law_amounts_count_on_their_day(
    daily: Seq<(Seq<char>, Decimal)>,
    day: Seq<char>,
    amount: Decimal,
    other: Seq<char>,
)
    requires
        ascending(daily),
        other != day,
    ensures
        with_amount(daily, day, amount) matches Some(after) ==> {
            &&& amount_on(after, other, 0) == amount_on(daily, other, 0)
            &&& amount_on(daily, day, 0) is None ==> amount_on(after, day, 0) == Some(amount)
            &&& amount_on(daily, day, 0) is Some ==> amount_on(after, day, 0)
                == decimal::decimal_sum(amount_on(daily, day, 0)->0, amount)
        },
{
    let at = slot(daily, day, 0);
    lemma_slot(daily, day, 0);
    if with_amount(daily, day, amount) is Some {
        let after = with_amount(daily, day, amount)->0;
        assert forall|i: int| 0 <= i < at implies (#[trigger] daily[i]).0 != day by {
            text::law_texts_are_ordered(day, day);
        }
        assert forall|i: int| 0 <= i < at implies (#[trigger] after[i]).0 != day by {
            assert(after[i] == daily[i]);
        }
        lemma_amount_skip(daily, day, 0, at);
        lemma_amount_skip(after, day, 0, at);
        if at < daily.len() && daily[at].0 == day {
            lemma_amount_elsewhere(daily, after, other, at, 0, 0);
        } else {
            assert forall|i: int| at <= i < daily.len() implies (#[trigger] daily[i]).0 != day by {
                if i > at {
                    lemma_days_precede(daily, at, i);
                    text::law_texts_are_ordered(daily[at].0, day);
                    text::law_texts_are_ordered(day, day);
                }
            }
            lemma_amount_skip(daily, day, at, daily.len() as int);
            lemma_amount_elsewhere(daily, after, other, at, 1, 0);
        }
    }
}

/// A sample tells the balance, what was spent in thirty days and on the last day, and
/// whether all of it is known.
pub proof fn law_samples_tell_balance_and_spending(
    fetched_at: Timestamp,
    balance: Decimal,
    history: Option<HistoryEnrichment>,
)
    ensures
        ({
            let sample = sample_of(fetched_at, balance, history);
            &&& sample.cost is Some && sample.cost->0.amount == balance
                && sample.cost->0.updated_at == fetched_at
            &&& history is None ==> sample.cost_usage is None && sample.confidence == Some(
                DataConfidence::Exact,
            )
            &&& history matches Some(h) ==> sample.cost_usage is Some
                && sample.cost_usage->0.history.amount == Some(h.total)
                && sample.cost_usage->0.session.amount == h.session && sample.cost_usage->0.days == 30
                && sample.cost_usage->0.complete == !h.partial && (h.partial <==> sample.confidence
                == Some(DataConfidence::Estimated))
        }),
{
}

} // verus!
