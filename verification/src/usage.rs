//! Normalized usage, as plain values.

use vstd::prelude::*;

use crate::decimal;
use crate::decimal::Decimal;
use crate::instant::Timestamp;
use crate::registry::ProviderId;

verus! {

/// One usage window: how much is used in percent (`None` where unknown), how
/// long the window is, when it resets, and a short description.
pub struct RateWindow {
    pub used: Option<Decimal>,
    pub minutes: Option<i64>,
    pub resets_at: Option<Timestamp>,
    pub description: Option<String>,
}

/// Mathematical value of a [`RateWindow`].
pub struct WindowView {
    pub used: Option<Decimal>,
    pub minutes: Option<i64>,
    pub resets_at: Option<Timestamp>,
    pub description: Option<Seq<char>>,
}

impl RateWindow {
    pub open spec fn value(self) -> WindowView {
        WindowView {
            used: self.used,
            minutes: self.minutes,
            resets_at: self.resets_at,
            description: self.description.deep_view(),
        }
    }
}

/// The value of an optional window.
pub open spec fn window_value(window: Option<RateWindow>) -> Option<WindowView> {
    match window {
        Some(w) => Some(w.value()),
        None => None,
    }
}

/// A usage window with an identifier and a title.
pub struct NamedWindow {
    pub id: String,
    pub title: String,
    pub window: RateWindow,
}

/// Mathematical value of a [`NamedWindow`].
pub struct NamedWindowView {
    pub id: Seq<char>,
    pub title: Seq<char>,
    pub window: WindowView,
}

impl NamedWindow {
    pub open spec fn value(self) -> NamedWindowView {
        NamedWindowView { id: self.id@, title: self.title@, window: self.window.value() }
    }
}

/// The values of a list of named windows.
pub open spec fn named_values(windows: Seq<NamedWindow>) -> Seq<NamedWindowView> {
    Seq::new(windows.len(), |i: int| windows[i].value())
}

/// Whether a detail tells something of the person behind an account.
#[derive(Debug, Clone, Copy, PartialEq, Eq, Structural)]
pub enum DetailSensitivity {
    Public,
    Personal,
}

/// One line of a detail section.
pub struct DetailRow {
    pub label: String,
    pub value: String,
    pub secondary: Option<String>,
    pub sensitivity: DetailSensitivity,
}

/// Mathematical value of a [`DetailRow`].
pub struct RowView {
    pub label: Seq<char>,
    pub value: Seq<char>,
    pub secondary: Option<Seq<char>>,
    pub sensitivity: DetailSensitivity,
}

impl DetailRow {
    pub open spec fn row(self) -> RowView {
        RowView {
            label: self.label@,
            value: self.value@,
            secondary: self.secondary.deep_view(),
            sensitivity: self.sensitivity,
        }
    }
}

/// The values of a list of rows.
pub open spec fn row_values(rows: Seq<DetailRow>) -> Seq<RowView> {
    Seq::new(rows.len(), |i: int| rows[i].row())
}

/// A chart of bars: what it shows, its unit, and its points in order.
pub struct DetailChart {
    pub title: String,
    pub unit: String,
    pub points: Vec<(String, Decimal)>,
}

/// Mathematical value of a [`DetailChart`].
pub struct ChartView {
    pub title: Seq<char>,
    pub unit: Seq<char>,
    pub points: Seq<(Seq<char>, Decimal)>,
}

/// The values of a list of points.
pub open spec fn point_values(points: Seq<(String, Decimal)>) -> Seq<(Seq<char>, Decimal)> {
    Seq::new(points.len(), |i: int| (points[i].0@, points[i].1))
}

impl DetailChart {
    pub open spec fn value(self) -> ChartView {
        ChartView { title: self.title@, unit: self.unit@, points: point_values(self.points@) }
    }
}

/// The value of an optional chart.
pub open spec fn chart_value(chart: Option<DetailChart>) -> Option<ChartView> {
    match chart {
        Some(c) => Some(c.value()),
        None => None,
    }
}

/// A titled section of rows, with a chart where there is one.
pub struct DetailSection {
    pub title: String,
    pub rows: Vec<DetailRow>,
    pub chart: Option<DetailChart>,
}

/// Mathematical value of a [`DetailSection`].
pub struct SectionView {
    pub title: Seq<char>,
    pub rows: Seq<RowView>,
    pub chart: Option<ChartView>,
}

impl DetailSection {
    pub open spec fn value(self) -> SectionView {
        SectionView {
            title: self.title@,
            rows: row_values(self.rows@),
            chart: chart_value(self.chart),
        }
    }
}

/// The values of a list of sections.
pub open spec fn section_values(sections: Seq<DetailSection>) -> Seq<SectionView> {
    Seq::new(sections.len(), |i: int| sections[i].value())
}

/// A list of one section.
pub fn one_section(title: &str, rows: Vec<DetailRow>, chart: Option<DetailChart>) -> (r: Vec<
    DetailSection,
>)
    ensures
        section_values(r@) == seq![
            SectionView { title: title@, rows: row_values(rows@), chart: chart_value(chart) },
        ],
{
    let r = vec![DetailSection { title: title.to_owned(), rows, chart }];
    assert(section_values(r@) =~= seq![
        SectionView { title: title@, rows: row_values(rows@), chart: chart_value(chart) },
    ]);
    r
}

/// Where figures of money come from.
#[derive(Debug, Clone, Copy, PartialEq, Eq, Structural)]
pub enum CostProvenance {
    /// The vendor meters them.
    VendorMetered,
}

/// Money of an account: how much, of what limit, in which currency, what it is
/// called, when and by how much it is renewed, when it was read and where it comes
/// from.
pub struct CostSummary {
    pub amount: Decimal,
    pub limit: Decimal,
    pub currency: String,
    pub period: String,
    pub resets_at: Option<Timestamp>,
    pub next_regen: Option<Decimal>,
    pub updated_at: Timestamp,
    pub provenance: CostProvenance,
}

/// Mathematical value of a [`CostSummary`].
pub struct CostView {
    pub amount: Decimal,
    pub limit: Decimal,
    pub currency: Seq<char>,
    pub period: Seq<char>,
    pub resets_at: Option<Timestamp>,
    pub next_regen: Option<Decimal>,
    pub updated_at: Timestamp,
    pub provenance: CostProvenance,
}

impl CostSummary {
    pub open spec fn value(self) -> CostView {
        CostView {
            amount: self.amount,
            limit: self.limit,
            currency: self.currency@,
            period: self.period@,
            resets_at: self.resets_at,
            next_regen: self.next_regen,
            updated_at: self.updated_at,
            provenance: self.provenance,
        }
    }

    /// A balance in dollars, which has no limit.
    pub fn balance(amount: Decimal, period: &str, updated_at: Timestamp) -> (r: CostSummary)
        ensures
            r.value() == dollar_balance(amount, period@, updated_at),
    {
        CostSummary {
            amount,
            limit: Decimal::of(0),
            currency: "USD".to_owned(),
            period: period.to_owned(),
            resets_at: None,
            next_regen: None,
            updated_at,
            provenance: CostProvenance::VendorMetered,
        }
    }
}

/// A balance in dollars, which has no limit.
pub open spec fn dollar_balance(
    amount: Decimal,
    period: Seq<char>,
    updated_at: Timestamp,
) -> CostView {
    CostView {
        amount,
        limit: decimal::whole(0),
        currency: "USD"@,
        period,
        resets_at: None,
        next_regen: None,
        updated_at,
        provenance: CostProvenance::VendorMetered,
    }
}

/// The value of optional money.
pub open spec fn cost_value(cost: Option<CostSummary>) -> Option<CostView> {
    match cost {
        Some(c) => Some(c.value()),
        None => None,
    }
}

/// What was spent in a span, and in how many entries, where it is known.
#[derive(Debug, Clone, Copy, PartialEq, Eq, Structural)]
pub struct CostMetrics {
    pub amount: Option<Decimal>,
    pub records: Option<u64>,
}

/// What was spent over the last days: in the current session, in all, and on each
/// day; whether the days are complete, what they are called, when they were read
/// and where they come from.
pub struct CostUsage {
    pub unit: String,
    pub session: CostMetrics,
    pub history: CostMetrics,
    pub days: u16,
    pub complete: bool,
    pub label: Option<String>,
    pub daily: Vec<(String, CostMetrics)>,
    pub updated_at: Timestamp,
    pub provenance: CostProvenance,
}

/// Mathematical value of a [`CostUsage`].
pub struct CostUsageView {
    pub unit: Seq<char>,
    pub session: CostMetrics,
    pub history: CostMetrics,
    pub days: u16,
    pub complete: bool,
    pub label: Option<Seq<char>>,
    pub daily: Seq<(Seq<char>, CostMetrics)>,
    pub updated_at: Timestamp,
    pub provenance: CostProvenance,
}

/// The values of a list of days.
pub open spec fn bucket_values(daily: Seq<(String, CostMetrics)>) -> Seq<(Seq<char>, CostMetrics)> {
    Seq::new(daily.len(), |i: int| (daily[i].0@, daily[i].1))
}

impl CostUsage {
    pub open spec fn value(self) -> CostUsageView {
        CostUsageView {
            unit: self.unit@,
            session: self.session,
            history: self.history,
            days: self.days,
            complete: self.complete,
            label: self.label.deep_view(),
            daily: bucket_values(self.daily@),
            updated_at: self.updated_at,
            provenance: self.provenance,
        }
    }
}

/// The value of optional spending.
pub open spec fn cost_usage_value(usage: Option<CostUsage>) -> Option<CostUsageView> {
    match usage {
        Some(u) => Some(u.value()),
        None => None,
    }
}

/// How sure a reading is.
#[derive(Debug, Clone, Copy, PartialEq, Eq, Structural)]
pub enum DataConfidence {
    Exact,
    Estimated,
}

/// One normalized reading of a provider. `provenance` names the adapter and how it
/// reads.
pub struct UsageSample {
    pub provider: ProviderId,
    pub fetched_at: Timestamp,
    pub primary: Option<RateWindow>,
    pub secondary: Option<RateWindow>,
    pub tertiary: Option<RateWindow>,
    pub extra: Vec<NamedWindow>,
    pub sections: Vec<DetailSection>,
    pub cost: Option<CostSummary>,
    pub cost_usage: Option<CostUsage>,
    pub confidence: Option<DataConfidence>,
    pub provenance: (String, String),
    pub account_id: Option<String>,
    pub email: Option<String>,
    pub organization: Option<String>,
    pub login_method: Option<String>,
    pub expires_at: Option<Timestamp>,
    pub renews_at: Option<Timestamp>,
}

/// Mathematical value of a [`UsageSample`].
pub struct SampleView {
    pub provider: ProviderId,
    pub fetched_at: Timestamp,
    pub primary: Option<WindowView>,
    pub secondary: Option<WindowView>,
    pub tertiary: Option<WindowView>,
    pub extra: Seq<NamedWindowView>,
    pub sections: Seq<SectionView>,
    pub cost: Option<CostView>,
    pub cost_usage: Option<CostUsageView>,
    pub confidence: Option<DataConfidence>,
    pub provenance: (Seq<char>, Seq<char>),
    pub account_id: Option<Seq<char>>,
    pub email: Option<Seq<char>>,
    pub organization: Option<Seq<char>>,
    pub login_method: Option<Seq<char>>,
    pub expires_at: Option<Timestamp>,
    pub renews_at: Option<Timestamp>,
}

impl UsageSample {
    pub open spec fn value(self) -> SampleView {
        SampleView {
            provider: self.provider,
            fetched_at: self.fetched_at,
            primary: window_value(self.primary),
            secondary: window_value(self.secondary),
            tertiary: window_value(self.tertiary),
            extra: named_values(self.extra@),
            sections: section_values(self.sections@),
            cost: cost_value(self.cost),
            cost_usage: cost_usage_value(self.cost_usage),
            confidence: self.confidence,
            provenance: (self.provenance.0@, self.provenance.1@),
            account_id: self.account_id.deep_view(),
            email: self.email.deep_view(),
            organization: self.organization.deep_view(),
            login_method: self.login_method.deep_view(),
            expires_at: self.expires_at,
            renews_at: self.renews_at,
        }
    }

    /// A reading that knows nothing yet but its adapter and how that reads.
    pub fn empty(provider: ProviderId, fetched_at: Timestamp, source: &str, strategy: &str) -> (r:
        UsageSample)
        ensures
            r.value() == empty_sample(provider, fetched_at, source@, strategy@),
    {
        let r = UsageSample {
            provider,
            fetched_at,
            primary: None,
            secondary: None,
            tertiary: None,
            extra: Vec::new(),
            sections: Vec::new(),
            cost: None,
            cost_usage: None,
            confidence: None,
            provenance: (source.to_owned(), strategy.to_owned()),
            account_id: None,
            email: None,
            organization: None,
            login_method: None,
            expires_at: None,
            renews_at: None,
        };
        assert(named_values(r.extra@) =~= seq![]);
        assert(section_values(r.sections@) =~= seq![]);
        r
    }
}

/// The value of a reading that knows nothing yet but its adapter and how that
/// reads.
pub open spec fn empty_sample(
    provider: ProviderId,
    fetched_at: Timestamp,
    source: Seq<char>,
    strategy: Seq<char>,
) -> SampleView {
    SampleView {
        provider,
        fetched_at,
        primary: None,
        secondary: None,
        tertiary: None,
        extra: seq![],
        sections: seq![],
        cost: None,
        cost_usage: None,
        confidence: None,
        provenance: (source, strategy),
        account_id: None,
        email: None,
        organization: None,
        login_method: None,
        expires_at: None,
        renews_at: None,
    }
}

/// How much of a window is used: a known percentage, or counts whose quotient is
/// the percentage.
#[derive(Debug, Clone, Copy, PartialEq, Eq, Structural)]
pub enum Share {
    Percent(u64),
    Count { used: i64, total: i64 },
}

/// How a provider's credential was obtained.
#[derive(Debug, Clone, Copy, PartialEq, Eq, Structural)]
pub enum ProviderSource {
    ApiKey,
    ManualCookie,
    BrowserSession,
    CloudCredentials,
    LocalData,
    Password,
}

/// A balance in dollars keeps its amount, its period and its time.
pub proof fn law_balances_keep_their_amount(
    amount: Decimal,
    period: Seq<char>,
    updated_at: Timestamp,
)
    ensures
        dollar_balance(amount, period, updated_at).amount == amount,
        dollar_balance(amount, period, updated_at).limit.mantissa() == 0,
        dollar_balance(amount, period, updated_at).currency == "USD"@,
        dollar_balance(amount, period, updated_at).period == period,
        dollar_balance(amount, period, updated_at).updated_at == updated_at,
{
}

} // verus!
