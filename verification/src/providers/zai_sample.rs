//! The z.ai reading: its windows, its quota details and its model usage.

use vstd::prelude::*;

use crate::decimal;
use crate::decimal::Decimal;
use crate::instant::Timestamp;
use crate::providers::zai_models::ModelUsage;
use crate::providers::zai_usage;
use crate::providers::zai_usage::NormalizedQuota;
use crate::registry::ProviderId;
use crate::usage;
use crate::usage::{
    ChartView, DetailChart, DetailRow, DetailSection, RowView, SampleView, SectionView, UsageSample,
};

verus! {

/// The section of a model usage: its totals, and its tokens as a chart.
pub open spec fn model_section_of(usage: ModelUsage, title: Seq<char>) -> SectionView {
    let points = zai_usage::pair_values(usage.points@);
    SectionView {
        title,
        rows: usage::row_values(usage.rows@),
        chart: Some(
            ChartView {
                title,
                unit: "tokens"@,
                points: Seq::new(
                    points.len(),
                    |i: int| (points[i].0, decimal::signed_whole(points[i].1)),
                ),
            },
        ),
    }
}

/// The section of a model usage.
pub fn model_section(usage: ModelUsage, title: &str) -> (r: DetailSection)
    ensures
        r.value() == model_section_of(usage, title@),
{
    let ghost all = model_section_of(usage, title@).chart->0.points;
    let mut points: Vec<(String, Decimal)> = Vec::new();
    let mut i: usize = 0;
    while i < usage.points.len()
        invariant
            i <= usage.points@.len(),
            all == model_section_of(usage, title@).chart->0.points,
            usage::point_values(points@) == all.take(i as int),
        decreases usage.points@.len() - i,
    {
        let ghost before = usage::point_values(points@);
        points.push((usage.points[i].0.clone(), Decimal::of_signed(usage.points[i].1)));
        assert(usage::point_values(points@) =~= before.push(all[i as int]));
        assert(all.take(i as int + 1) =~= all.take(i as int).push(all[i as int]));
        i += 1;
    }
    assert(all.take(i as int) =~= all);
    DetailSection {
        title: title.to_owned(),
        rows: usage.rows,
        chart: Some(DetailChart { title: title.to_owned(), unit: "tokens".to_owned(), points }),
    }
}

/// The value of an optional row, as a list.
pub open spec fn row_if_any(row: Option<DetailRow>) -> Seq<RowView> {
    match row {
        Some(r) => seq![r.row()],
        None => seq![],
    }
}

/// The reading of an account: the quota details with the balance behind them,
/// then the sections of its model usage. The percentages are left open.
pub open spec fn sample_of(
    fetched_at: Timestamp,
    quota: NormalizedQuota,
    balance: Option<DetailRow>,
    models: Seq<SectionView>,
    plan: Option<Seq<char>>,
) -> SampleView {
    SampleView {
        primary: Some(quota.primary.value()),
        secondary: usage::window_value(quota.secondary),
        extra: usage::named_values(quota.extra_windows@),
        sections: seq![
            SectionView {
                title: "Quota details"@,
                rows: usage::row_values(quota.rows@) + row_if_any(balance),
                chart: None,
            },
        ] + models,
        login_method: plan,
        ..usage::empty_sample(ProviderId::Zai, fetched_at, "zai"@, "api"@)
    }
}

/// The reading of an account.
pub fn normalize(
    fetched_at: Timestamp,
    quota: NormalizedQuota,
    balance: Option<DetailRow>,
    models: Vec<DetailSection>,
    plan: Option<String>,
) -> (r: UsageSample)
    ensures
        r.value() == sample_of(
            fetched_at,
            quota,
            balance,
            usage::section_values(models@),
            plan.deep_view(),
        ),
{
    let ghost shown = usage::row_values(quota.rows@) + row_if_any(balance);
    let mut rows = quota.rows;
    if let Some(row) = balance {
        rows.push(row);
    }
    assert(usage::row_values(rows@) =~= shown);
    let mut sections = usage::one_section("Quota details", rows, None);
    let mut more = models;
    let ghost first = usage::section_values(sections@);
    let ghost behind = usage::section_values(more@);
    sections.append(&mut more);
    assert(usage::section_values(sections@) =~= first + behind);
    let mut sample = UsageSample::empty(ProviderId::Zai, fetched_at, "zai", "api");
    sample.primary = Some(quota.primary);
    sample.secondary = quota.secondary;
    sample.extra = quota.extra_windows;
    sample.sections = sections;
    sample.login_method = plan;
    sample
}

} // verus!
