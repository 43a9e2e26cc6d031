//! Key lists of the Qwen Cloud responses.

use vstd::prelude::*;

verus! {

/// Keys that may name the plan.
pub open spec fn plan_names() -> Seq<Seq<char>> {
    seq![
        "planName"@,
        "plan_name"@,
        "packageName"@,
        "package_name"@,
        "commodityName"@,
        "commodity_name"@,
        "specType"@,
        "SpecType"@,
        "instanceName"@,
        "instance_name"@,
        "displayName"@,
        "display_name"@,
        "ProductName"@,
        "productName"@,
        "name"@,
        "title"@,
        "planType"@,
        "plan_type"@,
    ]
}

pub(crate) fn plan_keys() -> (r: Vec<&'static str>)
    ensures
        r.deep_view() == plan_names(),
{
    let r = vec![
        "planName",
        "plan_name",
        "packageName",
        "package_name",
        "commodityName",
        "commodity_name",
        "specType",
        "SpecType",
        "instanceName",
        "instance_name",
        "displayName",
        "display_name",
        "ProductName",
        "productName",
        "name",
        "title",
        "planType",
        "plan_type",
    ];
    assert(r.deep_view() =~= plan_names());
    r
}

/// Keys that may hold the used amount.
pub open spec fn used_names() -> Seq<Seq<char>> {
    seq![
        "usedQuota"@,
        "used_quota"@,
        "usedCredits"@,
        "usedCredit"@,
        "consumedCredits"@,
        "usage"@,
        "used"@,
        "usedAmount"@,
        "consumeAmount"@,
        "usedValue"@,
        "UsedValue"@,
        "consumedValue"@,
        "ConsumedValue"@,
    ]
}

pub(crate) fn used_keys() -> (r: Vec<&'static str>)
    ensures
        r.deep_view() == used_names(),
{
    let r = vec![
        "usedQuota",
        "used_quota",
        "usedCredits",
        "usedCredit",
        "consumedCredits",
        "usage",
        "used",
        "usedAmount",
        "consumeAmount",
        "usedValue",
        "UsedValue",
        "consumedValue",
        "ConsumedValue",
    ];
    assert(r.deep_view() =~= used_names());
    r
}

/// Keys that may hold the total amount.
pub open spec fn total_names() -> Seq<Seq<char>> {
    seq![
        "totalQuota"@,
        "total_quota"@,
        "totalCredits"@,
        "totalCredit"@,
        "quota"@,
        "creditLimit"@,
        "creditsTotal"@,
        "monthlyTotalQuota"@,
        "amount"@,
        "totalValue"@,
        "TotalValue"@,
        "cycleTotalValue"@,
        "CycleTotalValue"@,
    ]
}

pub(crate) fn total_keys() -> (r: Vec<&'static str>)
    ensures
        r.deep_view() == total_names(),
{
    let r = vec![
        "totalQuota",
        "total_quota",
        "totalCredits",
        "totalCredit",
        "quota",
        "creditLimit",
        "creditsTotal",
        "monthlyTotalQuota",
        "amount",
        "totalValue",
        "TotalValue",
        "cycleTotalValue",
        "CycleTotalValue",
    ];
    assert(r.deep_view() =~= total_names());
    r
}

/// Keys that may hold the remaining amount.
pub open spec fn remaining_names() -> Seq<Seq<char>> {
    seq![
        "remainingQuota"@,
        "remainQuota"@,
        "remainingCredits"@,
        "remainingCredit"@,
        "availableCredits"@,
        "balance"@,
        "remaining"@,
        "availableAmount"@,
        "remainAmount"@,
        "totalSurplusValue"@,
        "TotalSurplusValue"@,
        "surplusValue"@,
        "SurplusValue"@,
        "cycleSurplusValue"@,
        "CycleSurplusValue"@,
    ]
}

pub(crate) fn remaining_keys() -> (r: Vec<&'static str>)
    ensures
        r.deep_view() == remaining_names(),
{
    let r = vec![
        "remainingQuota",
        "remainQuota",
        "remainingCredits",
        "remainingCredit",
        "availableCredits",
        "balance",
        "remaining",
        "availableAmount",
        "remainAmount",
        "totalSurplusValue",
        "TotalSurplusValue",
        "surplusValue",
        "SurplusValue",
        "cycleSurplusValue",
        "CycleSurplusValue",
    ];
    assert(r.deep_view() =~= remaining_names());
    r
}

/// Keys that may hold the number of subscriptions.
pub open spec fn count_names() -> Seq<Seq<char>> {
    seq![
        "totalCount"@,
        "TotalCount"@,
        "subscriptionTotalNumber"@,
        "SubscriptionTotalNumber"@,
    ]
}

pub(crate) fn count_keys() -> (r: Vec<&'static str>)
    ensures
        r.deep_view() == count_names(),
{
    let r = vec![
        "totalCount",
        "TotalCount",
        "subscriptionTotalNumber",
        "SubscriptionTotalNumber",
    ];
    assert(r.deep_view() =~= count_names());
    r
}

/// Keys that may hold the reset time.
pub open spec fn reset_names() -> Seq<Seq<char>> {
    seq![
        "nextRefreshTime"@,
        "resetTime"@,
        "periodEndTime"@,
        "billingCycleEnd"@,
        "billCycleEndTime"@,
        "expireTime"@,
        "expirationTime"@,
        "endTime"@,
        "validEndTime"@,
        "instanceEndTime"@,
        "EndTime"@,
        "cycleEndTime"@,
        "CycleEndTime"@,
        "nearestExpireDate"@,
        "NearestExpireDate"@,
    ]
}

pub(crate) fn reset_keys() -> (r: Vec<&'static str>)
    ensures
        r.deep_view() == reset_names(),
{
    let r = vec![
        "nextRefreshTime",
        "resetTime",
        "periodEndTime",
        "billingCycleEnd",
        "billCycleEndTime",
        "expireTime",
        "expirationTime",
        "endTime",
        "validEndTime",
        "instanceEndTime",
        "EndTime",
        "cycleEndTime",
        "CycleEndTime",
        "nearestExpireDate",
        "NearestExpireDate",
    ];
    assert(r.deep_view() =~= reset_names());
    r
}

/// Keys that may hold an amount of quota.
pub open spec fn quota_names() -> Seq<Seq<char>> {
    used_names() + total_names() + remaining_names()
}

/// Keys that mark a quota summary.
pub open spec fn summary_names() -> Seq<Seq<char>> {
    quota_names() + count_names()
}

pub(crate) fn quota_keys() -> (r: Vec<&'static str>)
    ensures
        r.deep_view() == quota_names(),
{
    let mut r = used_keys();
    let mut total = total_keys();
    let mut remaining = remaining_keys();
    let ghost first = r.deep_view();
    let ghost second = total.deep_view();
    let ghost third = remaining.deep_view();
    r.append(&mut total);
    assert(r.deep_view() =~= first + second);
    r.append(&mut remaining);
    assert(r.deep_view() =~= first + second + third);
    r
}

pub(crate) fn summary_keys() -> (r: Vec<&'static str>)
    ensures
        r.deep_view() == summary_names(),
{
    let mut r = quota_keys();
    let mut count = count_keys();
    let ghost first = r.deep_view();
    let ghost second = count.deep_view();
    r.append(&mut count);
    assert(r.deep_view() =~= first + second);
    r
}

} // verus!
