//! Names of the fields that a Synthetic quota may use.

use vstd::prelude::*;

verus! {

/// Fields that may hold a used percentage, in order.
pub open spec fn percent_used_keys() -> Seq<Seq<char>> {
    seq!["percentUsed"@, "usedPercent"@, "usagePercent"@, "usage_percent"@, "used_percent"@, "percent_used"@, "percent"@]
}

/// Fields that may hold a used percentage, in order.
pub fn percent_used_keys_list() -> (r: Vec<&'static str>)
    ensures
        r.deep_view() == percent_used_keys(),
{
    let r = vec!["percentUsed", "usedPercent", "usagePercent", "usage_percent", "used_percent", "percent_used", "percent"];
    assert(r.deep_view() =~= percent_used_keys());
    r
}

/// Fields that may hold a remaining percentage, in order.
pub open spec fn percent_remaining_keys() -> Seq<Seq<char>> {
    seq!["percentRemaining"@, "remainingPercent"@, "remaining_percent"@, "percent_remaining"@]
}

/// Fields that may hold a remaining percentage, in order.
pub fn percent_remaining_keys_list() -> (r: Vec<&'static str>)
    ensures
        r.deep_view() == percent_remaining_keys(),
{
    let r = vec!["percentRemaining", "remainingPercent", "remaining_percent", "percent_remaining"];
    assert(r.deep_view() =~= percent_remaining_keys());
    r
}

/// Fields that may hold a limit, in order.
pub open spec fn limit_keys() -> Seq<Seq<char>> {
    seq!["limit"@, "messageLimit"@, "message_limit"@, "messages"@, "maxRequests"@, "max_requests"@, "requestLimit"@, "request_limit"@, "quota"@, "max"@, "total"@, "capacity"@, "allowance"@]
}

/// Fields that may hold a limit, in order.
pub fn limit_keys_list() -> (r: Vec<&'static str>)
    ensures
        r.deep_view() == limit_keys(),
{
    let r = vec!["limit", "messageLimit", "message_limit", "messages", "maxRequests", "max_requests", "requestLimit", "request_limit", "quota", "max", "total", "capacity", "allowance"];
    assert(r.deep_view() =~= limit_keys());
    r
}

/// Fields that may hold a used count, in order.
pub open spec fn used_keys() -> Seq<Seq<char>> {
    seq!["used"@, "usage"@, "usedMessages"@, "used_messages"@, "messagesUsed"@, "messages_used"@, "requests"@, "requestCount"@, "request_count"@, "consumed"@, "spent"@]
}

/// Fields that may hold a used count, in order.
pub fn used_keys_list() -> (r: Vec<&'static str>)
    ensures
        r.deep_view() == used_keys(),
{
    let r = vec!["used", "usage", "usedMessages", "used_messages", "messagesUsed", "messages_used", "requests", "requestCount", "request_count", "consumed", "spent"];
    assert(r.deep_view() =~= used_keys());
    r
}

/// Fields that may hold a remaining count, in order.
pub open spec fn remaining_keys() -> Seq<Seq<char>> {
    seq!["remaining"@, "left"@, "available"@, "balance"@]
}

/// Fields that may hold a remaining count, in order.
pub fn remaining_keys_list() -> (r: Vec<&'static str>)
    ensures
        r.deep_view() == remaining_keys(),
{
    let r = vec!["remaining", "left", "available", "balance"];
    assert(r.deep_view() =~= remaining_keys());
    r
}

/// Fields that may hold a reset, in order.
pub open spec fn reset_keys() -> Seq<Seq<char>> {
    seq!["resetAt"@, "reset_at"@, "resetsAt"@, "resets_at"@, "renewAt"@, "renew_at"@, "renewsAt"@, "renews_at"@, "nextTickAt"@, "next_tick_at"@, "nextRegenAt"@, "next_regen_at"@, "periodEnd"@, "period_end"@, "expiresAt"@, "expires_at"@, "endAt"@, "end_at"@]
}

/// Fields that may hold a reset, in order.
pub fn reset_keys_list() -> (r: Vec<&'static str>)
    ensures
        r.deep_view() == reset_keys(),
{
    let r = vec!["resetAt", "reset_at", "resetsAt", "resets_at", "renewAt", "renew_at", "renewsAt", "renews_at", "nextTickAt", "next_tick_at", "nextRegenAt", "next_regen_at", "periodEnd", "period_end", "expiresAt", "expires_at", "endAt", "end_at"];
    assert(r.deep_view() =~= reset_keys());
    r
}

/// Fields that may name the plan, in order.
pub open spec fn plan_keys() -> Seq<Seq<char>> {
    seq!["plan"@, "planName"@, "plan_name"@, "subscription"@, "subscriptionPlan"@, "tier"@, "package"@, "packageName"@]
}

/// Fields that may name the plan, in order.
pub fn plan_keys_list() -> (r: Vec<&'static str>)
    ensures
        r.deep_view() == plan_keys(),
{
    let r = vec!["plan", "planName", "plan_name", "subscription", "subscriptionPlan", "tier", "package", "packageName"];
    assert(r.deep_view() =~= plan_keys());
    r
}

/// Fields that may hold quotas, in order.
pub open spec fn container_keys() -> Seq<Seq<char>> {
    seq!["quotas"@, "quota"@, "limits"@, "usage"@, "entries"@, "subscription"@]
}

/// Fields that may hold quotas, in order.
pub fn container_keys_list() -> (r: Vec<&'static str>)
    ensures
        r.deep_view() == container_keys(),
{
    let r = vec!["quotas", "quota", "limits", "usage", "entries", "subscription"];
    assert(r.deep_view() =~= container_keys());
    r
}

/// Fields that may hold the percentage given back next, in order.
pub open spec fn tick_keys() -> Seq<Seq<char>> {
    seq!["tickPercent"@, "tick_percent"@, "nextTickPercent"@, "next_tick_percent"@]
}

/// Fields that may hold the percentage given back next, in order.
pub fn tick_keys_list() -> (r: Vec<&'static str>)
    ensures
        r.deep_view() == tick_keys(),
{
    let r = vec!["tickPercent", "tick_percent", "nextTickPercent", "next_tick_percent"];
    assert(r.deep_view() =~= tick_keys());
    r
}

/// Fields that may hold the credits in all, in order.
pub open spec fn max_credit_keys() -> Seq<Seq<char>> {
    seq!["maxCredits"@, "max_credits"@]
}

/// Fields that may hold the credits in all, in order.
pub fn max_credit_keys_list() -> (r: Vec<&'static str>)
    ensures
        r.deep_view() == max_credit_keys(),
{
    let r = vec!["maxCredits", "max_credits"];
    assert(r.deep_view() =~= max_credit_keys());
    r
}

/// Fields that may hold the credits left, in order.
pub open spec fn remaining_credit_keys() -> Seq<Seq<char>> {
    seq!["remainingCredits"@, "remaining_credits"@]
}

/// Fields that may hold the credits left, in order.
pub fn remaining_credit_keys_list() -> (r: Vec<&'static str>)
    ensures
        r.deep_view() == remaining_credit_keys(),
{
    let r = vec!["remainingCredits", "remaining_credits"];
    assert(r.deep_view() =~= remaining_credit_keys());
    r
}

/// Fields that may hold the credits used, in order.
pub open spec fn used_credit_keys() -> Seq<Seq<char>> {
    seq!["usedCredits"@, "used_credits"@]
}

/// Fields that may hold the credits used, in order.
pub fn used_credit_keys_list() -> (r: Vec<&'static str>)
    ensures
        r.deep_view() == used_credit_keys(),
{
    let r = vec!["usedCredits", "used_credits"];
    assert(r.deep_view() =~= used_credit_keys());
    r
}

/// Fields that may hold the credits given back next, in order.
pub open spec fn regen_credit_keys() -> Seq<Seq<char>> {
    seq!["nextRegenCredits"@, "next_regen_credits"@]
}

/// Fields that may hold the credits given back next, in order.
pub fn regen_credit_keys_list() -> (r: Vec<&'static str>)
    ensures
        r.deep_view() == regen_credit_keys(),
{
    let r = vec!["nextRegenCredits", "next_regen_credits"];
    assert(r.deep_view() =~= regen_credit_keys());
    r
}

/// Fields that may hold a window in minutes, in order.
pub open spec fn window_minute_keys() -> Seq<Seq<char>> {
    seq!["windowMinutes"@, "window_minutes"@, "periodMinutes"@, "period_minutes"@]
}

/// Fields that may hold a window in minutes, in order.
pub fn window_minute_keys_list() -> (r: Vec<&'static str>)
    ensures
        r.deep_view() == window_minute_keys(),
{
    let r = vec!["windowMinutes", "window_minutes", "periodMinutes", "period_minutes"];
    assert(r.deep_view() =~= window_minute_keys());
    r
}

/// Fields that may hold a window in hours, in order.
pub open spec fn window_hour_keys() -> Seq<Seq<char>> {
    seq!["windowHours"@, "window_hours"@, "periodHours"@, "period_hours"@]
}

/// Fields that may hold a window in hours, in order.
pub fn window_hour_keys_list() -> (r: Vec<&'static str>)
    ensures
        r.deep_view() == window_hour_keys(),
{
    let r = vec!["windowHours", "window_hours", "periodHours", "period_hours"];
    assert(r.deep_view() =~= window_hour_keys());
    r
}

/// Fields that may hold a window in days, in order.
pub open spec fn window_day_keys() -> Seq<Seq<char>> {
    seq!["windowDays"@, "window_days"@, "periodDays"@, "period_days"@]
}

/// Fields that may hold a window in days, in order.
pub fn window_day_keys_list() -> (r: Vec<&'static str>)
    ensures
        r.deep_view() == window_day_keys(),
{
    let r = vec!["windowDays", "window_days", "periodDays", "period_days"];
    assert(r.deep_view() =~= window_day_keys());
    r
}

/// Fields that may hold a window in seconds, in order.
pub open spec fn window_second_keys() -> Seq<Seq<char>> {
    seq!["windowSeconds"@, "window_seconds"@, "periodSeconds"@, "period_seconds"@]
}

/// Fields that may hold a window in seconds, in order.
pub fn window_second_keys_list() -> (r: Vec<&'static str>)
    ensures
        r.deep_view() == window_second_keys(),
{
    let r = vec!["windowSeconds", "window_seconds", "periodSeconds", "period_seconds"];
    assert(r.deep_view() =~= window_second_keys());
    r
}

/// Fields that may describe a window, in order.
pub open spec fn window_text_keys() -> Seq<Seq<char>> {
    seq!["window"@, "windowLabel"@, "window_label"@, "period"@, "periodLabel"@, "period_label"@]
}

/// Fields that may describe a window, in order.
pub fn window_text_keys_list() -> (r: Vec<&'static str>)
    ensures
        r.deep_view() == window_text_keys(),
{
    let r = vec!["window", "windowLabel", "window_label", "period", "periodLabel", "period_label"];
    assert(r.deep_view() =~= window_text_keys());
    r
}

} // verus!
