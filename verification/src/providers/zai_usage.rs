//! z.ai quota limits, their windows and the rows that show them.

use vstd::prelude::*;

use crate::decimal;
use crate::error;
use crate::error::{ClassifiedError, ErrorKind};
use crate::instant;
use crate::instant::{Civil, Timestamp};
use crate::json;
use crate::json::{Json, Tree};
use crate::text;
use crate::usage;
use crate::usage::{DetailRow, DetailSensitivity, NamedWindow, RateWindow, RowView, Share, WindowView};

verus! {

pub const MAX_MCP_ROWS: usize = 20;

pub const MAX_QUOTA_ROWS: usize = 24;

/// What a limit counts.
#[derive(Debug, Clone, Copy, PartialEq, Eq, Structural)]
pub enum LimitKind {
    Tokens,
    Credit,
    Time,
}

/// A limit of an account.
pub struct ParsedLimit {
    pub kind: LimitKind,
    pub unit: i64,
    pub number: i64,
    pub usage: Option<i64>,
    pub remaining: Option<i64>,
    pub share: Share,
    pub window_minutes: Option<i64>,
    pub reset_millis: Option<i64>,
    pub usage_details: Vec<(String, i64)>,
}

/// Mathematical value of a [`ParsedLimit`].
pub struct LimitValue {
    pub kind: LimitKind,
    pub unit: i64,
    pub number: i64,
    pub usage: Option<i64>,
    pub remaining: Option<i64>,
    pub share: Share,
    pub window_minutes: Option<i64>,
    pub reset_millis: Option<i64>,
    pub usage_details: Seq<(Seq<char>, i64)>,
}

/// The values of name and count pairs.
pub open spec fn pair_values(pairs: Seq<(String, i64)>) -> Seq<(Seq<char>, i64)> {
    Seq::new(pairs.len(), |i: int| (pairs[i].0@, pairs[i].1))
}

impl ParsedLimit {
    pub open spec fn value(self) -> LimitValue {
        LimitValue {
            kind: self.kind,
            unit: self.unit,
            number: self.number,
            usage: self.usage,
            remaining: self.remaining,
            share: self.share,
            window_minutes: self.window_minutes,
            reset_millis: self.reset_millis,
            usage_details: pair_values(self.usage_details@),
        }
    }
}

/// The values of limits.
pub open spec fn limit_values(limits: Seq<ParsedLimit>) -> Seq<LimitValue> {
    Seq::new(limits.len(), |i: int| limits[i].value())
}

/// The plan and the limits of an account.
pub struct ParsedQuota {
    pub plan: Option<String>,
    pub limits: Vec<ParsedLimit>,
}

/// The whole number that a value holds.
pub open spec fn integer_of(t: Tree) -> Option<i64> {
    match t {
        Tree::Number(n) => match decimal::number_decimal(n) {
            Some(d) => if d.integral() && i64::MIN <= d.truncated() <= i64::MAX {
                Some(d.truncated() as i64)
            } else {
                None
            },
            None => None,
        },
        _ => None,
    }
}

/// The whole number that a value holds.
pub fn json_integer(value: &Json) -> (r: Option<i64>)
    ensures
        r == integer_of(value.tree()),
{
    match value {
        Json::Number(n) => match decimal::from_number(n.as_str()) {
            Some(d) => if d.is_integral() {
                d.to_i64()
            } else {
                None
            },
            None => None,
        },
        _ => None,
    }
}

/// The whole number of a field.
pub open spec fn integer_field(t: Tree, key: Seq<char>) -> Option<i64> {
    match json::field(t, key) {
        Some(value) => integer_of(value),
        None => None,
    }
}

/// The whole number of a field that has to be there.
pub fn required_integer(raw: &Json, key: &str) -> (r: Result<i64, ClassifiedError>)
    ensures
        match r {
            Ok(n) => integer_field(raw.tree(), key@) == Some(n),
            Err(e) => integer_field(raw.tree(), key@) is None && e == error::plain(
                ErrorKind::Parse,
            ),
        },
{
    match raw.get(key) {
        Some(value) => match json_integer(value) {
            Some(n) => Ok(n),
            None => Err(ClassifiedError::new(ErrorKind::Parse)),
        },
        None => Err(ClassifiedError::new(ErrorKind::Parse)),
    }
}

/// The whole number of a field that may be absent: `Some(None)` where it is, and
/// `None` where it holds something else.
pub open spec fn integer_if_any(t: Tree, key: Seq<char>) -> Option<Option<i64>> {
    match json::field(t, key) {
        None | Some(Tree::Null) => Some(None),
        Some(value) => match integer_of(value) {
            Some(n) => Some(Some(n)),
            None => None,
        },
    }
}

/// The whole number of a field that may be absent.
pub fn optional_integer(raw: &Json, key: &str) -> (r: Result<Option<i64>, ClassifiedError>)
    ensures
        match r {
            Ok(n) => integer_if_any(raw.tree(), key@) == Some(n),
            Err(e) => integer_if_any(raw.tree(), key@) is None && e == error::plain(
                ErrorKind::Parse,
            ),
        },
{
    match raw.get(key) {
        None => Ok(None),
        Some(Json::Null) => Ok(None),
        Some(value) => match json_integer(value) {
            Some(n) => Ok(Some(n)),
            None => Err(ClassifiedError::new(ErrorKind::Parse)),
        },
    }
}

/// Whether an answer reports success.
pub open spec fn answered(root: Tree) -> bool {
    root is Object && json::field(root, "success"@) == Some(Tree::Bool(true)) && integer_field(
        root,
        "code"@,
    ) == Some(200i64)
}

/// Whether an answer reports success.
pub fn is_answered(root: &Json) -> (r: bool)
    ensures
        r == answered(root.tree()),
{
    if !root.is_object() {
        return false;
    }
    let success = match root.get("success") {
        Some(Json::Bool(success)) => *success,
        _ => false,
    };
    if !success {
        return false;
    }
    match root.get("code") {
        Some(code) => match json_integer(code) {
            Some(n) => n == 200,
            None => false,
        },
        None => false,
    }
}

/// The entries of an array; no entries of anything else.
pub open spec fn entries_of(t: Option<Tree>) -> Seq<Tree> {
    match t {
        Some(Tree::Array(items)) => items,
        _ => seq![],
    }
}

/// The entries of an array; no entries of anything else.
pub fn entries<'a>(value: Option<&'a Json>) -> (r: Vec<&'a Json>)
    ensures
        json::trees(r@) == (match value {
            Some(v) => entries_of(Some(v.tree())),
            None => seq![],
        }),
{
    let mut r: Vec<&'a Json> = Vec::new();
    match value {
        Some(Json::Array(items)) => {
            let ghost all = entries_of(Some(value->0.tree()));
            let mut i: usize = 0;
            assert(json::trees(r@) =~= all.take(0));
            while i < items.len()
                invariant
                    value is Some,
                    *value->0 == Json::Array(*items),
                    all == entries_of(Some(value->0.tree())),
                    all.len() == items@.len(),
                    i <= items@.len(),
                    json::trees(r@) == all.take(i as int),
                decreases items@.len() - i,
            {
                assert(all[i as int] == items@[i as int].tree());
                let ghost before = json::trees(r@);
                let item: &Json = &items[i];
                r.push(item);
                assert(json::trees(r@) =~= before.push(all[i as int]));
                i += 1;
                assert(json::trees(r@) =~= all.take(i as int));
            }
            assert(all.take(i as int) =~= all);
        },
        _ => {
            assert(json::trees(r@) =~= seq![]);
        },
    }
    r
}

/// The kind that a limit's type names: `Some(None)` for an unknown type, `None`
/// where there is none.
pub open spec fn kind_of(t: Tree) -> Option<Option<LimitKind>> {
    match json::field(t, "type"@) {
        Some(Tree::Text(s)) => Some(
            if s == "TOKENS_LIMIT"@ {
                Some(LimitKind::Tokens)
            } else if s == "CREDIT_LIMIT"@ {
                Some(LimitKind::Credit)
            } else if s == "TIME_LIMIT"@ {
                Some(LimitKind::Time)
            } else {
                None
            },
        ),
        _ => None,
    }
}

/// How many of a total are used: the larger of the used count and of what does
/// not remain, within the total.
pub open spec fn used_count(total: i64, current: Option<i64>, remaining: Option<i64>) -> Option<int> {
    let used = match (remaining, current) {
        (Some(r), Some(c)) => Some(
            if total - r >= c {
                total - r
            } else {
                c as int
            },
        ),
        (Some(r), None) => Some(total - r),
        (None, Some(c)) => Some(c as int),
        (None, None) => None,
    };
    match used {
        Some(u) => Some(
            if u < 0 {
                0int
            } else if u > total {
                total as int
            } else {
                u
            },
        ),
        None => None,
    }
}

/// The used share of a limit: counted where the total is known, or else the
/// stated percentage within its range.
pub open spec fn share_of(
    percentage: i64,
    total: Option<i64>,
    current: Option<i64>,
    remaining: Option<i64>,
) -> Share {
    let stated = Share::Percent(
        if percentage < 0 {
            0
        } else if percentage > 100 {
            100
        } else {
            percentage as u64
        },
    );
    match total {
        Some(t) => if t > 0 && used_count(t, current, remaining) is Some {
            Share::Count { used: used_count(t, current, remaining)->0 as i64, total: t }
        } else {
            stated
        },
        None => stated,
    }
}

fn compute_share(
    percentage: i64,
    total: Option<i64>,
    current: Option<i64>,
    remaining: Option<i64>,
) -> (r: Share)
    ensures
        r == share_of(percentage, total, current, remaining),
{
    if let Some(t) = total {
        if t > 0 {
            let used: Option<i128> = match (remaining, current) {
                (Some(rest), Some(c)) => {
                    let derived: i128 = t as i128 - rest as i128;
                    Some(
                        if derived >= c as i128 {
                            derived
                        } else {
                            c as i128
                        },
                    )
                },
                (Some(rest), None) => Some(t as i128 - rest as i128),
                (None, Some(c)) => Some(c as i128),
                (None, None) => None,
            };
            if let Some(u) = used {
                let within: i64 = if u < 0 {
                    0
                } else if u > t as i128 {
                    t
                } else {
                    u as i64
                };
                return Share::Count { used: within, total: t };
            }
        }
    }
    let stated: u64 = if percentage < 0 {
        0
    } else if percentage > 100 {
        100
    } else {
        percentage as u64
    };
    Share::Percent(stated)
}

/// With a total, the used count covers the stated used count and what does not
/// remain, is one of the two unless the total or zero limits it, and is the stated
/// count where both agree. Without a count or a total, the stated percentage holds.
pub proof fn law_used_covers_both_counts(
    percentage: i64,
    total: i64,
    current: Option<i64>,
    remaining: Option<i64>,
)
    ensures
        total > 0 && (current is Some || remaining is Some) ==> {
            &&& share_of(percentage, Some(total), current, remaining) matches Share::Count {
                used,
                total: all,
            }
            &&& all == total
            &&& 0 <= used <= total
            &&& current is Some ==> used >= current->0 || used == total
            &&& remaining is Some ==> used + remaining->0 >= total || used == total
            &&& current is Some && used == current->0 || remaining is Some && used + remaining->0
                == total || used == 0 && (current is Some ==> current->0 < 0) && (remaining is Some
                ==> remaining->0 > total) || used == total && (current is Some && current->0 > total
                || remaining is Some && remaining->0 < 0)
            &&& current is Some && remaining is Some && current->0 + remaining->0 == total && 0
                <= current->0 <= total ==> used == current->0
        },
        current is None && remaining is None || total <= 0 ==> {
            &&& share_of(percentage, Some(total), current, remaining) matches Share::Percent(shown)
            &&& shown <= 100
            &&& 0 <= percentage <= 100 ==> shown == percentage
            &&& percentage < 0 ==> shown == 0
            &&& percentage > 100 ==> shown == 100
        },
        share_of(percentage, None, current, remaining) == share_of(percentage, Some(0), None, None),
{
}

/// Minutes of a window's unit.
pub open spec fn unit_minutes(unit: i64) -> Option<i64> {
    if unit == 1 {
        Some(1440i64)
    } else if unit == 3 {
        Some(60i64)
    } else if unit == 5 {
        Some(1i64)
    } else if unit == 6 {
        Some(10080i64)
    } else {
        None
    }
}

/// The length of a window in minutes: `Some(None)` where it has none, `None`
/// where it does not fit.
pub open spec fn minutes_of(unit: i64, number: i64) -> Option<Option<i64>> {
    match unit_minutes(unit) {
        Some(m) => if number <= 0 {
            Some(None)
        } else if number * m <= i64::MAX {
            Some(Some((number * m) as i64))
        } else {
            None
        },
        None => Some(None),
    }
}

fn compute_minutes(unit: i64, number: i64) -> (r: Option<Option<i64>>)
    ensures
        r == minutes_of(unit, number),
{
    let minutes: i64 = match unit {
        1 => 1440,
        3 => 60,
        5 => 1,
        6 => 10080,
        _ => return Some(None),
    };
    if number <= 0 {
        return Some(None);
    }
    assert(number * minutes >= 0) by (nonlinear_arith)
        requires
            number > 0,
            minutes > 0,
    ;
    match number.checked_mul(minutes) {
        Some(product) => Some(Some(product)),
        None => None,
    }
}

/// The model and the count of one usage detail.
pub open spec fn detail_of(t: Tree) -> Option<(Seq<char>, i64)> {
    match (json::field(t, "modelCode"@), json::field(t, "usage"@)) {
        (Some(Tree::Text(model)), Some(usage)) => match integer_of(usage) {
            Some(n) => Some((model, n)),
            None => None,
        },
        _ => None,
    }
}

/// The readable details among the first `n`.
pub open spec fn details_of(items: Seq<Tree>, n: int) -> Seq<(Seq<char>, i64)>
    decreases n,
{
    if n <= 0 {
        seq![]
    } else {
        match detail_of(items[n - 1]) {
            Some(detail) => details_of(items, n - 1).push(detail),
            None => details_of(items, n - 1),
        }
    }
}

fn read_details(items: &Vec<&Json>) -> (r: Vec<(String, i64)>)
    ensures
        pair_values(r@) == details_of(json::trees(items@), items@.len() as int),
{
    let mut r: Vec<(String, i64)> = Vec::new();
    let ghost all = json::trees(items@);
    let mut i: usize = 0;
    assert(pair_values(r@) =~= details_of(all, 0));
    while i < items.len()
        invariant
            i <= items@.len(),
            all == json::trees(items@),
            pair_values(r@) == details_of(all, i as int),
        decreases items@.len() - i,
    {
        let item: &Json = items[i];
        assert(all[i as int] == item.tree());
        let ghost before = pair_values(r@);
        if let Some(Json::Text(model)) = item.get("modelCode") {
            if let Some(usage) = item.get("usage") {
                if let Some(n) = json_integer(usage) {
                    r.push((model.clone(), n));
                    assert(pair_values(r@) =~= before.push((model@, n)));
                }
            }
        }
        i += 1;
    }
    r
}

/// The limit that an entry holds: `Some(None)` for an unknown type, `None` where
/// the entry is malformed.
pub open spec fn limit_of(t: Tree) -> Option<Option<LimitValue>> {
    match (
        kind_of(t),
        integer_field(t, "unit"@),
        integer_field(t, "number"@),
        integer_field(t, "percentage"@),
    ) {
        (Some(None), Some(_), Some(_), Some(_)) => Some(None),
        (Some(Some(kind)), Some(unit), Some(number), Some(percentage)) => match (
            integer_if_any(t, "usage"@),
            integer_if_any(t, "currentValue"@),
            integer_if_any(t, "remaining"@),
            integer_if_any(t, "nextResetTime"@),
            minutes_of(unit, number),
        ) {
            (Some(usage), Some(current), Some(remaining), Some(reset), Some(minutes)) => {
                let details = json::field(t, "usageDetails"@);
                if details is None || details == Some(Tree::Null) || details->0 is Array {
                    let items = entries_of(details);
                    Some(
                        Some(
                            LimitValue {
                                kind,
                                unit,
                                number,
                                usage,
                                remaining,
                                share: share_of(percentage, usage, current, remaining),
                                window_minutes: minutes,
                                reset_millis: reset,
                                usage_details: details_of(items, items.len() as int),
                            },
                        ),
                    )
                } else {
                    None
                }
            },
            _ => None,
        },
        _ => None,
    }
}

/// The limit that an entry holds.
pub fn parse_limit(raw: &Json) -> (r: Result<Option<ParsedLimit>, ClassifiedError>)
    ensures
        match r {
            Ok(Some(limit)) => limit_of(raw.tree()) == Some(Some(limit.value())),
            Ok(None) => limit_of(raw.tree()) == Some(None::<LimitValue>),
            Err(e) => limit_of(raw.tree()) is None && e == error::plain(ErrorKind::Parse),
        },
{
    let kind = match raw.get("type") {
        Some(Json::Text(s)) => if text::same_text(s.as_str(), "TOKENS_LIMIT") {
            Some(LimitKind::Tokens)
        } else if text::same_text(s.as_str(), "CREDIT_LIMIT") {
            Some(LimitKind::Credit)
        } else if text::same_text(s.as_str(), "TIME_LIMIT") {
            Some(LimitKind::Time)
        } else {
            None
        },
        _ => return Err(ClassifiedError::new(ErrorKind::Parse)),
    };
    let unit: i64 = required_integer(raw, "unit")?;
    let number: i64 = required_integer(raw, "number")?;
    let percentage: i64 = required_integer(raw, "percentage")?;
    let kind = match kind {
        Some(kind) => kind,
        None => return Ok(None),
    };
    let usage = optional_integer(raw, "usage")?;
    let current = optional_integer(raw, "currentValue")?;
    let remaining = optional_integer(raw, "remaining")?;
    let reset_millis = optional_integer(raw, "nextResetTime")?;
    let window_minutes = match compute_minutes(unit, number) {
        Some(minutes) => minutes,
        None => return Err(ClassifiedError::new(ErrorKind::Parse)),
    };
    let details = raw.get("usageDetails");
    match details {
        None => {},
        Some(Json::Null) => {},
        Some(Json::Array(_)) => {},
        Some(_) => return Err(ClassifiedError::new(ErrorKind::Parse)),
    }
    let items = entries(details);
    let usage_details = read_details(&items);
    assert(items@.len() == json::trees(items@).len());
    Ok(
        Some(
            ParsedLimit {
                kind,
                unit,
                number,
                usage,
                remaining,
                share: compute_share(percentage, usage, current, remaining),
                window_minutes,
                reset_millis,
                usage_details,
            },
        ),
    )
}

/// The limits of the first `n` entries; `None` where one of them is malformed.
pub open spec fn limits_of(items: Seq<Tree>, n: int) -> Option<Seq<LimitValue>>
    decreases n,
{
    if n <= 0 {
        Some(seq![])
    } else {
        match (limits_of(items, n - 1), limit_of(items[n - 1])) {
            (Some(before), Some(Some(limit))) => Some(before.push(limit)),
            (Some(before), Some(None)) => Some(before),
            _ => None,
        }
    }
}

proof fn lemma_limits_failure(items: Seq<Tree>, n: int, m: int)
    requires
        n <= m,
        limits_of(items, n) is None,
    ensures
        limits_of(items, m) is None,
    decreases m - n,
{
    if n < m {
        lemma_limits_failure(items, n, m - 1);
    }
}

/// The fields that may name the plan, in order.
pub open spec fn plan_keys() -> Seq<Seq<char>> {
    seq!["planName"@, "plan"@, "plan_type"@, "packageName"@, "level"@]
}

/// The plan of the first field at or behind `from` that names one.
pub open spec fn plan_from(data: Tree, keys: Seq<Seq<char>>, from: int) -> Option<Seq<char>>
    decreases keys.len() - from,
{
    if from < 0 || from >= keys.len() {
        None
    } else {
        match json::field(data, keys[from]) {
            Some(Tree::Text(s)) => if text::trimmed(s).len() > 0 {
                Some(text::trimmed(s))
            } else {
                plan_from(data, keys, from + 1)
            },
            _ => plan_from(data, keys, from + 1),
        }
    }
}

fn read_plan(data: &Json) -> (r: Option<String>)
    ensures
        r.deep_view() == plan_from(data.tree(), plan_keys(), 0),
{
    let keys = vec!["planName", "plan", "plan_type", "packageName", "level"];
    assert(keys.deep_view() =~= plan_keys());
    let mut i: usize = 0;
    while i < keys.len()
        invariant
            i <= keys@.len(),
            keys.deep_view() == plan_keys(),
            plan_from(data.tree(), plan_keys(), 0) == plan_from(data.tree(), plan_keys(), i as int),
        decreases keys@.len() - i,
    {
        assert(plan_keys()[i as int] == keys@[i as int]@);
        if let Some(Json::Text(s)) = data.get(keys[i]) {
            let plan = text::trim_text(s.as_str());
            if !plan.as_str().is_empty() {
                return Some(plan);
            }
        }
        i += 1;
    }
    None
}

/// The failure of a quota answer.
pub open spec fn quota_failure(root: Tree) -> Option<ErrorKind> {
    if !answered(root) {
        Some(ErrorKind::Api)
    } else {
        match json::field(root, "data"@) {
            Some(data) => match json::field(data, "limits"@) {
                Some(Tree::Array(items)) => if limits_of(items, items.len() as int) is None {
                    Some(ErrorKind::Parse)
                } else {
                    None
                },
                _ => Some(ErrorKind::Parse),
            },
            None => Some(ErrorKind::Parse),
        }
    }
}

impl ParsedQuota {
    /// The plan and the limits of a quota answer.
    pub fn parse(root: &Json) -> (r: Result<ParsedQuota, ClassifiedError>)
        ensures
            match r {
                Ok(quota) => quota_failure(root.tree()) is None && ({
                    let data = json::field(root.tree(), "data"@)->0;
                    let items = entries_of(json::field(data, "limits"@));
                    &&& limits_of(items, items.len() as int) == Some(limit_values(quota.limits@))
                    &&& quota.plan.deep_view() == plan_from(data, plan_keys(), 0)
                }),
                Err(e) => quota_failure(root.tree()) is Some && e == error::plain(
                    quota_failure(root.tree())->0,
                ),
            },
    {
        if !is_answered(root) {
            return Err(ClassifiedError::new(ErrorKind::Api));
        }
        let data = match root.get("data") {
            Some(data) => data,
            None => return Err(ClassifiedError::new(ErrorKind::Parse)),
        };
        let raw = data.get("limits");
        match raw {
            Some(Json::Array(_)) => {},
            _ => return Err(ClassifiedError::new(ErrorKind::Parse)),
        }
        let items = entries(raw);
        let ghost all = json::trees(items@);
        let mut limits: Vec<ParsedLimit> = Vec::new();
        let mut i: usize = 0;
        assert(limit_values(limits@) =~= seq![]);
        while i < items.len()
            invariant
                i <= items@.len(),
                all == json::trees(items@),
                answered(root.tree()),
                json::field(root.tree(), "data"@) == Some(data.tree()),
                json::field(data.tree(), "limits"@) == Some(Tree::Array(all)),
                limits_of(all, i as int) == Some(limit_values(limits@)),
            decreases items@.len() - i,
        {
            let item: &Json = items[i];
            assert(all[i as int] == item.tree());
            let ghost before = limit_values(limits@);
            match parse_limit(item) {
                Ok(Some(limit)) => {
                    limits.push(limit);
                    assert(limit_values(limits@) =~= before.push(limit.value()));
                },
                Ok(None) => {},
                Err(e) => {
                    proof {
                        lemma_limits_failure(all, i as int + 1, all.len() as int);
                    }
                    return Err(e);
                },
            }
            i += 1;
        }
        let plan = read_plan(data);
        Ok(ParsedQuota { plan, limits })
    }
}

/// Whether a limit is a quota and not a time limit.
pub open spec fn is_quota(limit: LimitValue) -> bool {
    limit.kind != LimitKind::Time
}

/// What orders quotas: their windows, those without one last.
pub open spec fn order_key(limit: LimitValue) -> i64 {
    match limit.window_minutes {
        Some(m) => m,
        None => i64::MAX,
    }
}

/// The quota with the longest window among the first `n`, the last of equals.
pub open spec fn longest(limits: Seq<LimitValue>, n: int) -> Option<int>
    decreases n,
{
    if n <= 0 {
        None
    } else {
        let before = longest(limits, n - 1);
        if is_quota(limits[n - 1]) && (before is None || order_key(limits[n - 1]) >= order_key(
            limits[before->0],
        )) {
            Some(n - 1)
        } else {
            before
        }
    }
}

/// The quota with the shortest window among the first `n`, the first of equals.
pub open spec fn shortest(limits: Seq<LimitValue>, n: int) -> Option<int>
    decreases n,
{
    if n <= 0 {
        None
    } else {
        let before = shortest(limits, n - 1);
        if is_quota(limits[n - 1]) && (before is None || order_key(limits[n - 1]) < order_key(
            limits[before->0],
        )) {
            Some(n - 1)
        } else {
            before
        }
    }
}

/// How many of the first `n` limits are quotas.
pub open spec fn quota_count(limits: Seq<LimitValue>, n: int) -> nat
    decreases n,
{
    if n <= 0 {
        0
    } else {
        quota_count(limits, n - 1) + (if is_quota(limits[n - 1]) {
            1nat
        } else {
            0
        })
    }
}

/// The last time limit among the first `n`.
pub open spec fn last_time(limits: Seq<LimitValue>, n: int) -> Option<int>
    decreases n,
{
    if n <= 0 {
        None
    } else if limits[n - 1].kind == LimitKind::Time {
        Some(n - 1)
    } else {
        last_time(limits, n - 1)
    }
}

proof fn lemma_extremes(limits: Seq<LimitValue>, n: int)
    requires
        0 <= n <= limits.len(),
    ensures
        longest(limits, n) is Some <==> quota_count(limits, n) > 0,
        shortest(limits, n) is Some <==> quota_count(limits, n) > 0,
        quota_count(limits, n) == 0 ==> forall|i: int|
            0 <= i < n ==> !is_quota(#[trigger] limits[i]),
        longest(limits, n) matches Some(k) ==> 0 <= k < n && is_quota(limits[k]) && (forall|i: int|
            0 <= i < n && is_quota(#[trigger] limits[i]) ==> order_key(limits[i]) <= order_key(
                limits[k],
            )),
        shortest(limits, n) matches Some(k) ==> 0 <= k < n && is_quota(limits[k]) && (forall|i: int|
            0 <= i < n && is_quota(#[trigger] limits[i]) ==> order_key(limits[k]) <= order_key(
                limits[i],
            )),
    decreases n,
{
    if n > 0 {
        lemma_extremes(limits, n - 1);
    }
}

proof fn lemma_last_time(limits: Seq<LimitValue>, n: int)
    requires
        0 <= n <= limits.len(),
    ensures
        last_time(limits, n) matches Some(k) ==> 0 <= k < n,
    decreases n,
{
    if n > 0 {
        lemma_last_time(limits, n - 1);
    }
}

/// The limits that are shown.
pub struct Selection {
    pub session: Option<usize>,
    pub longest: Option<usize>,
    pub time: Option<usize>,
}

/// An index as a number.
pub open spec fn index_of(at: Option<usize>) -> Option<int> {
    match at {
        Some(i) => Some(i as int),
        None => None,
    }
}

/// Whether a selection is that of these limits: the quota with the longest
/// window, that with the shortest where there are several, and the last time
/// limit.
pub open spec fn selected(limits: Seq<LimitValue>, s: Selection) -> bool {
    let n = limits.len() as int;
    &&& index_of(s.longest) == longest(limits, n)
    &&& index_of(s.session) == (if quota_count(limits, n) >= 2 {
        shortest(limits, n)
    } else {
        None
    })
    &&& index_of(s.time) == last_time(limits, n)
    &&& s.longest matches Some(i) ==> i < n
    &&& s.session matches Some(i) ==> i < n && s.longest is Some
    &&& s.time matches Some(i) ==> i < n
}

/// The session window is the shortest of the quotas and the other the longest.
pub proof fn law_session_is_shortest(limits: Seq<LimitValue>, s: Selection, i: int)
    requires
        selected(limits, s),
        s.session is Some,
        0 <= i < limits.len(),
        is_quota(limits[i]),
    ensures
        order_key(limits[s.session->0 as int]) <= order_key(limits[i]),
        order_key(limits[i]) <= order_key(limits[s.longest->0 as int]),
{
    lemma_extremes(limits, limits.len() as int);
}

/// The limits that are shown.
pub fn select(limits: &Vec<ParsedLimit>) -> (r: Selection)
    ensures
        selected(limit_values(limits@), r),
{
    let ghost all = limit_values(limits@);
    let mut longest_at: Option<usize> = None;
    let mut shortest_at: Option<usize> = None;
    let mut time: Option<usize> = None;
    let mut count: usize = 0;
    let mut i: usize = 0;
    while i < limits.len()
        invariant
            i <= limits@.len(),
            count <= i,
            all == limit_values(limits@),
            index_of(longest_at) == longest(all, i as int),
            index_of(shortest_at) == shortest(all, i as int),
            index_of(time) == last_time(all, i as int),
            count == quota_count(all, i as int),
            longest_at matches Some(k) ==> k < i,
            shortest_at matches Some(k) ==> k < i,
            time matches Some(k) ==> k < i,
        decreases limits@.len() - i,
    {
        assert(all[i as int] == limits@[i as int].value());
        if limits[i].kind == LimitKind::Time {
            time = Some(i);
        } else {
            let key: i64 = match limits[i].window_minutes {
                Some(m) => m,
                None => i64::MAX,
            };
            let longer = match longest_at {
                Some(k) => {
                    assert(all[k as int] == limits@[k as int].value());
                    let other: i64 = match limits[k].window_minutes {
                        Some(m) => m,
                        None => i64::MAX,
                    };
                    key >= other
                },
                None => true,
            };
            let shorter = match shortest_at {
                Some(k) => {
                    assert(all[k as int] == limits@[k as int].value());
                    let other: i64 = match limits[k].window_minutes {
                        Some(m) => m,
                        None => i64::MAX,
                    };
                    key < other
                },
                None => true,
            };
            if longer {
                longest_at = Some(i);
            }
            if shorter {
                shortest_at = Some(i);
            }
            count += 1;
        }
        i += 1;
    }
    proof {
        lemma_extremes(all, all.len() as int);
    }
    let session = if count >= 2 {
        shortest_at
    } else {
        None
    };
    Selection { session, longest: longest_at, time }
}

/// The name of a window's unit.
pub open spec fn unit_name(unit: i64) -> Seq<char> {
    if unit == 1 {
        "day"@
    } else if unit == 3 {
        "hour"@
    } else if unit == 5 {
        "minute"@
    } else {
        "week"@
    }
}

/// The description of a limit's window.
pub open spec fn description_of(limit: LimitValue) -> Option<Seq<char>> {
    if limit.kind == LimitKind::Time {
        Some("MCP"@)
    } else if limit.window_minutes == Some(300i64) {
        Some("5-hour"@)
    } else if limit.window_minutes is Some && unit_minutes(limit.unit) is Some {
        Some(
            text::signed_digits(limit.number as int) + " "@ + unit_name(limit.unit) + (
            if limit.number == 1 {
                ""@
            } else {
                "s"@
            }) + " window"@,
        )
    } else {
        None
    }
}

fn describe(limit: &ParsedLimit) -> (r: Option<String>)
    ensures
        r.deep_view() == description_of(limit.value()),
{
    if limit.kind == LimitKind::Time {
        return Some("MCP".to_owned());
    }
    let minutes: i64 = match limit.window_minutes {
        Some(m) => m,
        None => return None,
    };
    if minutes == 300 {
        return Some("5-hour".to_owned());
    }
    let unit = match limit.unit {
        1 => "day",
        3 => "hour",
        5 => "minute",
        6 => "week",
        _ => return None,
    };
    let mut r = String::new();
    text::push_signed(&mut r, limit.number);
    r.append(" ");
    r.append(unit);
    if limit.number != 1 {
        r.append("s");
    }
    r.append(" window");
    proof {
        reveal_strlit("");
        assert(r@ =~= description_of(limit.value())->0);
    }
    Some(r)
}

/// The instant of a number of milliseconds since the epoch.
pub fn timestamp_from_millis(millis: i64) -> (r: Result<Timestamp, ClassifiedError>)
    ensures
        match r {
            Ok(at) => instant::millis_instant(millis) == Some(at),
            Err(e) => instant::millis_instant(millis) is None && e == error::plain(ErrorKind::Parse),
        },
{
    match Timestamp::from_millis(millis) {
        Some(at) => Ok(at),
        None => Err(ClassifiedError::new(ErrorKind::Parse)),
    }
}

/// The window of a limit, without its used share; `None` where its reset lies
/// outside the calendar.
pub open spec fn window_of(limit: LimitValue) -> Option<WindowView> {
    let minutes = if limit.kind == LimitKind::Time && limit.unit == 5 && limit.number == 1 {
        Some(43_200i64)
    } else {
        limit.window_minutes
    };
    match limit.reset_millis {
        None => Some(
            WindowView {
                used: None,
                minutes,
                resets_at: None,
                description: description_of(limit),
            },
        ),
        Some(millis) => match instant::millis_instant(millis) {
            Some(at) => Some(
                WindowView {
                    used: None,
                    minutes,
                    resets_at: Some(at),
                    description: description_of(limit),
                },
            ),
            None => None,
        },
    }
}

/// The window of a limit, without its used share.
pub fn rate_window(limit: &ParsedLimit) -> (r: Result<RateWindow, ClassifiedError>)
    ensures
        match r {
            Ok(window) => window_of(limit.value()) == Some(window.value()),
            Err(e) => window_of(limit.value()) is None && e == error::plain(ErrorKind::Parse),
        },
{
    let minutes = if limit.kind == LimitKind::Time && limit.unit == 5 && limit.number == 1 {
        Some(43_200i64)
    } else {
        limit.window_minutes
    };
    let resets_at = match limit.reset_millis {
        Some(millis) => match timestamp_from_millis(millis) {
            Ok(at) => Some(at),
            Err(e) => return Err(e),
        },
        None => None,
    };
    Ok(RateWindow { used: None, minutes, resets_at, description: describe(limit) })
}

/// The counts that stand beside a limit's share.
pub open spec fn limit_note(limit: LimitValue) -> Option<Seq<char>> {
    match (limit.usage, limit.remaining) {
        (Some(usage), Some(remaining)) => Some(
            text::signed_digits(usage as int) + " limit"@ + " · "@ + text::signed_digits(
                remaining as int,
            ) + " remaining"@,
        ),
        (Some(usage), None) => Some(text::signed_digits(usage as int) + " limit"@),
        (None, Some(remaining)) => Some(text::signed_digits(remaining as int) + " remaining"@),
        (None, None) => None,
    }
}

/// The row of a limit, for the text of its percentage.
pub open spec fn limit_row_of(label: Seq<char>, limit: LimitValue, percent: Seq<char>) -> RowView {
    RowView { label, value: percent + "% used"@, secondary: limit_note(limit), sensitivity: DetailSensitivity::Public }
}

/// The row of a limit, for the text of its percentage.
pub fn limit_row(label: &str, limit: &ParsedLimit, percent: &str) -> (r: DetailRow)
    ensures
        r.row() == limit_row_of(label@, limit.value(), percent@),
{
    let mut note = String::new();
    if let Some(usage) = limit.usage {
        text::push_signed(&mut note, usage);
        note.append(" limit");
        if limit.remaining.is_some() {
            note.append(" · ");
        }
    }
    if let Some(remaining) = limit.remaining {
        text::push_signed(&mut note, remaining);
        note.append(" remaining");
    }
    let secondary = if limit.usage.is_some() || limit.remaining.is_some() {
        assert(note@ =~= limit_note(limit.value())->0);
        Some(note)
    } else {
        None
    };
    let mut value = percent.to_owned();
    value.append("% used");
    DetailRow { label: label.to_owned(), value, secondary, sensitivity: DetailSensitivity::Public }
}

/// A time span as a countdown, in whole minutes rounded up.
pub open spec fn countdown(seconds: i64) -> Seq<char> {
    if seconds < 1 {
        "now"@
    } else {
        let minutes = (if seconds + 59 > i64::MAX {
            i64::MAX as int
        } else {
            seconds + 59
        }) / 60;
        let days = minutes / 1440;
        let hours = (minutes / 60) % 24;
        let rest = minutes % 60;
        if days > 0 {
            "in "@ + text::digits(days as nat) + "d"@ + (if hours > 0 {
                " "@ + text::digits(hours as nat) + "h"@
            } else if rest > 0 {
                " "@ + text::digits(rest as nat) + "m"@
            } else {
                ""@
            })
        } else if hours > 0 {
            "in "@ + text::digits(hours as nat) + "h"@ + (if rest > 0 {
                " "@ + text::digits(rest as nat) + "m"@
            } else {
                ""@
            })
        } else {
            "in "@ + text::digits(minutes as nat) + "m"@
        }
    }
}

/// A time span as a countdown, in whole minutes rounded up.
pub fn countdown_text(seconds: i64) -> (r: String)
    ensures
        r@ == countdown(seconds),
{
    if seconds < 1 {
        return "now".to_owned();
    }
    let raised: i64 = match seconds.checked_add(59) {
        Some(raised) => raised,
        None => i64::MAX,
    };
    let minutes: u64 = raised as u64 / 60;
    let days: u64 = minutes / 1440;
    let hours: u64 = (minutes / 60) % 24;
    let rest: u64 = minutes % 60;
    let mut r = "in ".to_owned();
    proof {
        reveal_strlit("");
    }
    if days > 0 {
        text::push_number(&mut r, days);
        r.append("d");
        if hours > 0 {
            r.append(" ");
            text::push_number(&mut r, hours);
            r.append("h");
        } else if rest > 0 {
            r.append(" ");
            text::push_number(&mut r, rest);
            r.append("m");
        }
    } else if hours > 0 {
        text::push_number(&mut r, hours);
        r.append("h");
        if rest > 0 {
            r.append(" ");
            text::push_number(&mut r, rest);
            r.append("m");
        }
    } else {
        text::push_number(&mut r, minutes);
        r.append("m");
    }
    assert(r@ =~= countdown(seconds));
    r
}

/// Whether a moment is in peak hours: on a weekday, from six to ten.
pub open spec fn peak(c: Civil) -> bool {
    c.weekday < 5 && 6 <= c.hour < 10
}

/// How many days ahead the rate changes: weekends have no peak hours.
pub open spec fn days_ahead(c: Civil) -> int {
    if peak(c) {
        0
    } else {
        let next: int = if c.hour >= 6 {
            1
        } else {
            0
        };
        let weekday = (c.weekday + next) % 7;
        if weekday == 5 {
            next + 2
        } else if weekday == 6 {
            next + 1
        } else {
            next
        }
    }
}

/// When the rate changes next; `None` where that day is outside the calendar.
pub open spec fn rate_boundary(at: Timestamp) -> Option<Timestamp> {
    let c = instant::civil(at);
    let hour: int = if peak(c) {
        10
    } else {
        6
    };
    instant::calendar_nanos(
        ((instant::day_index(at) + days_ahead(c)) * 86_400 + hour * 3_600) * 1_000_000_000,
    )
}

/// Whole seconds until a later instant; none until an earlier one.
pub open spec fn seconds_until(at: Timestamp, later: Timestamp) -> int {
    if later.nanos < at.nanos {
        0
    } else {
        (later.nanos - at.nanos) / 1_000_000_000
    }
}

/// The row that tells the quota rate and when it changes.
pub open spec fn rate_row_of(at: Timestamp) -> Option<RowView> {
    match rate_boundary(at) {
        Some(boundary) => {
            let in_peak = peak(instant::civil(at));
            Some(
                RowView {
                    label: "Quota rate"@,
                    value: if in_peak {
                        "Peak"@
                    } else {
                        "Off-peak"@
                    },
                    secondary: Some(
                        (if in_peak {
                            "off-peak"@
                        } else {
                            "peak"@
                        }) + " "@ + countdown(seconds_until(at, boundary) as i64),
                    ),
                    sensitivity: DetailSensitivity::Public,
                },
            )
        },
        None => None,
    }
}

/// The row that tells the quota rate and when it changes.
pub fn quota_rate_row(at: Timestamp) -> (r: Result<DetailRow, ClassifiedError>)
    requires
        at.in_calendar(),
    ensures
        match r {
            Ok(row) => rate_row_of(at) == Some(row.row()),
            Err(e) => rate_row_of(at) is None && e == error::plain(ErrorKind::Parse),
        },
{
    let c = instant::to_civil(at);
    let in_peak = c.weekday < 5 && 6 <= c.hour && c.hour < 10;
    let ahead: i128 = if in_peak {
        0
    } else {
        let next: u8 = if c.hour >= 6 {
            1
        } else {
            0
        };
        let weekday: u8 = (c.weekday + next) % 7;
        if weekday == 5 {
            next as i128 + 2
        } else if weekday == 6 {
            next as i128 + 1
        } else {
            next as i128
        }
    };
    let hour: i128 = if in_peak {
        10
    } else {
        6
    };
    let day: i128 = at.day() + ahead;
    let nanos: i128 = (day * 86_400 + hour * 3_600) * 1_000_000_000;
    let boundary = match Timestamp::from_nanos(nanos) {
        Some(boundary) => boundary,
        None => return Err(ClassifiedError::new(ErrorKind::Parse)),
    };
    let seconds: i64 = if boundary.nanos < at.nanos {
        0
    } else {
        ((boundary.nanos - at.nanos) / 1_000_000_000) as i64
    };
    let mut note = if in_peak {
        "off-peak".to_owned()
    } else {
        "peak".to_owned()
    };
    note.append(" ");
    let left = countdown_text(seconds);
    note.append(left.as_str());
    let value = if in_peak {
        "Peak".to_owned()
    } else {
        "Off-peak".to_owned()
    };
    Ok(DetailRow { label: "Quota rate".to_owned(), value, secondary: Some(note), sensitivity: DetailSensitivity::Public })
}

/// The windows and rows of an account, without the used shares.
pub struct NormalizedQuota {
    pub selection: Selection,
    pub primary: RateWindow,
    pub secondary: Option<RateWindow>,
    pub extra_windows: Vec<NamedWindow>,
    pub rows: Vec<DetailRow>,
}

/// The limit that is shown first: the session's, or else the longest quota, or
/// else the time limit.
pub open spec fn primary_index(s: Selection) -> Option<usize> {
    match (s.session, s.longest) {
        (Some(i), _) => Some(i),
        (None, Some(i)) => Some(i),
        (None, None) => s.time,
    }
}

/// A window of nothing used.
pub open spec fn empty_window_value() -> WindowView {
    WindowView {
        used: Some(decimal::whole(0)),
        minutes: None,
        resets_at: None,
        description: None,
    }
}

/// The first window.
pub open spec fn primary_window(limits: Seq<LimitValue>, s: Selection) -> Option<WindowView> {
    match primary_index(s) {
        Some(i) => window_of(limits[i as int]),
        None => Some(empty_window_value()),
    }
}

/// Whether the row of the quota rate is shown: one of the shown quotas counts
/// credits.
pub open spec fn rate_shown(limits: Seq<LimitValue>, s: Selection) -> bool {
    (s.longest matches Some(i) && limits[i as int].kind == LimitKind::Credit) || (
    s.session matches Some(i) && limits[i as int].kind == LimitKind::Credit)
}

/// The rows of the quotas.
pub open spec fn quota_rows(limits: Seq<LimitValue>, percents: Seq<Seq<char>>, s: Selection) -> Seq<
    RowView,
> {
    (match s.longest {
        Some(i) => seq![
            limit_row_of(
                if limits[i as int].kind == LimitKind::Credit {
                    "Credit quota"@
                } else {
                    "Token quota"@
                },
                limits[i as int],
                percents[i as int],
            ),
        ],
        None => seq![],
    }) + (match s.session {
        Some(i) => seq![
            limit_row_of(
                if limits[i as int].kind == LimitKind::Credit {
                    "Session credit quota"@
                } else {
                    "Session token quota"@
                },
                limits[i as int],
                percents[i as int],
            ),
        ],
        None => seq![],
    })
}

/// The rows of usage details.
pub open spec fn detail_rows(details: Seq<(Seq<char>, i64)>) -> Seq<RowView> {
    Seq::new(
        details.len(),
        |i: int|
            RowView {
                label: details[i].0,
                value: text::signed_digits(details[i].1 as int),
                secondary: None,
                sensitivity: DetailSensitivity::Public,
            },
    )
}

/// How many usage details are shown: so that all rows stay within their bound.
pub open spec fn shown_details(rows: int, details: int) -> int {
    let room = if rows >= MAX_QUOTA_ROWS {
        0
    } else if MAX_QUOTA_ROWS - rows > MAX_MCP_ROWS {
        MAX_MCP_ROWS as int
    } else {
        MAX_QUOTA_ROWS - rows
    };
    if details < room {
        details
    } else {
        room
    }
}

/// The rows of an account: of the quotas, of the quota rate, and of the time
/// limit with its usage details.
pub open spec fn all_rows(
    limits: Seq<LimitValue>,
    percents: Seq<Seq<char>>,
    s: Selection,
    at: Timestamp,
) -> Seq<RowView> {
    let before = quota_rows(limits, percents, s) + (if rate_shown(limits, s) {
        seq![rate_row_of(at)->0]
    } else {
        seq![]
    });
    match s.time {
        Some(i) => {
            let rows = before.push(
                limit_row_of("MCP quota"@, limits[i as int], percents[i as int]),
            );
            let details = limits[i as int].usage_details;
            rows + detail_rows(
                details.take(shown_details(rows.len() as int, details.len() as int)),
            )
        },
        None => before,
    }
}

/// Whether an account's windows and rows can be shown.
pub open spec fn showable(limits: Seq<LimitValue>, s: Selection, at: Timestamp) -> bool {
    &&& primary_window(limits, s) is Some
    &&& s.session is Some ==> window_of(limits[s.longest->0 as int]) is Some
    &&& s.longest is Some && s.time is Some ==> window_of(limits[s.time->0 as int]) is Some
    &&& rate_shown(limits, s) ==> rate_row_of(at) is Some
}

/// The windows and rows of an account. `percents` holds the text of each limit's
/// percentage.
pub fn normalize_quota(limits: &Vec<ParsedLimit>, percents: &Vec<String>, at: Timestamp) -> (r: Result<
    NormalizedQuota,
    ClassifiedError,
>)
    requires
        percents@.len() == limits@.len(),
        at.in_calendar(),
    ensures
        match r {
            Ok(quota) => {
                let all = limit_values(limits@);
                let s = quota.selection;
                &&& selected(all, s)
                &&& showable(all, s, at)
                &&& primary_window(all, s) == Some(quota.primary.value())
                &&& usage::window_value(quota.secondary) == (if s.session is Some {
                    window_of(all[s.longest->0 as int])
                } else {
                    None
                })
                &&& usage::named_values(quota.extra_windows@) == (if s.longest is Some && s.time is Some {
                    seq![
                        usage::NamedWindowView {
                            id: "zai-mcp"@,
                            title: "MCP"@,
                            window: window_of(all[s.time->0 as int])->0,
                        },
                    ]
                } else {
                    seq![]
                })
                &&& usage::row_values(quota.rows@) == all_rows(all, percents.deep_view(), s, at)
            },
            Err(e) => e == error::plain(ErrorKind::Parse) && forall|s: Selection|
                #[trigger] selected(limit_values(limits@), s) ==> !showable(
                    limit_values(limits@),
                    s,
                    at,
                ),
        },
{
    let ghost all = limit_values(limits@);
    let ghost texts = percents.deep_view();
    let selection = select(limits);
    let ghost s = selection;
    proof {
        lemma_selected_once(all, s);
    }
    let first = match selection.session {
        Some(i) => Some(i),
        None => match selection.longest {
            Some(i) => Some(i),
            None => selection.time,
        },
    };
    let primary = match first {
        Some(i) => {
            assert(all[i as int] == limits@[i as int].value());
            rate_window(&limits[i])?
        },
        None => RateWindow {
            used: Some(crate::decimal::Decimal::of(0)),
            minutes: None,
            resets_at: None,
            description: None,
        },
    };
    let secondary = match (selection.session, selection.longest) {
        (Some(_), Some(i)) => {
            assert(all[i as int] == limits@[i as int].value());
            Some(rate_window(&limits[i])?)
        },
        _ => None,
    };
    let mut extra_windows: Vec<NamedWindow> = Vec::new();
    if selection.longest.is_some() {
        if let Some(i) = selection.time {
            assert(all[i as int] == limits@[i as int].value());
            let window = rate_window(&limits[i])?;
            extra_windows.push(
                NamedWindow { id: "zai-mcp".to_owned(), title: "MCP".to_owned(), window },
            );
        }
    }
    let mut rows: Vec<DetailRow> = Vec::new();
    let mut credit = false;
    if let Some(i) = selection.longest {
        assert(all[i as int] == limits@[i as int].value());
        assert(texts[i as int] == percents@[i as int]@);
        let label = if limits[i].kind == LimitKind::Credit {
            credit = true;
            "Credit quota"
        } else {
            "Token quota"
        };
        rows.push(limit_row(label, &limits[i], percents[i].as_str()));
    }
    if let Some(i) = selection.session {
        assert(all[i as int] == limits@[i as int].value());
        assert(texts[i as int] == percents@[i as int]@);
        let label = if limits[i].kind == LimitKind::Credit {
            credit = true;
            "Session credit quota"
        } else {
            "Session token quota"
        };
        rows.push(limit_row(label, &limits[i], percents[i].as_str()));
    }
    assert(usage::row_values(rows@) =~= quota_rows(all, texts, s));
    if credit {
        rows.push(quota_rate_row(at)?);
    }
    let ghost before = quota_rows(all, texts, s) + (if rate_shown(all, s) {
        seq![rate_row_of(at)->0]
    } else {
        seq![]
    });
    assert(usage::row_values(rows@) =~= before);
    if let Some(i) = selection.time {
        assert(all[i as int] == limits@[i as int].value());
        assert(texts[i as int] == percents@[i as int]@);
        rows.push(limit_row("MCP quota", &limits[i], percents[i].as_str()));
        let ghost shown = before.push(limit_row_of("MCP quota"@, all[i as int], texts[i as int]));
        assert(usage::row_values(rows@) =~= shown);
        let details = &limits[i].usage_details;
        let count: usize = rows.len();
        let mut room: usize = if count >= MAX_QUOTA_ROWS {
            0
        } else {
            MAX_QUOTA_ROWS - count
        };
        if room > MAX_MCP_ROWS {
            room = MAX_MCP_ROWS;
        }
        if room > details.len() {
            room = details.len();
        }
        let ghost values = all[i as int].usage_details;
        assert(values.len() == details@.len());
        assert(room == shown_details(shown.len() as int, values.len() as int));
        let mut k: usize = 0;
        assert(usage::row_values(rows@) =~= shown + detail_rows(values.take(0)));
        while k < room
            invariant
                k <= room <= details@.len(),
                values == pair_values(details@),
                usage::row_values(rows@) == shown + detail_rows(values.take(k as int)),
            decreases room - k,
        {
            let ghost so_far = usage::row_values(rows@);
            let mut value = String::new();
            text::push_signed(&mut value, details[k].1);
            assert(value@ =~= text::signed_digits(details@[k as int].1 as int));
            let row = DetailRow { label: details[k].0.clone(), value, secondary: None, sensitivity: DetailSensitivity::Public };
            rows.push(row);
            assert(usage::row_values(rows@) =~= so_far.push(row.row()));
            k += 1;
            assert(detail_rows(values.take(k as int)) =~= detail_rows(
                values.take(k as int - 1),
            ).push(row.row()));
            assert(usage::row_values(rows@) =~= shown + detail_rows(values.take(k as int)));
        }
    }
    assert(usage::row_values(rows@) =~= all_rows(all, texts, s, at));
    Ok(NormalizedQuota { selection, primary, secondary, extra_windows, rows })
}

proof fn lemma_selected_once(limits: Seq<LimitValue>, s: Selection)
    requires
        selected(limits, s),
    ensures
        forall|t: Selection| #[trigger] selected(limits, t) ==> t == s,
{
}

/// No account has more rows than their bound.
pub proof fn law_rows_bounded(
    limits: Seq<LimitValue>,
    percents: Seq<Seq<char>>,
    s: Selection,
    at: Timestamp,
)
    requires
        selected(limits, s),
    ensures
        all_rows(limits, percents, s, at).len() <= MAX_QUOTA_ROWS,
{
}

/// Lengths of windows agree across units: a week has seven days, a day twenty-four
/// hours, and an hour sixty minutes. A window in minutes is as long as its number.
pub proof fn law_units_agree(number: i64)
    requires
        0 < number <= 100_000_000_000_000,
    ensures
        minutes_of(6, number) == minutes_of(1, (number * 7) as i64),
        minutes_of(1, number) == minutes_of(3, (number * 24) as i64),
        minutes_of(3, number) == minutes_of(5, (number * 60) as i64),
        minutes_of(5, number) == Some(Some(number)),
        forall|unit: i64| unit != 1 && unit != 3 && unit != 5 && unit != 6 ==> #[trigger]
            minutes_of(unit, number) == Some(None::<i64>),
{
}

/// The long and the session window are of quotas, the other of a limit on time; each
/// is there where there is a limit of its kind, the session where there are two.
pub proof fn law_selection_covers_the_kinds(limits: Seq<LimitValue>, s: Selection)
    requires
        selected(limits, s),
    ensures
        s.time matches Some(i) ==> limits[i as int].kind == LimitKind::Time,
        s.longest matches Some(i) ==> limits[i as int].kind != LimitKind::Time,
        s.session matches Some(i) ==> limits[i as int].kind != LimitKind::Time,
        s.time is None ==> forall|i: int|
            0 <= i < limits.len() ==> (#[trigger] limits[i]).kind != LimitKind::Time,
        s.longest is None ==> forall|i: int|
            0 <= i < limits.len() ==> (#[trigger] limits[i]).kind == LimitKind::Time,
        forall|i: int, j: int|
            0 <= i < j < limits.len() && (#[trigger] limits[i]).kind != LimitKind::Time && (
            #[trigger] limits[j]).kind != LimitKind::Time ==> s.session is Some,
{
    lemma_extremes(limits, limits.len() as int);
    lemma_kinds(limits, limits.len() as int);
}

proof fn lemma_kinds(limits: Seq<LimitValue>, n: int)
    requires
        0 <= n <= limits.len(),
    ensures
        last_time(limits, n) matches Some(i) ==> 0 <= i < n && limits[i].kind == LimitKind::Time,
        last_time(limits, n) is None ==> forall|i: int|
            0 <= i < n ==> (#[trigger] limits[i]).kind != LimitKind::Time,
        longest(limits, n) matches Some(i) ==> 0 <= i < n && limits[i].kind != LimitKind::Time,
        shortest(limits, n) matches Some(i) ==> 0 <= i < n && limits[i].kind != LimitKind::Time,
        longest(limits, n) is None || shortest(limits, n) is None ==> forall|i: int|
            0 <= i < n ==> (#[trigger] limits[i]).kind == LimitKind::Time,
        forall|i: int|
            0 <= i < n && (#[trigger] limits[i]).kind != LimitKind::Time ==> quota_count(limits, n)
                >= 1,
        forall|i: int, j: int|
            0 <= i < j < n && (#[trigger] limits[i]).kind != LimitKind::Time && (
            #[trigger] limits[j]).kind != LimitKind::Time ==> quota_count(limits, n) >= 2,
    decreases n,
{
    if n > 0 {
        lemma_kinds(limits, n - 1);
    }
}

/// Among quotas of known length, the session window is the shortest and the other
/// the longest; a window of unknown length counts as longer than any.
pub proof fn law_selection_is_by_length(limits: Seq<LimitValue>, s: Selection, i: int)
    requires
        selected(limits, s),
        s.session is Some,
        0 <= i < limits.len(),
        limits[i].kind != LimitKind::Time,
    ensures
        ({
            let session = limits[s.session->0 as int].window_minutes;
            let long = limits[s.longest->0 as int].window_minutes;
            let other = limits[i].window_minutes;
            &&& other is Some && session is Some ==> session->0 <= other->0
            &&& other is Some && long is Some ==> other->0 <= long->0
            &&& other is Some && session is None ==> other->0 == i64::MAX
            &&& other is None && long is Some ==> long->0 == i64::MAX
        }),
{
    law_session_is_shortest(limits, s, i);
}

/// A time is told in days and hours, in hours and minutes, or in minutes, and parts
/// of a minute count as one.
pub proof fn law_countdowns_tell_the_time(days: int, hours: int, minutes: int, part: int)
    requires
        0 <= days <= 1_000_000_000,
        0 <= hours < 24,
        0 <= minutes < 60,
        0 < part <= 60,
    ensures
        ({
            let told = countdown((86_400 * days + 3_600 * hours + 60 * minutes) as i64);
            &&& days > 0 && hours > 0 ==> told == "in "@ + text::digits(days as nat) + "d"@ + (" "@
                + text::digits(hours as nat) + "h"@)
            &&& days > 0 && hours == 0 && minutes > 0 ==> told == "in "@ + text::digits(
                days as nat,
            ) + "d"@ + (" "@ + text::digits(minutes as nat) + "m"@)
            &&& days > 0 && hours == 0 && minutes == 0 ==> told == "in "@ + text::digits(
                days as nat,
            ) + "d"@ + ""@
            &&& days == 0 && hours > 0 && minutes > 0 ==> told == "in "@ + text::digits(
                hours as nat,
            ) + "h"@ + (" "@ + text::digits(minutes as nat) + "m"@)
            &&& days == 0 && hours > 0 && minutes == 0 ==> told == "in "@ + text::digits(
                hours as nat,
            ) + "h"@ + ""@
            &&& days == 0 && hours == 0 && minutes > 0 ==> told == "in "@ + text::digits(
                minutes as nat,
            ) + "m"@
            &&& countdown((86_400 * days + 3_600 * hours + 60 * minutes + part) as i64) == countdown(
                (86_400 * days + 3_600 * hours + 60 * minutes + 60) as i64,
            )
        }),
        countdown(0) == "now"@,
{
    let all = 1440 * days + 60 * hours + minutes;
    let seconds = 86_400 * days + 3_600 * hours + 60 * minutes;
    assert(seconds == 60 * all);
    lemma_ceiling(all, part);
    lemma_minutes_split(days, hours, minutes);
}

proof fn lemma_ceiling(all: int, part: int)
    requires
        0 < part <= 60,
    ensures
        (60 * all + 59) / 60 == all,
        (60 * all + part + 59) / 60 == all + 1,
        (60 * all + 60 + 59) / 60 == all + 1,
{
    lemma_hour_count(all, 59);
    lemma_hour_count(all + 1, part - 1);
    lemma_hour_count(all + 1, 59);
}

proof fn lemma_minutes_split(days: int, hours: int, minutes: int)
    requires
        0 <= days,
        0 <= hours < 24,
        0 <= minutes < 60,
    ensures
        (1440 * days + 60 * hours + minutes) / 1440 == days,
        (1440 * days + 60 * hours + minutes) % 60 == minutes,
        ((1440 * days + 60 * hours + minutes) / 60) % 24 == hours,
{
    lemma_day_count(days, 60 * hours + minutes);
    lemma_hour_count(24 * days + hours, minutes);
    lemma_hour_of_day(days, hours);
}

proof fn lemma_day_count(days: int, rest: int)
    requires
        0 <= rest < 1440,
    ensures
        (1440 * days + rest) / 1440 == days,
{
}

proof fn lemma_hour_count(hours: int, rest: int)
    requires
        0 <= rest < 60,
    ensures
        (60 * hours + rest) / 60 == hours,
        (60 * hours + rest) % 60 == rest,
{
}

proof fn lemma_hour_of_day(days: int, hours: int)
    requires
        0 <= hours < 24,
    ensures
        (24 * days + hours) % 24 == hours,
{
}

/// The rate changes next at ten o'clock in peak hours, from Monday to Friday between
/// six and ten, and otherwise at the first six o'clock ahead on a day from Monday to
/// Friday.
pub proof fn law_rates_change_at_peak_hours(at: Timestamp)
    requires
        instant::reads_as(instant::civil(at), at),
        rate_boundary(at) is Some,
    ensures
        ({
            let change = rate_boundary(at)->0;
            let today = at.seconds() / 86_400;
            let second = at.seconds() % 86_400;
            let in_peak = (today + 3) % 7 < 5 && 21_600 <= second < 36_000;
            &&& change.nanos > at.nanos
            &&& in_peak ==> change.nanos == (86_400 * today + 36_000) * 1_000_000_000
            &&& !in_peak ==> exists|day: int|
                today <= day <= today + 3 && #[trigger] weekday_at_six(day) && change.nanos == (
                86_400 * day + 21_600) * 1_000_000_000 && forall|earlier: int|
                    today <= earlier < day && #[trigger] weekday_at_six(earlier) ==> 86_400
                        * earlier + 21_600 <= at.seconds()
        }),
{
    let c = instant::civil(at);
    let today = at.seconds() / 86_400;
    let second = at.seconds() % 86_400;
    assert(c.weekday == (today + 3) % 7);
    assert(second / 3600 == c.hour);
    let day = today + days_ahead(c);
    assert(weekday_at_six(today) == ((today + 3) % 7 < 5));
    if !peak(c) {
        lemma_next_weekday(today, c.weekday as int, days_ahead(c));
        assert(weekday_at_six(day));
        assert forall|earlier: int|
            today <= earlier < day && #[trigger] weekday_at_six(earlier) implies 86_400 * earlier
            + 21_600 <= at.seconds() by {
            lemma_next_weekday(today, c.weekday as int, earlier - today);
        }
    }
}

proof fn lemma_next_weekday(today: int, weekday: int, ahead: int)
    requires
        weekday == (today + 3) % 7,
        0 <= ahead <= 3,
    ensures
        (today + ahead + 3) % 7 == (weekday + ahead) % 7,
{
}

/// Whether the peak hours start on a day: from Monday to Friday.
pub open spec fn weekday_at_six(day: int) -> bool {
    (day + 3) % 7 < 5
}

/// A shown window resets at the millisecond that its limit names, and is as long as
/// the limit; a limit on time of one minute is of a month of thirty days.
pub proof fn law_windows_reset_as_told(limit: LimitValue)
    ensures
        window_of(limit) matches Some(window) ==> {
            &&& limit.reset_millis is None ==> window.resets_at is None
            &&& limit.reset_millis matches Some(millis) ==> window.resets_at is Some
                && window.resets_at->0.nanos == millis * 1_000_000
            &&& limit.kind != LimitKind::Time ==> window.minutes == limit.window_minutes
            &&& limit.kind == LimitKind::Time && limit.unit == 5 && limit.number == 1
                ==> window.minutes == Some((30 * 24 * 60) as i64)
        },
        limit.reset_millis is None ==> window_of(limit) is Some,
{
}

/// The session is shown first, then the long window, then the limit on time.
pub proof fn law_session_is_shown_first(s: Selection)
    ensures
        s.session is Some ==> primary_index(s) == s.session,
        s.session is None && s.longest is Some ==> primary_index(s) == s.longest,
        s.session is None && s.longest is None ==> primary_index(s) == s.time,
{
}

/// A quota answer is read only where it says that it succeeded, with code 200.
pub proof fn law_only_successes_are_read(root: Tree)
    ensures
        quota_failure(root) is None ==> json::field(root, "success"@) == Some(Tree::Bool(true))
            && integer_field(root, "code"@) == Some(200i64),
        json::field(root, "success"@) == Some(Tree::Bool(false)) ==> quota_failure(root) == Some(
            ErrorKind::Api,
        ),
{
}

/// A limit is read from the fields that name it.
pub proof fn law_limits_are_read_from_their_fields(t: Tree)
    ensures
        limit_of(t) matches Some(Some(limit)) ==> {
            &&& integer_field(t, "unit"@) == Some(limit.unit)
            &&& integer_field(t, "number"@) == Some(limit.number)
            &&& integer_if_any(t, "usage"@) == Some(limit.usage)
            &&& integer_if_any(t, "remaining"@) == Some(limit.remaining)
            &&& integer_if_any(t, "nextResetTime"@) == Some(limit.reset_millis)
            &&& minutes_of(limit.unit, limit.number) == Some(limit.window_minutes)
            &&& integer_if_any(t, "currentValue"@) matches Some(current)
            &&& integer_field(t, "percentage"@) matches Some(percentage)
            &&& limit.share == share_of(percentage, limit.usage, current, limit.remaining)
            &&& json::field(t, "type"@) == Some(Tree::Text("TIME_LIMIT"@)) ==> limit.kind
                == LimitKind::Time
            &&& json::field(t, "type"@) == Some(Tree::Text("TOKENS_LIMIT"@)) ==> limit.kind
                == LimitKind::Tokens
            &&& json::field(t, "type"@) == Some(Tree::Text("CREDIT_LIMIT"@)) ==> limit.kind
                == LimitKind::Credit
        },
{
    reveal_strlit("TIME_LIMIT");
    reveal_strlit("TOKENS_LIMIT");
    reveal_strlit("CREDIT_LIMIT");
    assert("TIME_LIMIT"@.len() != "TOKENS_LIMIT"@.len());
    assert("TIME_LIMIT"@.len() != "CREDIT_LIMIT"@.len());
    assert("TOKENS_LIMIT"@[0] != "CREDIT_LIMIT"@[0]);
}

/// A number is read as an integer only where it is one: times its power of ten, the
/// integer is the number's mantissa.
pub proof fn law_integers_are_exact(n: Seq<char>)
    ensures
        integer_of(Tree::Number(n)) matches Some(value) ==> (decimal::number_decimal(
            n,
        ) matches Some(d) && value * decimal::pow10(d.scale as nat) == d.mantissa()),
{
    if let Some(d) = decimal::number_decimal(n) {
        decimal::lemma_pow10_positive(d.scale as nat);
        let unit = decimal::pow10(d.scale as nat);
        let m = d.magnitude as int;
        if d.integral() {
            assert((m / unit) * unit == m && -(m / unit) * unit == -m) by (nonlinear_arith)
                requires
                    unit > 0,
                    m % unit == 0,
            ;
        }
    }
}

} // verus!
