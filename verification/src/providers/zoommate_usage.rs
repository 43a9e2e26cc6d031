//! ZoomMate credit status and credit history.

use vstd::prelude::*;

use crate::decimal;
use crate::decimal::Decimal;
use crate::error;
use crate::error::{ClassifiedError, ErrorKind};
use crate::instant;
use crate::instant::Timestamp;
use crate::json;
use crate::json::{Json, Limits, Tree};
use crate::providers::zoommate;
use crate::registry::ProviderId;
use crate::text;
use crate::usage;
use crate::usage::{
    ChartView, CostMetrics, CostProvenance, CostUsage, CostUsageView, DetailChart, DetailRow, DetailSensitivity,
    ProviderSource, RateWindow, RowView, SampleView, SectionView, UsageSample, WindowView,
};

verus! {

pub const MAX_RESPONSE_BYTES: usize = 2 * 1024 * 1024;

pub const MAX_RECORD_TEXT_BYTES: usize = 4 * 1024;

pub const MAX_CREDIT_MAGNITUDE: u64 = 1_000_000_000_000_000;

/// How many days a history spans.
pub const HISTORY_DAYS: u16 = 30;

pub const HISTORY_PAGE_LIMIT: usize = 50;

pub const MAX_HISTORY_PAGES: usize = 20;

pub const MAX_EMAIL_BYTES: usize = 256;

pub const MAX_RECORD_TIME_BYTES: usize = 128;

/// Length of the history in nanoseconds.
pub const HISTORY_NANOS: i128 = 2_592_000_000_000_000;

/// Limits on a response document.
pub open spec fn limits() -> Limits {
    Limits { nodes: 32_768, depth: 40, key_bytes: 512, text_bytes: 524_288 }
}

/// The object that a response body holds.
pub open spec fn object_of(body: Seq<u8>) -> Option<Tree> {
    match json::bounded_document(body, MAX_RESPONSE_BYTES, limits()) {
        Some(t) => if t is Object {
            Some(t)
        } else {
            None
        },
        None => None,
    }
}

fn parse_object(body: &[u8]) -> (r: Option<Json>)
    ensures
        match r {
            Some(document) => object_of(body@) == Some(document.tree()),
            None => object_of(body@) is None,
        },
{
    let bounds = Limits { nodes: 32_768, depth: 40, key_bytes: 512, text_bytes: 524_288 };
    match json::parse_bounded(body, MAX_RESPONSE_BYTES, &bounds) {
        Some(document) => if document.is_object() {
            Some(document)
        } else {
            None
        },
        None => None,
    }
}

/// Whether a field is missing or null.
pub open spec fn absent(value: Option<Tree>) -> bool {
    value is None || value->0 is Null
}

/// An optional amount of credits: `None` where the field holds something else,
/// or more than is plausible.
pub open spec fn number_in(t: Tree, key: Seq<char>) -> Option<Option<Decimal>> {
    let value = json::field(t, key);
    if absent(value) {
        Some(None)
    } else {
        match value->0 {
            Tree::Number(n) => match decimal::plain_decimal(n) {
                Some(d) => if decimal::whole(MAX_CREDIT_MAGNITUDE).less(d.absolute()) {
                    None
                } else {
                    Some(Some(d))
                },
                None => None,
            },
            _ => None,
        }
    }
}

/// An optional amount of credits.
pub fn optional_number(object: &Json, key: &str) -> (r: Result<Option<Decimal>, ClassifiedError>)
    ensures
        match r {
            Ok(value) => number_in(object.tree(), key@) == Some(value) && (value is Some
                ==> value->0.wf()),
            Err(e) => number_in(object.tree(), key@) is None && e == error::plain(
                ErrorKind::Parse,
            ),
        },
{
    match object.get(key) {
        None => Ok(None),
        Some(Json::Null) => Ok(None),
        Some(Json::Number(n)) => match decimal::from_plain_number(n.as_str()) {
            Some(d) => if decimal::is_less(Decimal::of(MAX_CREDIT_MAGNITUDE), d.abs()) {
                Err(ClassifiedError::new(ErrorKind::Parse))
            } else {
                Ok(Some(d))
            },
            None => Err(ClassifiedError::new(ErrorKind::Parse)),
        },
        Some(_) => Err(ClassifiedError::new(ErrorKind::Parse)),
    }
}

/// An optional whole number.
pub open spec fn integer_in(t: Tree, key: Seq<char>) -> Option<Option<i64>> {
    let value = json::field(t, key);
    if absent(value) {
        Some(None)
    } else {
        match value->0 {
            Tree::Number(n) => match text::i64_value(n) {
                Some(i) => Some(Some(i)),
                None => None,
            },
            _ => None,
        }
    }
}

/// An optional whole number.
pub fn optional_integer(object: &Json, key: &str) -> (r: Result<Option<i64>, ClassifiedError>)
    ensures
        match r {
            Ok(value) => integer_in(object.tree(), key@) == Some(value),
            Err(e) => integer_in(object.tree(), key@) is None && e == error::plain(
                ErrorKind::Parse,
            ),
        },
{
    match object.get(key) {
        None => Ok(None),
        Some(Json::Null) => Ok(None),
        Some(Json::Number(n)) => {
            let chars = text::chars_of(n.as_str());
            match text::parse_i64(chars.as_slice()) {
                Some(i) => Ok(Some(i)),
                None => Err(ClassifiedError::new(ErrorKind::Parse)),
            }
        },
        Some(_) => Err(ClassifiedError::new(ErrorKind::Parse)),
    }
}

/// An optional truth value.
pub open spec fn bool_in(t: Tree, key: Seq<char>) -> Option<Option<bool>> {
    let value = json::field(t, key);
    if absent(value) {
        Some(None)
    } else {
        match value->0 {
            Tree::Bool(b) => Some(Some(b)),
            _ => None,
        }
    }
}

/// An optional truth value.
pub fn optional_bool(object: &Json, key: &str) -> (r: Result<Option<bool>, ClassifiedError>)
    ensures
        match r {
            Ok(value) => bool_in(object.tree(), key@) == Some(value),
            Err(e) => bool_in(object.tree(), key@) is None && e == error::plain(ErrorKind::Parse),
        },
{
    match object.get(key) {
        None => Ok(None),
        Some(Json::Null) => Ok(None),
        Some(Json::Bool(b)) => Ok(Some(*b)),
        Some(_) => Err(ClassifiedError::new(ErrorKind::Parse)),
    }
}

/// An optional short text.
pub open spec fn text_in(t: Tree, key: Seq<char>) -> Option<Option<Seq<char>>> {
    let value = json::field(t, key);
    if absent(value) {
        Some(None)
    } else {
        match value->0 {
            Tree::Text(s) => if text::byte_len(s) <= MAX_RECORD_TEXT_BYTES {
                Some(Some(s))
            } else {
                None
            },
            _ => None,
        }
    }
}

/// An optional short text.
pub fn optional_text(object: &Json, key: &str) -> (r: Result<Option<String>, ClassifiedError>)
    ensures
        match r {
            Ok(value) => text_in(object.tree(), key@) == Some(value.deep_view()),
            Err(e) => text_in(object.tree(), key@) is None && e == error::plain(ErrorKind::Parse),
        },
{
    match object.get(key) {
        None => Ok(None),
        Some(Json::Null) => Ok(None),
        Some(Json::Text(s)) => if s.as_str().len() <= MAX_RECORD_TEXT_BYTES {
            Ok(Some(s.clone()))
        } else {
            Err(ClassifiedError::new(ErrorKind::Parse))
        },
        Some(_) => Err(ClassifiedError::new(ErrorKind::Parse)),
    }
}

/// The credit status of an account.
#[derive(Debug, Clone, Copy, PartialEq, Eq, Structural)]
pub struct CreditStatus {
    pub budget_cap: Option<Decimal>,
    pub used_credit: Option<Decimal>,
    pub cycle_start_millis: Option<i64>,
    pub cycle_end_millis: Option<i64>,
    pub unlimited: Option<bool>,
}

impl CreditStatus {
    /// The amounts are well formed.
    pub open spec fn wf(self) -> bool {
        (self.budget_cap is Some ==> self.budget_cap->0.wf()) && (self.used_credit is Some
            ==> self.used_credit->0.wf())
    }
}

/// An object below an object.
pub open spec fn object_below(t: Tree, key: Seq<char>) -> Option<Tree> {
    match json::field(t, key) {
        Some(value) => if value is Object {
            Some(value)
        } else {
            None
        },
        None => None,
    }
}

fn get_object<'a>(value: &'a Json, key: &str) -> (r: Option<&'a Json>)
    ensures
        match r {
            Some(found) => object_below(value.tree(), key@) == Some(found.tree()),
            None => object_below(value.tree(), key@) is None,
        },
{
    match value.get(key) {
        Some(found) => if found.is_object() {
            Some(found)
        } else {
            None
        },
        None => None,
    }
}

/// Whether the fields that lead an answer are well formed.
pub open spec fn preamble_ok(root: Tree) -> bool {
    integer_in(root, "status_code"@) is Some && text_in(root, "error_message"@) is Some
}

/// The status that an object holds.
pub open spec fn status_in(t: Tree) -> Option<CreditStatus> {
    match (
        number_in(t, "budget_cap"@),
        number_in(t, "used_credit"@),
        integer_in(t, "cycle_start_date"@),
        integer_in(t, "cycle_end_date"@),
        bool_in(t, "is_unlimited"@),
    ) {
        (Some(budget), Some(used), Some(start), Some(end), Some(unlimited)) => if number_in(
            t,
            "remaining_credit"@,
        ) is Some && number_in(t, "overage_credit"@) is Some && bool_in(
            t,
            "allow_overage"@,
        ) is Some && bool_in(t, "is_quota_available"@) is Some {
            Some(
                CreditStatus {
                    budget_cap: budget,
                    used_credit: used,
                    cycle_start_millis: start,
                    cycle_end_millis: end,
                    unlimited,
                },
            )
        } else {
            None
        },
        _ => None,
    }
}

/// The status that a response body holds.
pub open spec fn status_of(body: Seq<u8>) -> Option<CreditStatus> {
    match object_of(body) {
        Some(root) => if !preamble_ok(root) {
            None
        } else {
            match object_below(root, "data"@) {
                Some(data) => match object_below(data, "credit_status"@) {
                    Some(t) => status_in(t),
                    None => None,
                },
                None => None,
            }
        },
        None => None,
    }
}

fn read_status(t: &Json) -> (r: Result<CreditStatus, ClassifiedError>)
    ensures
        match r {
            Ok(status) => status_in(t.tree()) == Some(status) && status.wf(),
            Err(e) => status_in(t.tree()) is None && e == error::plain(ErrorKind::Parse),
        },
{
    let budget_cap = optional_number(t, "budget_cap")?;
    let used_credit = optional_number(t, "used_credit")?;
    let _remaining = optional_number(t, "remaining_credit")?;
    let _overage = optional_number(t, "overage_credit")?;
    let _allow_overage = optional_bool(t, "allow_overage")?;
    let cycle_start_millis = optional_integer(t, "cycle_start_date")?;
    let cycle_end_millis = optional_integer(t, "cycle_end_date")?;
    let _available = optional_bool(t, "is_quota_available")?;
    let unlimited = optional_bool(t, "is_unlimited")?;
    Ok(CreditStatus { budget_cap, used_credit, cycle_start_millis, cycle_end_millis, unlimited })
}

/// The status that a response body holds.
pub fn parse_status_response(body: &[u8]) -> (r: Result<CreditStatus, ClassifiedError>)
    ensures
        match r {
            Ok(status) => status_of(body@) == Some(status) && status.wf(),
            Err(e) => status_of(body@) is None && e == error::plain(ErrorKind::Parse),
        },
{
    let root = match parse_object(body) {
        Some(root) => root,
        None => return Err(ClassifiedError::new(ErrorKind::Parse)),
    };
    let _code = optional_integer(&root, "status_code")?;
    let _message = optional_text(&root, "error_message")?;
    match get_object(&root, "data") {
        Some(data) => match get_object(data, "credit_status") {
            Some(t) => read_status(t),
            None => Err(ClassifiedError::new(ErrorKind::Parse)),
        },
        None => Err(ClassifiedError::new(ErrorKind::Parse)),
    }
}

/// The address that a profile names.
pub open spec fn profile_email(data: Tree) -> Option<Option<Seq<char>>> {
    let profile = json::field(data, "user_profile"@);
    if absent(profile) {
        Some(None)
    } else if !(profile->0 is Object) {
        None
    } else {
        match text_in(profile->0, "email"@) {
            None => None,
            Some(None) => Some(None),
            Some(Some(raw)) => {
                let email = text::trimmed(raw);
                if email.len() == 0 {
                    Some(None)
                } else if text::byte_len(email) > MAX_EMAIL_BYTES {
                    None
                } else {
                    Some(Some(email))
                }
            },
        }
    }
}

fn read_email(data: &Json) -> (r: Result<Option<String>, ClassifiedError>)
    ensures
        match r {
            Ok(email) => profile_email(data.tree()) == Some(email.deep_view()),
            Err(e) => profile_email(data.tree()) is None && e == error::plain(ErrorKind::Parse),
        },
{
    let profile = match data.get("user_profile") {
        None => return Ok(None),
        Some(Json::Null) => return Ok(None),
        Some(profile) => profile,
    };
    if !profile.is_object() {
        return Err(ClassifiedError::new(ErrorKind::Parse));
    }
    match optional_text(profile, "email") {
        Err(e) => Err(e),
        Ok(None) => Ok(None),
        Ok(Some(raw)) => {
            let email = text::trim_text(raw.as_str());
            if email.as_str().is_empty() {
                Ok(None)
            } else if email.as_str().len() > MAX_EMAIL_BYTES {
                Err(ClassifiedError::new(ErrorKind::Parse))
            } else {
                Ok(Some(email))
            }
        },
    }
}

/// The token and the address that a login response holds.
pub open spec fn login_of(body: Seq<u8>) -> Option<(Seq<char>, Option<Seq<char>>)> {
    match object_of(body) {
        Some(root) => if bool_in(root, "success"@) is None {
            None
        } else {
            match object_below(root, "data"@) {
                Some(data) => match json::field(data, "nak"@) {
                    Some(Tree::Text(raw)) => match (
                        zoommate::bearer_of(raw),
                        profile_email(data),
                    ) {
                        (Some(token), Some(email)) => Some((token, email)),
                        _ => None,
                    },
                    _ => None,
                },
                None => None,
            }
        },
        None => None,
    }
}

/// The token and the address that a login response holds.
pub fn parse_login_response(body: &[u8]) -> (r: Result<(String, Option<String>), ClassifiedError>)
    ensures
        match r {
            Ok((token, email)) => login_of(body@) == Some((token@, email.deep_view())),
            Err(e) => login_of(body@) is None && e == error::plain(ErrorKind::Parse),
        },
{
    let root = match parse_object(body) {
        Some(root) => root,
        None => return Err(ClassifiedError::new(ErrorKind::Parse)),
    };
    let _success = optional_bool(&root, "success")?;
    let data = match get_object(&root, "data") {
        Some(data) => data,
        None => return Err(ClassifiedError::new(ErrorKind::Parse)),
    };
    let token = match data.get("nak") {
        Some(Json::Text(raw)) => match zoommate::normalize_bearer_token(raw.as_str()) {
            Ok(token) => token,
            Err(_) => return Err(ClassifiedError::new(ErrorKind::Parse)),
        },
        _ => return Err(ClassifiedError::new(ErrorKind::Parse)),
    };
    match read_email(data) {
        Ok(email) => Ok((token, email)),
        Err(e) => Err(e),
    }
}

/// One entry of the credit history.
pub struct HistoryRecord {
    pub cost: Option<Decimal>,
    pub time: Option<String>,
    pub deleted: Option<bool>,
}

/// Mathematical value of a [`HistoryRecord`].
pub struct RecordView {
    pub cost: Option<Decimal>,
    pub time: Option<Seq<char>>,
    pub deleted: Option<bool>,
}

impl HistoryRecord {
    pub open spec fn value(self) -> RecordView {
        RecordView { cost: self.cost, time: self.time.deep_view(), deleted: self.deleted }
    }

    /// The amount is well formed.
    pub open spec fn wf(self) -> bool {
        self.cost is Some ==> self.cost->0.wf()
    }
}

/// The values of a list of entries.
pub open spec fn record_values(list: Seq<HistoryRecord>) -> Seq<RecordView> {
    Seq::new(list.len(), |i: int| list[i].value())
}

/// Whether all amounts are well formed.
pub open spec fn records_wf(list: Seq<HistoryRecord>) -> bool {
    forall|i: int| 0 <= i < list.len() ==> (#[trigger] list[i]).wf()
}

/// The entry that a value holds.
pub open spec fn record_of(t: Tree) -> Option<RecordView> {
    if !(t is Object) {
        None
    } else {
        match (number_in(t, "cost"@), text_in(t, "time"@), bool_in(t, "is_deleted"@)) {
            (Some(cost), Some(time), Some(deleted)) => if text_in(t, "session_id"@) is Some
                && text_in(t, "title"@) is Some && bool_in(t, "is_running"@) is Some {
                Some(RecordView { cost, time, deleted })
            } else {
                None
            },
            _ => None,
        }
    }
}

/// The entry that a value holds.
pub fn parse_history_record(value: &Json) -> (r: Result<HistoryRecord, ClassifiedError>)
    ensures
        match r {
            Ok(record) => record_of(value.tree()) == Some(record.value()) && record.wf(),
            Err(e) => record_of(value.tree()) is None && e == error::plain(ErrorKind::Parse),
        },
{
    if !value.is_object() {
        return Err(ClassifiedError::new(ErrorKind::Parse));
    }
    let _session = optional_text(value, "session_id")?;
    let _title = optional_text(value, "title")?;
    let cost = optional_number(value, "cost")?;
    let time = optional_text(value, "time")?;
    let _running = optional_bool(value, "is_running")?;
    let deleted = optional_bool(value, "is_deleted")?;
    Ok(HistoryRecord { cost, time, deleted })
}

/// One page of the credit history.
pub struct HistoryPage {
    pub records: Vec<HistoryRecord>,
    pub total: Option<i64>,
}

/// The first `n` entries; `None` where one is malformed.
pub open spec fn records_of(items: Seq<Tree>, n: int) -> Option<Seq<RecordView>>
    decreases n,
{
    if n <= 0 {
        Some(seq![])
    } else {
        match (records_of(items, n - 1), record_of(items[n - 1])) {
            (Some(before), Some(record)) => Some(before.push(record)),
            _ => None,
        }
    }
}

proof fn lemma_records_failure(items: Seq<Tree>, n: int, m: int)
    requires
        0 <= n <= m,
        records_of(items, n) is None,
    ensures
        records_of(items, m) is None,
    decreases m - n,
{
    if n < m {
        lemma_records_failure(items, n, m - 1);
    }
}

/// The entries of a page.
pub open spec fn page_records(data: Tree) -> Option<Seq<RecordView>> {
    let value = json::field(data, "records"@);
    if absent(value) {
        Some(seq![])
    } else {
        match value->0 {
            Tree::Array(items) => if items.len() > HISTORY_PAGE_LIMIT {
                None
            } else {
                records_of(items, items.len() as int)
            },
            _ => None,
        }
    }
}

fn read_records(data: &Json) -> (r: Result<Vec<HistoryRecord>, ClassifiedError>)
    ensures
        match r {
            Ok(records) => page_records(data.tree()) == Some(record_values(records@))
                && records_wf(records@) && records@.len() <= HISTORY_PAGE_LIMIT,
            Err(e) => page_records(data.tree()) is None && e == error::plain(ErrorKind::Parse),
        },
{
    let mut records: Vec<HistoryRecord> = Vec::new();
    assert(record_values(records@) =~= seq![]);
    let items = match data.get("records") {
        None => return Ok(records),
        Some(Json::Null) => return Ok(records),
        Some(Json::Array(items)) => items,
        Some(_) => return Err(ClassifiedError::new(ErrorKind::Parse)),
    };
    if items.len() > HISTORY_PAGE_LIMIT {
        return Err(ClassifiedError::new(ErrorKind::Parse));
    }
    let ghost all = json::children(json::field(data.tree(), "records"@)->0);
    assert(all =~= Seq::new(items@.len(), |i: int| items@[i].tree()));
    let mut i: usize = 0;
    while i < items.len()
        invariant
            all == Seq::new(items@.len(), |i: int| items@[i].tree()),
            i <= items@.len() <= HISTORY_PAGE_LIMIT,
            page_records(data.tree()) == records_of(all, all.len() as int),
            records_of(all, i as int) == Some(record_values(records@)),
            records@.len() == i,
            records_wf(records@),
        decreases items@.len() - i,
    {
        assert(all[i as int] == items@[i as int].tree());
        let ghost before = record_values(records@);
        match parse_history_record(&items[i]) {
            Ok(record) => {
                records.push(record);
                assert(record_values(records@) =~= before.push(record.value()));
            },
            Err(e) => {
                proof {
                    lemma_records_failure(all, i as int + 1, all.len() as int);
                }
                return Err(e);
            },
        }
        i += 1;
    }
    Ok(records)
}

/// The entries and the total that a response body holds.
pub open spec fn page_of(body: Seq<u8>) -> Option<(Seq<RecordView>, Option<i64>)> {
    match object_of(body) {
        Some(root) => if !preamble_ok(root) {
            None
        } else {
            match object_below(root, "data"@) {
                Some(data) => match (page_records(data), integer_in(data, "total"@)) {
                    (Some(records), Some(total)) => Some((records, total)),
                    _ => None,
                },
                None => None,
            }
        },
        None => None,
    }
}

/// The page that a response body holds.
pub fn parse_history_page(body: &[u8]) -> (r: Result<HistoryPage, ClassifiedError>)
    ensures
        match r {
            Ok(page) => page_of(body@) == Some((record_values(page.records@), page.total))
                && records_wf(page.records@) && page.records@.len() <= HISTORY_PAGE_LIMIT,
            Err(e) => page_of(body@) is None && e == error::plain(ErrorKind::Parse),
        },
{
    let root = match parse_object(body) {
        Some(root) => root,
        None => return Err(ClassifiedError::new(ErrorKind::Parse)),
    };
    let _code = optional_integer(&root, "status_code")?;
    let _message = optional_text(&root, "error_message")?;
    let data = match get_object(&root, "data") {
        Some(data) => data,
        None => return Err(ClassifiedError::new(ErrorKind::Parse)),
    };
    let records = match read_records(data) {
        Ok(records) => records,
        Err(e) => return Err(e),
    };
    let total = optional_integer(data, "total")?;
    Ok(HistoryPage { records, total })
}

/// The instant of an entry: a short RFC 3339 text without surrounding blanks.
pub open spec fn record_instant(time: Option<Seq<char>>) -> Option<Timestamp> {
    match time {
        Some(s) => if text::byte_len(s) > MAX_RECORD_TIME_BYTES || s != text::trimmed(s) {
            None
        } else {
            instant::rfc3339(s)
        },
        None => None,
    }
}

/// The instant of an entry.
pub fn parse_record_time(time: &Option<String>) -> (r: Option<Timestamp>)
    ensures
        r == record_instant(time.deep_view()),
{
    match time {
        Some(s) => {
            let chars = text::chars_of(s.as_str());
            if s.as_str().len() > MAX_RECORD_TIME_BYTES || !text::same(
                chars.as_slice(),
                text::trim(chars.as_slice()),
            ) {
                None
            } else {
                instant::parse_rfc3339(s.as_str())
            }
        },
        None => None,
    }
}

/// The history of an account.
pub struct HistorySnapshot {
    pub records: Vec<HistoryRecord>,
    pub coverage_established: bool,
}

/// The start of the history.
pub open spec fn history_start(fetched_at: Timestamp) -> Option<Timestamp> {
    instant::calendar_nanos(fetched_at.nanos - HISTORY_NANOS)
}

/// Whether there are entries and all of them are older than `start`.
pub open spec fn all_older(records: Seq<RecordView>, start: Timestamp) -> bool {
    records.len() > 0 && forall|i: int|
        0 <= i < records.len() ==> (record_instant((#[trigger] records[i]).time) matches Some(at)
            && at.nanos < start.nanos)
}

fn is_all_older(records: &Vec<HistoryRecord>, start: Timestamp) -> (r: bool)
    ensures
        r == all_older(record_values(records@), start),
{
    let ghost all = record_values(records@);
    let mut i: usize = 0;
    while i < records.len()
        invariant
            all == record_values(records@),
            i <= records@.len(),
            forall|j: int|
                0 <= j < i ==> (record_instant((#[trigger] all[j]).time) matches Some(at)
                    && at.nanos < start.nanos),
        decreases records@.len() - i,
    {
        assert(all[i as int] == records@[i as int].value());
        let older = match parse_record_time(&records[i].time) {
            Some(at) => at.nanos < start.nanos,
            None => false,
        };
        if !older {
            return false;
        }
        i += 1;
    }
    records.len() > 0
}

/// A history under way: the page to ask for, and the entries so far.
pub struct HistoryListing {
    pub page: usize,
    pub records: Vec<HistoryRecord>,
}

/// What to do after a page of the history.
pub enum HistoryStep {
    Again(HistoryListing),
    Done(HistorySnapshot),
}

/// How many entries there are in all, as a page tells it.
pub open spec fn told_total(listing: HistoryListing, page: HistoryPage) -> int {
    match page.total {
        Some(total) => total as int,
        None => (listing.records@.len() + page.records@.len()) as int,
    }
}

/// Whether a page ends the history: it is empty or older than the history, or no
/// entries are left behind it.
pub open spec fn ends_history(
    listing: HistoryListing,
    page: HistoryPage,
    start: Timestamp,
) -> bool {
    page.records@.len() == 0 || all_older(record_values(page.records@), start) || (listing.page + 1)
        * HISTORY_PAGE_LIMIT >= told_total(listing, page)
}

impl HistoryListing {
    /// The page may still be asked for, and no page held too many entries.
    pub open spec fn wf(self) -> bool {
        self.page < MAX_HISTORY_PAGES && self.records@.len() <= self.page * HISTORY_PAGE_LIMIT
            && records_wf(self.records@)
    }

    /// A history before its first page.
    pub fn first() -> (r: HistoryListing)
        ensures
            r.page == 0,
            r.records@.len() == 0,
            r.wf(),
    {
        HistoryListing { page: 0, records: Vec::new() }
    }

    /// Takes a page. The history covers its days unless the last page that may
    /// be asked for leaves entries behind it.
    pub fn on_page(self, page: HistoryPage, start: Timestamp) -> (r: HistoryStep)
        requires
            self.wf(),
            page.records@.len() <= HISTORY_PAGE_LIMIT,
            records_wf(page.records@),
        ensures
            match r {
                HistoryStep::Done(snapshot) => (ends_history(self, page, start) || self.page + 1
                    == MAX_HISTORY_PAGES) && snapshot.records@ == self.records@ + page.records@
                    && snapshot.coverage_established == ends_history(self, page, start)
                    && records_wf(snapshot.records@),
                HistoryStep::Again(next) => !ends_history(self, page, start) && self.page + 1
                    < MAX_HISTORY_PAGES && next.page == self.page + 1 && next.records@
                    == self.records@ + page.records@ && next.wf(),
            },
    {
        let page_is_empty = page.records.len() == 0;
        let older = is_all_older(&page.records, start);
        let mut records = self.records;
        let mut more = page.records;
        let ghost before = records@;
        let ghost added = more@;
        records.append(&mut more);
        assert(records@ =~= before + added);
        assert(records_wf(records@)) by {
            assert forall|i: int| 0 <= i < records@.len() implies (#[trigger] records@[i]).wf() by {
                if i < before.len() {
                    assert(records@[i] == before[i]);
                } else {
                    assert(records@[i] == added[i - before.len()]);
                }
            }
        }
        let total: i64 = match page.total {
            Some(total) => total,
            None => records.len() as i64,
        };
        let next: usize = self.page + 1;
        let offset: i64 = (next * HISTORY_PAGE_LIMIT) as i64;
        if page_is_empty || older || offset >= total {
            return HistoryStep::Done(HistorySnapshot { records, coverage_established: true });
        }
        if next >= MAX_HISTORY_PAGES {
            return HistoryStep::Done(HistorySnapshot { records, coverage_established: false });
        }
        HistoryStep::Again(HistoryListing { page: next, records })
    }
}

/// The history of a single page: covered where it holds as many entries as there
/// are in all.
pub fn single_page(page: HistoryPage) -> (r: HistorySnapshot)
    requires
        page.records@.len() <= HISTORY_PAGE_LIMIT,
    ensures
        r.records == page.records,
        r.coverage_established == (match page.total {
            Some(total) => page.records@.len() >= total,
            None => true,
        }),
{
    let coverage_established = match page.total {
        Some(total) => page.records.len() as i64 >= total,
        None => true,
    };
    HistorySnapshot { records: page.records, coverage_established }
}

/// The query of a history page.
pub open spec fn history_query(page: nat, start: Seq<char>, end: Seq<char>) -> Seq<
    (Seq<char>, Seq<char>),
> {
    seq![
        ("app_id"@, "demo_app"@),
        ("limit"@, text::digits(50)),
        ("page"@, text::digits(page)),
        ("sort_by"@, "time"@),
        ("sort_order"@, "desc"@),
        ("start_time"@, start),
        ("end_time"@, end),
    ]
}

/// The URL of a history page; `None` where the base is no URL.
pub fn history_url(base: &str, page: u64, start: &str, end: &str) -> (r: Option<String>)
    ensures
        r.deep_view() == crate::urls::url_with_more_pairs(
            base@,
            history_query(page as nat, start@, end@),
        ),
{
    let mut limit = String::new();
    text::push_number(&mut limit, 50);
    assert(limit@ =~= text::digits(50));
    let mut number = String::new();
    text::push_number(&mut number, page);
    assert(number@ =~= text::digits(page as nat));
    let pairs: Vec<(String, String)> = vec![
        ("app_id".to_owned(), "demo_app".to_owned()),
        ("limit".to_owned(), limit),
        ("page".to_owned(), number),
        ("sort_by".to_owned(), "time".to_owned()),
        ("sort_order".to_owned(), "desc".to_owned()),
        ("start_time".to_owned(), start.to_owned()),
        ("end_time".to_owned(), end.to_owned()),
    ];
    assert(pairs.deep_view() =~= history_query(page as nat, start@, end@));
    crate::urls::extend_pairs(base, &pairs)
}

/// The texts of the start and the end of the history.
pub open spec fn interval_of(fetched_at: Timestamp) -> Option<(Seq<char>, Seq<char>)> {
    match history_start(fetched_at) {
        Some(start) => match (instant::rfc3339_text(start), instant::rfc3339_text(fetched_at)) {
            (Some(a), Some(b)) => Some((a, b)),
            _ => None,
        },
        None => None,
    }
}

/// The start of the history, and the texts of its start and its end.
pub fn history_interval(fetched_at: Timestamp) -> (r: Result<
    (Timestamp, String, String),
    ClassifiedError,
>)
    requires
        fetched_at.in_calendar(),
    ensures
        match r {
            Ok((start, first, last)) => history_start(fetched_at) == Some(start) && interval_of(
                fetched_at,
            ) == Some((first@, last@)),
            Err(e) => interval_of(fetched_at) is None && e == error::plain(ErrorKind::Parse),
        },
{
    let start = match Timestamp::from_nanos(fetched_at.nanos - HISTORY_NANOS) {
        Some(start) => start,
        None => return Err(ClassifiedError::new(ErrorKind::Parse)),
    };
    match (instant::to_rfc3339(start), instant::to_rfc3339(fetched_at)) {
        (Some(first), Some(last)) => Ok((start, first, last)),
        _ => Err(ClassifiedError::new(ErrorKind::Parse)),
    }
}

/// A wall-clock instant: what a clock that runs `offset` seconds ahead shows,
/// where the calendar holds it.
pub open spec fn local_instant(at: Timestamp, offset: i32) -> Option<Timestamp> {
    instant::calendar_nanos(at.nanos + offset * 1_000_000_000)
}

/// A wall-clock instant.
pub fn localized(at: Timestamp, offset: i32) -> (r: Option<Timestamp>)
    requires
        at.in_calendar(),
    ensures
        r == local_instant(at, offset),
        r is Some ==> r->0.in_calendar(),
{
    Timestamp::from_nanos(at.nanos + offset as i128 * 1_000_000_000)
}

/// An entry with the wall-clock instant at which it was made.
#[derive(Debug, Clone, Copy, PartialEq, Eq, Structural)]
pub struct DatedRecord {
    pub cost: Option<Decimal>,
    pub deleted: bool,
    pub local: Option<Timestamp>,
}

impl DatedRecord {
    /// The amount is well formed and the instant lies in the calendar.
    pub open spec fn wf(self) -> bool {
        (self.cost is Some ==> self.cost->0.wf()) && (self.local is Some
            ==> self.local->0.in_calendar())
    }

    /// The day and the amount that count: not deleted, not negative, and not
    /// before `since`.
    pub open spec fn counted(self, since: int) -> Option<(int, Decimal)> {
        if self.deleted || self.cost is None || self.cost->0.below_zero() || self.local is None
            || instant::day_index(self.local->0) < since {
            None
        } else {
            Some((instant::day_index(self.local->0), self.cost->0))
        }
    }
}

/// The credits of a day.
#[derive(Debug, Clone, Copy, PartialEq, Eq, Structural)]
pub struct DayCredits {
    pub day: i64,
    pub amount: Decimal,
    pub record_count: u64,
}

/// Where a day stands, or would stand, among days in order.
pub open spec fn day_slot(days: Seq<DayCredits>, day: int, from: int) -> int
    decreases days.len() - from,
{
    if from < 0 || from >= days.len() || days[from].day >= day {
        from
    } else {
        day_slot(days, day, from + 1)
    }
}

proof fn lemma_day_slot(days: Seq<DayCredits>, day: int, from: int)
    requires
        0 <= from <= days.len(),
    ensures
        from <= day_slot(days, day, from) <= days.len(),
        forall|i: int| from <= i < day_slot(days, day, from) ==> (#[trigger] days[i]).day < day,
        day_slot(days, day, from) < days.len() ==> days[day_slot(days, day, from)].day >= day,
    decreases days.len() - from,
{
    if from < days.len() && days[from].day < day {
        lemma_day_slot(days, day, from + 1);
    }
}

/// The days with one more entry; `None` where a sum overflows.
pub open spec fn with_credits(days: Seq<DayCredits>, day: int, amount: Decimal) -> Option<
    Seq<DayCredits>,
> {
    let at = day_slot(days, day, 0);
    if at < days.len() && days[at].day == day {
        match decimal::decimal_sum(days[at].amount, amount) {
            Some(sum) => if days[at].record_count < u64::MAX {
                Some(
                    days.update(
                        at,
                        DayCredits {
                            day: day as i64,
                            amount: sum,
                            record_count: (days[at].record_count + 1) as u64,
                        },
                    ),
                )
            } else {
                None
            },
            None => None,
        }
    } else {
        match decimal::decimal_sum(decimal::whole(0), amount) {
            Some(sum) => Some(
                days.insert(at, DayCredits { day: day as i64, amount: sum, record_count: 1 }),
            ),
            None => None,
        }
    }
}

/// The days of the first `n` entries; `None` where a sum overflows.
pub open spec fn days_of(records: Seq<DatedRecord>, since: int, n: int) -> Option<Seq<DayCredits>>
    decreases n,
{
    if n <= 0 {
        Some(seq![])
    } else {
        match days_of(records, since, n - 1) {
            None => None,
            Some(days) => match records[n - 1].counted(since) {
                Some((day, amount)) => with_credits(days, day, amount),
                None => Some(days),
            },
        }
    }
}

proof fn lemma_days_failure(records: Seq<DatedRecord>, since: int, n: int, m: int)
    requires
        0 <= n <= m,
        days_of(records, since, n) is None,
    ensures
        days_of(records, since, m) is None,
    decreases m - n,
{
    if n < m {
        lemma_days_failure(records, since, n, m - 1);
    }
}

/// Whether the days ascend.
pub open spec fn ascending(days: Seq<DayCredits>) -> bool {
    forall|i: int, j: int| 0 <= i < j < days.len() ==> (#[trigger] days[i]).day < (#[trigger] days[j]).day
}

/// The entries counted by days.
pub open spec fn record_sum(days: Seq<DayCredits>, n: int) -> int
    decreases n,
{
    if n <= 0 {
        0
    } else {
        record_sum(days, n - 1) + days[n - 1].record_count
    }
}

/// The credits of the first `n` days; `None` where they overflow.
pub open spec fn credit_sum(days: Seq<DayCredits>, n: int) -> Option<Decimal>
    decreases n,
{
    if n <= 0 {
        Some(decimal::whole(0))
    } else {
        match credit_sum(days, n - 1) {
            Some(sum) => decimal::decimal_sum(sum, days[n - 1].amount),
            None => None,
        }
    }
}

proof fn lemma_credit_failure(days: Seq<DayCredits>, n: int, m: int)
    requires
        0 <= n <= m,
        credit_sum(days, n) is None,
    ensures
        credit_sum(days, m) is None,
    decreases m - n,
{
    if n < m {
        lemma_credit_failure(days, n, m - 1);
    }
}

/// The first day that counts: thirty days, the current one among them.
pub open spec fn first_day(now: Timestamp) -> int {
    instant::day_index(now) - 29
}

/// Whether the first day that counts lies in the calendar.
pub open spec fn first_day_ok(now: Timestamp) -> bool {
    first_day(now) * 86_400 >= instant::MIN_SECONDS
}

/// The credits by day, of the current day and in all.
pub struct HistoryNormalization {
    pub today: Decimal,
    pub today_records: u64,
    pub total: Decimal,
    pub total_records: u64,
    pub daily: Vec<DayCredits>,
}

/// Whether all amounts are well formed.
pub open spec fn days_wf(days: Seq<DayCredits>) -> bool {
    forall|i: int| 0 <= i < days.len() ==> (#[trigger] days[i]).amount.wf()
}

impl HistoryNormalization {
    /// All amounts are well formed.
    pub open spec fn wf(self) -> bool {
        self.today.wf() && self.total.wf() && days_wf(self.daily@)
    }
}

/// The amount and the entries of a day.
pub open spec fn on_day(days: Seq<DayCredits>, day: int) -> (Decimal, u64) {
    let at = day_slot(days, day, 0);
    if at < days.len() && days[at].day == day {
        (days[at].amount, days[at].record_count)
    } else {
        (decimal::whole(0), 0)
    }
}

/// The days of a history; `None` where it cannot be normalized.
pub open spec fn history_days(records: Seq<DatedRecord>, now: Timestamp) -> Option<
    Seq<DayCredits>,
> {
    if !first_day_ok(now) {
        None
    } else {
        match days_of(records, first_day(now), records.len() as int) {
            Some(days) => if credit_sum(days, days.len() as int) is Some && record_sum(
                days,
                days.len() as int,
            ) <= u64::MAX {
                Some(days)
            } else {
                None
            },
            None => None,
        }
    }
}

fn find_slot(days: &Vec<DayCredits>, day: i64) -> (r: usize)
    ensures
        r == day_slot(days@, day as int, 0),
        r <= days@.len(),
{
    let mut at: usize = 0;
    while at < days.len() && days[at].day < day
        invariant
            at <= days@.len(),
            day_slot(days@, day as int, 0) == day_slot(days@, day as int, at as int),
        decreases days@.len() - at,
    {
        at += 1;
    }
    at
}

fn add_credits(days: Vec<DayCredits>, day: i64, amount: Decimal) -> (r: Option<Vec<DayCredits>>)
    requires
        days_wf(days@),
        amount.wf(),
    ensures
        match r {
            Some(next) => with_credits(days@, day as int, amount) == Some(next@) && days_wf(next@),
            None => with_credits(days@, day as int, amount) is None,
        },
{
    let at: usize = find_slot(&days, day);
    let mut next = days;
    let ghost before = next@;
    if at < next.len() && next[at].day == day {
        let sum = match next[at].amount.plus(amount) {
            Some(sum) => sum,
            None => return None,
        };
        let count: u64 = match next[at].record_count.checked_add(1) {
            Some(count) => count,
            None => return None,
        };
        next.set(at, DayCredits { day, amount: sum, record_count: count });
        Some(next)
    } else {
        let sum = match Decimal::of(0).plus(amount) {
            Some(sum) => sum,
            None => return None,
        };
        next.insert(at, DayCredits { day, amount: sum, record_count: 1 });
        assert(days_wf(next@)) by {
            assert forall|i: int| 0 <= i < next@.len() implies (#[trigger] next@[i]).amount.wf() by {
                if i < at {
                    assert(next@[i] == before[i]);
                } else if i > at {
                    assert(next@[i] == before[i - 1]);
                }
            }
        }
        Some(next)
    }
}

/// The credits by day, of the current day and in all. `now` is the wall-clock
/// instant of the reading.
pub fn normalize_history(records: &Vec<DatedRecord>, now: Timestamp) -> (r: Result<
    HistoryNormalization,
    ClassifiedError,
>)
    requires
        now.in_calendar(),
        forall|i: int| 0 <= i < records@.len() ==> (#[trigger] records@[i]).wf(),
    ensures
        match r {
            Ok(history) => history_days(records@, now) == Some(history.daily@) && (
            history.today,
            history.today_records,
        ) == on_day(history.daily@, instant::day_index(now)) && credit_sum(
                history.daily@,
                history.daily@.len() as int,
            ) == Some(history.total) && history.total_records == record_sum(
                history.daily@,
                history.daily@.len() as int,
            ) && history.wf(),
            Err(e) => history_days(records@, now) is None && e == error::plain(ErrorKind::Parse),
        },
{
    let today: i128 = now.day();
    let since: i128 = today - 29;
    if since * 86_400 < instant::MIN_SECONDS {
        return Err(ClassifiedError::new(ErrorKind::Parse));
    }
    let mut days: Vec<DayCredits> = Vec::new();
    let mut i: usize = 0;
    while i < records.len()
        invariant
            since == first_day(now),
            first_day_ok(now),
            forall|j: int| 0 <= j < records@.len() ==> (#[trigger] records@[j]).wf(),
            i <= records@.len(),
            days_of(records@, since as int, i as int) == Some(days@),
            days_wf(days@),
        decreases records@.len() - i,
    {
        assert(records@[i as int].wf());
        let record = records[i];
        if !record.deleted {
            if let (Some(cost), Some(local)) = (record.cost, record.local) {
                let day: i128 = local.day();
                assert(i64::MIN <= day <= i64::MAX);
                if !cost.is_below_zero() && day >= since {
                    days =
                    match add_credits(days, day as i64, cost) {
                        Some(next) => next,
                        None => {
                            proof {
                                lemma_days_failure(
                                    records@,
                                    since as int,
                                    i as int + 1,
                                    records@.len() as int,
                                );
                            }
                            return Err(ClassifiedError::new(ErrorKind::Parse));
                        },
                    };
                }
            }
        }
        i += 1;
    }
    let ghost all = days@;
    let mut total = Decimal::of(0);
    let mut total_records: u64 = 0;
    let mut k: usize = 0;
    while k < days.len()
        invariant
            all == days@,
            days_wf(days@),
            k <= days@.len(),
            total.wf(),
            credit_sum(all, k as int) == Some(total),
            total_records == record_sum(all, k as int),
            first_day_ok(now),
            days_of(records@, first_day(now), records@.len() as int) == Some(all),
        decreases days@.len() - k,
    {
        total =
        match total.plus(days[k].amount) {
            Some(sum) => sum,
            None => {
                proof {
                    lemma_credit_failure(all, k as int + 1, all.len() as int);
                }
                return Err(ClassifiedError::new(ErrorKind::Parse));
            },
        };
        total_records =
        match total_records.checked_add(days[k].record_count) {
            Some(sum) => sum,
            None => {
                proof {
                    lemma_record_sum_grows(all, k as int + 1, all.len() as int);
                }
                return Err(ClassifiedError::new(ErrorKind::Parse));
            },
        };
        k += 1;
    }
    assert(i64::MIN <= today <= i64::MAX);
    let at: usize = find_slot(&days, today as i64);
    let (today_amount, today_records) = if at < days.len() && days[at].day == today as i64 {
        (days[at].amount, days[at].record_count)
    } else {
        (Decimal::of(0), 0)
    };
    Ok(
        HistoryNormalization {
            today: today_amount,
            today_records,
            total,
            total_records,
            daily: days,
        },
    )
}

proof fn lemma_record_sum_grows(days: Seq<DayCredits>, n: int, m: int)
    requires
        0 <= n <= m,
    ensures
        record_sum(days, n) <= record_sum(days, m),
    decreases m - n,
{
    if n < m {
        lemma_record_sum_grows(days, n, m - 1);
    }
}

proof fn lemma_credits_keep_order(days: Seq<DayCredits>, day: int, amount: Decimal)
    requires
        ascending(days),
        i64::MIN <= day <= i64::MAX,
    ensures
        with_credits(days, day, amount) matches Some(next) ==> ascending(next),
{
    lemma_day_slot(days, day, 0);
    let at = day_slot(days, day, 0);
    if with_credits(days, day, amount) is Some {
        let next = with_credits(days, day, amount)->0;
        assert forall|i: int, j: int| 0 <= i < j < next.len() implies (#[trigger] next[i]).day < (
        #[trigger] next[j]).day by {
            if next.len() == days.len() {
                assert(next[i].day == days[i].day);
                assert(next[j].day == days[j].day);
            } else {
                if i < at {
                    assert(next[i] == days[i]);
                } else if i > at {
                    assert(next[i] == days[i - 1]);
                }
                if j < at {
                    assert(next[j] == days[j]);
                } else if j > at {
                    assert(next[j] == days[j - 1]);
                    if j - 1 > at {
                        assert(days[at].day < days[j - 1].day);
                    }
                }
            }
        }
    }
}

proof fn lemma_days_ascend(records: Seq<DatedRecord>, since: int, n: int)
    requires
        n <= records.len(),
        forall|i: int| 0 <= i < records.len() ==> (#[trigger] records[i]).wf(),
    ensures
        days_of(records, since, n) matches Some(days) ==> ascending(days) && forall|i: int|
            0 <= i < days.len() ==> (#[trigger] days[i]).day >= since,
    decreases n,
{
    if n > 0 {
        lemma_days_ascend(records, since, n - 1);
        if days_of(records, since, n - 1) is Some && records[n - 1].counted(since) is Some {
            let days = days_of(records, since, n - 1)->0;
            let (day, amount) = records[n - 1].counted(since)->0;
            assert(records[n - 1].wf());
            assert(i64::MIN <= day <= i64::MAX);
            lemma_credits_keep_order(days, day, amount);
            lemma_day_slot(days, day, 0);
            let at = day_slot(days, day, 0);
            if with_credits(days, day, amount) is Some {
                let next = with_credits(days, day, amount)->0;
                assert forall|i: int| 0 <= i < next.len() implies (#[trigger] next[i]).day
                    >= since by {
                    if next.len() == days.len() {
                        assert(next[i].day == days[i].day);
                    } else if i < at {
                        assert(next[i] == days[i]);
                    } else if i > at {
                        assert(next[i] == days[i - 1]);
                    }
                }
            }
        }
    }
}

/// A history names each day once, in order, and none before its first day.
pub proof fn law_history_days_ascend(records: Seq<DatedRecord>, now: Timestamp)
    requires
        forall|i: int| 0 <= i < records.len() ==> (#[trigger] records[i]).wf(),
    ensures
        history_days(records, now) matches Some(days) ==> ascending(days) && forall|i: int|
            0 <= i < days.len() ==> (#[trigger] days[i]).day >= first_day(now),
{
    lemma_days_ascend(records, first_day(now), records.len() as int);
}

/// The text of a day, where the calendar holds it.
pub open spec fn day_name(day: int) -> Seq<char> {
    instant::date_text(instant::civil(instant::day_start(day)))
}

/// The text of a day.
pub fn day_label(day: i64) -> (r: Option<String>)
    ensures
        match r {
            Some(label) => instant::day_start(day as int).in_calendar() && label@ == day_name(
                day as int,
            ),
            None => !instant::day_start(day as int).in_calendar(),
        },
{
    match Timestamp::from_nanos(day as i128 * 86_400_000_000_000) {
        Some(at) => Some(instant::date_of(instant::to_civil(at))),
        None => None,
    }
}

/// The instant of a positive number of milliseconds, where the calendar holds
/// it.
pub open spec fn positive_millis(value: i64) -> Option<Timestamp> {
    if value <= 0 {
        None
    } else {
        instant::millis_instant(value)
    }
}

/// The instant of a positive number of milliseconds.
pub fn timestamp_from_millis(value: i64) -> (r: Option<Timestamp>)
    ensures
        r == positive_millis(value),
        r is Some ==> r->0.in_calendar(),
{
    if value <= 0 {
        None
    } else {
        Timestamp::from_millis(value)
    }
}

/// The optional instant of an optional number of milliseconds.
pub open spec fn optional_millis(value: Option<i64>) -> Option<Timestamp> {
    match value {
        Some(v) => positive_millis(v),
        None => None,
    }
}

fn read_millis(value: Option<i64>) -> (r: Option<Timestamp>)
    ensures
        r == optional_millis(value),
        r is Some ==> r->0.in_calendar(),
{
    match value {
        Some(v) => timestamp_from_millis(v),
        None => None,
    }
}

/// Whole seconds of a span that is not negative.
pub open spec fn whole_seconds(from: Timestamp, to: Timestamp) -> int {
    (to.nanos - from.nanos) / 1_000_000_000
}

/// The cycle of a status: its length in seconds, cut to whole minutes, and the
/// seconds of it that have passed.
pub open spec fn cycle_of(status: CreditStatus, now: Timestamp) -> Option<(int, int)> {
    match (optional_millis(status.cycle_start_millis), optional_millis(status.cycle_end_millis)) {
        (Some(start), Some(end)) => {
            let length = (whole_seconds(start, end) / 60) * 60;
            let left = whole_seconds(now, end);
            if end.nanos <= start.nanos || length <= 0 || left <= 0 || left > length {
                None
            } else {
                Some((length, length - left))
            }
        },
        _ => None,
    }
}

fn read_cycle(status: &CreditStatus, now: Timestamp) -> (r: Option<(i64, i64)>)
    requires
        now.in_calendar(),
    ensures
        match r {
            Some((length, passed)) => cycle_of(*status, now) == Some(
                (length as int, passed as int),
            ) && 0 <= passed <= length && 0 < length,
            None => cycle_of(*status, now) is None,
        },
{
    let start = match read_millis(status.cycle_start_millis) {
        Some(start) => start,
        None => return None,
    };
    let end = match read_millis(status.cycle_end_millis) {
        Some(end) => end,
        None => return None,
    };
    if end.nanos <= start.nanos {
        return None;
    }
    let seconds: i128 = (end.nanos - start.nanos) / 1_000_000_000;
    let length: i128 = (seconds / 60) * 60;
    if length <= 0 || end.nanos - now.nanos < 1_000_000_000 {
        return None;
    }
    let left: i128 = (end.nanos - now.nanos) / 1_000_000_000;
    if left > length {
        return None;
    }
    Some((length as i64, (length - left) as i64))
}

/// How far the used share is ahead of the passed share of the cycle, in percent.
pub open spec fn pace_of(status: CreditStatus, now: Timestamp) -> Option<Decimal> {
    match (status.budget_cap, cycle_of(status, now)) {
        (Some(budget), Some((length, passed))) => if !budget.positive() || status.unlimited == Some(
            true,
        ) {
            None
        } else {
            match (
                decimal::percent_of(decimal::or_zero(status.used_credit), budget),
                decimal::percent_of(
                    decimal::signed_whole(passed as i64),
                    decimal::signed_whole(length as i64),
                ),
            ) {
                (Some(actual), Some(expected)) => if passed == 0 && actual.positive() {
                    None
                } else {
                    decimal::decimal_difference(actual, expected)
                },
                _ => None,
            }
        },
        _ => None,
    }
}

/// How far the used share is ahead of the passed share of the cycle.
pub fn pacing_delta(status: &CreditStatus, now: Timestamp) -> (r: Option<Decimal>)
    requires
        status.wf(),
        now.in_calendar(),
    ensures
        r == pace_of(*status, now),
        r is Some ==> r->0.wf(),
{
    let budget = match status.budget_cap {
        Some(budget) => budget,
        None => return None,
    };
    if !budget.is_positive() {
        return None;
    }
    if let Some(unlimited) = status.unlimited {
        if unlimited {
            return None;
        }
    }
    let (length, passed) = match read_cycle(status, now) {
        Some(cycle) => cycle,
        None => return None,
    };
    let used = match status.used_credit {
        Some(used) => used,
        None => Decimal::of(0),
    };
    let actual = match used.percent_of_whole(budget) {
        Some(actual) => actual,
        None => return None,
    };
    if passed == 0 && actual.is_positive() {
        return None;
    }
    let expected = match Decimal::of_signed(passed).percent_of_whole(Decimal::of_signed(length)) {
        Some(expected) => expected,
        None => return None,
    };
    actual.minus(expected)
}

/// The words for a pace: on track, or ahead or behind by so many percent.
pub open spec fn pace_words(on_track: bool, ahead: bool, rounded: i64) -> Seq<char> {
    if on_track {
        "On track"@
    } else if rounded == 0 {
        if ahead {
            "Ahead of budget"@
        } else {
            "Behind budget"@
        }
    } else {
        text::signed_digits(rounded as int) + (if ahead {
            "% ahead of budget"@
        } else {
            "% behind budget"@
        })
    }
}

/// The words for a pace.
pub fn pacing_text(on_track: bool, ahead: bool, rounded: i64) -> (r: String)
    ensures
        r@ == pace_words(on_track, ahead, rounded),
{
    if on_track {
        "On track".to_owned()
    } else if rounded == 0 {
        if ahead {
            "Ahead of budget".to_owned()
        } else {
            "Behind budget".to_owned()
        }
    } else {
        let mut words = String::new();
        text::push_signed(&mut words, rounded);
        words.append(
            if ahead {
                "% ahead of budget"
            } else {
                "% behind budget"
            },
        );
        assert(words@ =~= pace_words(on_track, ahead, rounded));
        words
    }
}

/// Credits with at most two digits behind the point.
pub open spec fn credits_text(value: Decimal) -> Seq<char> {
    text::grouped_number(
        decimal::decimal_text(decimal::decimal_normalized(decimal::decimal_rounded(value, 2))),
    )
}

/// Credits with at most two digits behind the point.
pub fn format_credits(value: Decimal) -> (r: String)
    requires
        value.wf(),
    ensures
        r@ == credits_text(value),
{
    let plain = decimal::to_text(decimal::normalize(decimal::round(value, 2)));
    text::group_number(plain.as_str())
}

/// Whether a status has a budget that can be used up.
pub open spec fn limited(status: CreditStatus) -> bool {
    status.unlimited != Some(true) && decimal::or_zero(status.budget_cap).positive()
}

/// The used share in percent; `None` where it overflows.
pub open spec fn used_percent(status: CreditStatus) -> Option<Decimal> {
    if limited(status) {
        decimal::percent_of(decimal::or_zero(status.used_credit), decimal::or_zero(status.budget_cap))
    } else {
        Some(decimal::whole(0))
    }
}

/// The rows of a history.
pub open spec fn history_rows(history: HistoryNormalization, pace: Option<Seq<char>>) -> Seq<
    RowView,
> {
    let rows = seq![
        RowView { label: "Today"@, value: credits_text(history.today), secondary: None, sensitivity: DetailSensitivity::Public },
        RowView { label: "30d credits"@, value: credits_text(history.total), secondary: None, sensitivity: DetailSensitivity::Public },
    ];
    match pace {
        Some(words) => rows.push(RowView { label: "Pace"@, value: words, secondary: None, sensitivity: DetailSensitivity::Public }),
        None => rows,
    }
}

/// The amounts of the first `n` days, each under its name, where the calendar
/// holds the day.
pub open spec fn day_points(days: Seq<DayCredits>, n: int) -> Seq<(Seq<char>, Decimal)>
    decreases n,
{
    if n <= 0 {
        seq![]
    } else if instant::day_start(days[n - 1].day as int).in_calendar() {
        day_points(days, n - 1).push((day_name(days[n - 1].day as int), days[n - 1].amount))
    } else {
        day_points(days, n - 1)
    }
}

/// The amounts and entries of the first `n` days, each under its name, where the
/// calendar holds the day.
pub open spec fn day_buckets(days: Seq<DayCredits>, n: int) -> Seq<(Seq<char>, CostMetrics)>
    decreases n,
{
    if n <= 0 {
        seq![]
    } else if instant::day_start(days[n - 1].day as int).in_calendar() {
        day_buckets(days, n - 1).push(
            (
                day_name(days[n - 1].day as int),
                CostMetrics {
                    amount: Some(days[n - 1].amount),
                    records: Some(days[n - 1].record_count),
                },
            ),
        )
    } else {
        day_buckets(days, n - 1)
    }
}

fn name_days(days: &Vec<DayCredits>) -> (r: (Vec<(String, Decimal)>, Vec<(String, CostMetrics)>))
    ensures
        usage::point_values(r.0@) == day_points(days@, days@.len() as int),
        usage::bucket_values(r.1@) == day_buckets(days@, days@.len() as int),
{
    let mut points: Vec<(String, Decimal)> = Vec::new();
    let mut buckets: Vec<(String, CostMetrics)> = Vec::new();
    let mut i: usize = 0;
    assert(usage::point_values(points@) =~= seq![]);
    assert(usage::bucket_values(buckets@) =~= seq![]);
    while i < days.len()
        invariant
            i <= days@.len(),
            usage::point_values(points@) == day_points(days@, i as int),
            usage::bucket_values(buckets@) == day_buckets(days@, i as int),
        decreases days@.len() - i,
    {
        let day = days[i];
        let ghost shown = usage::point_values(points@);
        let ghost spent = usage::bucket_values(buckets@);
        if let Some(label) = day_label(day.day) {
            let ghost name = label@;
            let metrics = CostMetrics { amount: Some(day.amount), records: Some(day.record_count) };
            points.push((label.clone(), day.amount));
            buckets.push((label, metrics));
            assert(usage::point_values(points@) =~= shown.push((name, day.amount)));
            assert(usage::bucket_values(buckets@) =~= spent.push((name, metrics)));
        }
        i += 1;
    }
    (points, buckets)
}

/// The section of a history, with a chart where any day has credits.
pub open spec fn history_section(history: HistoryNormalization, pace: Option<Seq<char>>) -> SectionView {
    SectionView {
        title: "Credit history"@,
        rows: history_rows(history, pace),
        chart: if history.daily@.len() == 0 {
            None
        } else {
            Some(
                ChartView {
                    title: "Daily credits"@,
                    unit: "credits"@,
                    points: day_points(history.daily@, history.daily@.len() as int),
                },
            )
        },
    }
}

/// The spending that a history gives: in credits over thirty days, with the
/// current day as session. `complete` tells whether the history holds all of them.
pub open spec fn spending_of(
    history: HistoryNormalization,
    complete: bool,
    fetched_at: Timestamp,
) -> CostUsageView {
    CostUsageView {
        unit: "credits"@,
        session: CostMetrics {
            amount: Some(history.today),
            records: Some(history.today_records),
        },
        history: CostMetrics {
            amount: Some(history.total),
            records: Some(history.total_records),
        },
        days: HISTORY_DAYS,
        complete,
        label: Some(
            if complete {
                "Last 30 days"@
            } else {
                "Last 30 days (partial)"@
            },
        ),
        daily: day_buckets(history.daily@, history.daily@.len() as int),
        updated_at: fetched_at,
        provenance: CostProvenance::VendorMetered,
    }
}

/// How an account of this source is read.
pub open spec fn strategy_of(source: ProviderSource) -> Seq<char> {
    if source == ProviderSource::ManualCookie {
        "manual_cookie"@
    } else {
        "browser_session"@
    }
}

/// The reading of an account.
pub open spec fn sample_of(
    source: ProviderSource,
    fetched_at: Timestamp,
    status: CreditStatus,
    history: Option<HistoryNormalization>,
    complete: bool,
    pace: Option<Seq<char>>,
    email: Option<Seq<char>>,
) -> Option<SampleView> {
    match used_percent(status) {
        Some(used) => Some(
            SampleView {
                primary: Some(
                    WindowView {
                        used: Some(used),
                        minutes: None,
                        resets_at: if limited(status) {
                            optional_millis(status.cycle_end_millis)
                        } else {
                            None
                        },
                        description: Some("Credits"@),
                    },
                ),
                sections: match history {
                    Some(h) => seq![history_section(h, pace)],
                    None => seq![],
                },
                cost_usage: match history {
                    Some(h) => Some(spending_of(h, complete, fetched_at)),
                    None => None,
                },
                email,
                login_method: if email is Some {
                    Some("Cookie"@)
                } else {
                    None
                },
                ..usage::empty_sample(
                    ProviderId::ZoomMate,
                    fetched_at,
                    "zoommate"@,
                    strategy_of(source),
                )
            },
        ),
        None => None,
    }
}

/// The reading of an account. `complete` tells whether a history holds all of its
/// days, and `pace` is shown beside it.
pub fn normalize_usage(
    provider: ProviderId,
    source: ProviderSource,
    fetched_at: Timestamp,
    status: &CreditStatus,
    history: &Option<HistoryNormalization>,
    complete: bool,
    pace: &Option<String>,
    email: Option<String>,
) -> (r: Result<UsageSample, ClassifiedError>)
    requires
        status.wf(),
        *history is Some ==> history->0.wf(),
    ensures
        ({
            let expected = sample_of(
                source,
                fetched_at,
                *status,
                *history,
                complete,
                pace.deep_view(),
                email.deep_view(),
            );
            match r {
                Ok(sample) => zoommate::scope_ok(provider, source) && expected == Some(
                    sample.value(),
                ),
                Err(e) => if zoommate::scope_ok(provider, source) {
                    expected is None && e == error::plain(ErrorKind::Parse)
                } else {
                    e == error::plain(ErrorKind::Api)
                },
            }
        }),
{
    if let Err(e) = zoommate::validate_scope_source(provider, source) {
        return Err(e);
    }
    let budget = match status.budget_cap {
        Some(budget) => budget,
        None => Decimal::of(0),
    };
    let used = match status.used_credit {
        Some(used) => used,
        None => Decimal::of(0),
    };
    let unlimited = match status.unlimited {
        Some(unlimited) => unlimited,
        None => false,
    };
    let counts = !unlimited && budget.is_positive();
    let share = if counts {
        match used.percent_of_whole(budget) {
            Some(share) => share,
            None => return Err(ClassifiedError::new(ErrorKind::Parse)),
        }
    } else {
        Decimal::of(0)
    };
    let resets_at = if counts {
        read_millis(status.cycle_end_millis)
    } else {
        None
    };
    let strategy = if source == ProviderSource::ManualCookie {
        "manual_cookie"
    } else {
        "browser_session"
    };
    let mut sample = UsageSample::empty(ProviderId::ZoomMate, fetched_at, "zoommate", strategy);
    sample.primary =
    Some(
        RateWindow {
            used: Some(share),
            minutes: None,
            resets_at,
            description: Some("Credits".to_owned()),
        },
    );
    if let Some(h) = history {
        let mut rows = vec![
            DetailRow {
                label: "Today".to_owned(),
                value: format_credits(h.today),
                secondary: None,
                sensitivity: DetailSensitivity::Public,
            },
            DetailRow {
                label: "30d credits".to_owned(),
                value: format_credits(h.total),
                secondary: None,
                sensitivity: DetailSensitivity::Public,
            },
        ];
        assert(usage::row_values(rows@) =~= history_rows(*h, None));
        let ghost before = usage::row_values(rows@);
        if let Some(words) = pace {
            let row = DetailRow { label: "Pace".to_owned(), value: words.clone(), secondary: None, sensitivity: DetailSensitivity::Public };
            rows.push(row);
            assert(usage::row_values(rows@) =~= before.push(row.row()));
        }
        let (points, daily) = name_days(&h.daily);
        let chart = if h.daily.len() == 0 {
            None
        } else {
            Some(
                DetailChart {
                    title: "Daily credits".to_owned(),
                    unit: "credits".to_owned(),
                    points,
                },
            )
        };
        let label = if complete {
            "Last 30 days"
        } else {
            "Last 30 days (partial)"
        };
        sample.cost_usage =
        Some(
            CostUsage {
                unit: "credits".to_owned(),
                session: CostMetrics { amount: Some(h.today), records: Some(h.today_records) },
                history: CostMetrics { amount: Some(h.total), records: Some(h.total_records) },
                days: HISTORY_DAYS,
                complete,
                label: Some(label.to_owned()),
                daily,
                updated_at: fetched_at,
                provenance: CostProvenance::VendorMetered,
            },
        );
        sample.sections = usage::one_section("Credit history", rows, chart);
    }
    if email.is_some() {
        sample.login_method = Some("Cookie".to_owned());
    }
    sample.email = email;
    Ok(sample)
}

/// A shown share is never below zero and never above a hundred.
pub proof fn law_share_limited(status: CreditStatus)
    ensures
        used_percent(status) matches Some(used) ==> !used.below_zero() && !decimal::whole(100).less(
            used,
        ),
{
    if used_percent(status) is Some {
        if limited(status) {
            let product = decimal::decimal_product(
                decimal::or_zero(status.used_credit),
                decimal::whole(100),
            )->0;
            let quotient = decimal::decimal_quotient(product, decimal::or_zero(status.budget_cap))->0;
            decimal::law_clamped_in_range(quotient, decimal::whole(100));
        } else {
            assert(decimal::pow10(0) == 1);
        }
    }
}

/// A record counts where it was not deleted, has a cost that is not negative, and
/// lies on one of the thirty days that end with today; it counts on its own day.
pub proof fn law_thirty_days_count(record: DatedRecord, now: Timestamp)
    ensures
        record.counted(first_day(now)) matches Some((day, amount)) ==> {
            &&& !record.deleted
            &&& record.cost == Some(amount) && !amount.below_zero()
            &&& record.local is Some && day == record.local->0.seconds() / 86_400
            &&& day > now.seconds() / 86_400 - 30
        },
        !record.deleted && record.cost is Some && !record.cost->0.below_zero() && record.local is Some
            && record.local->0.seconds() / 86_400 > now.seconds() / 86_400 - 30 ==> record.counted(
            first_day(now),
        ) is Some,
{
}

/// How many of the first `n` records count.
pub open spec fn counted_records(records: Seq<DatedRecord>, since: int, n: int) -> int
    decreases n,
{
    if n <= 0 {
        0
    } else {
        counted_records(records, since, n - 1) + (if records[n - 1].counted(since) is Some {
            1int
        } else {
            0
        })
    }
}

proof fn lemma_record_sum_same(a: Seq<DayCredits>, b: Seq<DayCredits>, n: int)
    requires
        0 <= n <= a.len(),
        n <= b.len(),
        forall|i: int| 0 <= i < n ==> (#[trigger] a[i]).record_count == b[i].record_count,
    ensures
        record_sum(a, n) == record_sum(b, n),
    decreases n,
{
    if n > 0 {
        lemma_record_sum_same(a, b, n - 1);
    }
}

proof fn lemma_record_sum_update(days: Seq<DayCredits>, at: int, value: DayCredits, n: int)
    requires
        0 <= at < n <= days.len(),
    ensures
        record_sum(days.update(at, value), n) == record_sum(days, n) - days[at].record_count
            + value.record_count,
    decreases n,
{
    if n - 1 == at {
        lemma_record_sum_same(days.update(at, value), days, n - 1);
    } else {
        lemma_record_sum_update(days, at, value, n - 1);
    }
}

proof fn lemma_record_sum_insert(days: Seq<DayCredits>, at: int, value: DayCredits, n: int)
    requires
        0 <= at <= n <= days.len(),
    ensures
        record_sum(days.insert(at, value), n + 1) == record_sum(days, n) + value.record_count,
    decreases n,
{
    if n == at {
        lemma_record_sum_same(days.insert(at, value), days, n);
    } else {
        lemma_record_sum_insert(days, at, value, n - 1);
    }
}

proof fn lemma_slot_bounds(days: Seq<DayCredits>, day: int, from: int)
    requires
        0 <= from <= days.len(),
    ensures
        from <= day_slot(days, day, from) <= days.len(),
    decreases days.len() - from,
{
    if from < days.len() && days[from].day < day {
        lemma_slot_bounds(days, day, from + 1);
    }
}

/// A history counts every record that counts, each once.
pub proof fn law_every_record_is_counted_once(records: Seq<DatedRecord>, since: int, n: int)
    requires
        0 <= n <= records.len(),
    ensures
        days_of(records, since, n) matches Some(days) ==> record_sum(days, days.len() as int)
            == counted_records(records, since, n),
    decreases n,
{
    if n > 0 && days_of(records, since, n) is Some {
        law_every_record_is_counted_once(records, since, n - 1);
        let before = days_of(records, since, n - 1)->0;
        if let Some((day, amount)) = records[n - 1].counted(since) {
            let after = with_credits(before, day, amount)->0;
            let at = day_slot(before, day, 0);
            lemma_slot_bounds(before, day, 0);
            if at < before.len() && before[at].day == day {
                lemma_record_sum_update(before, at, after[at], before.len() as int);
                assert(after =~= before.update(at, after[at]));
            } else {
                lemma_record_sum_insert(before, at, after[at], before.len() as int);
                assert(after =~= before.insert(at, after[at]));
            }
        }
    }
}

/// A cycle runs in whole minutes, and what has passed of it is what is not left:
/// nothing before its first second, and never all of it.
pub proof fn law_cycles_run_down(status: CreditStatus, now: Timestamp)
    ensures
        cycle_of(status, now) matches Some((length, passed)) ==> {
            &&& optional_millis(status.cycle_end_millis) matches Some(end)
            &&& optional_millis(status.cycle_start_millis) matches Some(start)
            &&& length % 60 == 0 && length <= (end.nanos - start.nanos) / 1_000_000_000 < length + 60
            &&& 0 <= passed < length
            &&& length - passed == (end.nanos - now.nanos) / 1_000_000_000
        },
{
}

/// An account with a budget shows the used share of it in percent; one without a
/// limit shows nothing used.
pub proof fn law_budgets_show_as_percentages(status: CreditStatus)
    requires
        decimal::computes(),
        decimal::or_zero(status.used_credit).wf(),
        decimal::or_zero(status.budget_cap).wf(),
        100 * decimal::or_zero(status.used_credit).magnitude < decimal::MAGNITUDE_LIMIT,
    ensures
        status.unlimited == Some(true) || status.budget_cap is None ==> used_percent(status) == Some(
            decimal::whole(0),
        ),
        status.unlimited != Some(true) && status.budget_cap is Some
            && status.budget_cap->0.positive() && used_percent(status) is Some
            ==> decimal::limited_percentage(
            decimal::or_zero(status.used_credit),
            status.budget_cap->0,
            used_percent(status)->0,
        ),
{
    if limited(status) && used_percent(status) is Some {
        decimal::law_percentages_are_shares(
            decimal::or_zero(status.used_credit),
            decimal::or_zero(status.budget_cap),
        );
    }
}

/// A history starts thirty days before a reading.
pub proof fn law_histories_start_thirty_days_back(fetched_at: Timestamp)
    ensures
        history_start(fetched_at) matches Some(start) ==> fetched_at.nanos - start.nanos == 30 * 24
            * 3600 * 1_000_000_000,
{
}

/// The pace is the share of the budget that is used less the share of the cycle that
/// has passed, both in percent.
pub proof fn law_pace_compares_use_and_time(status: CreditStatus, now: Timestamp)
    requires
        decimal::computes(),
        decimal::or_zero(status.used_credit).wf(),
        decimal::or_zero(status.budget_cap).wf(),
        100 * decimal::or_zero(status.used_credit).magnitude < decimal::MAGNITUDE_LIMIT,
    ensures
        pace_of(status, now) matches Some(pace) ==> (cycle_of(status, now) matches Some(
            (length, passed),
        ) && (length <= i64::MAX ==> exists|actual: Decimal, expected: Decimal|
            #[trigger] decimal::limited_percentage(
                decimal::or_zero(status.used_credit),
                status.budget_cap->0,
                actual,
            ) && #[trigger] decimal::limited_percentage(
                decimal::signed_whole(passed as i64),
                decimal::signed_whole(length as i64),
                expected,
            ) && (actual.wf() && expected.wf() ==> decimal::difference_right(
                actual,
                expected,
                Some(pace),
            )))),
{
    if pace_of(status, now) is Some {
        let (length, passed) = cycle_of(status, now)->0;
        if length <= i64::MAX {
            let used = decimal::or_zero(status.used_credit);
            let budget = status.budget_cap->0;
            let part = decimal::signed_whole(passed as i64);
            let all = decimal::signed_whole(length as i64);
            decimal::law_percentages_are_shares(used, budget);
            decimal::law_percentages_are_shares(part, all);
            let actual = decimal::percent_of(used, budget)->0;
            let expected = decimal::percent_of(part, all)->0;
            assert(decimal::limited_percentage(used, budget, actual));
            assert(decimal::limited_percentage(part, all, expected));
        }
    }
}

/// A status is read from the fields that name its parts.
pub proof fn law_statuses_are_read_from_their_fields(t: Tree)
    ensures
        status_in(t) matches Some(status) ==> {
            &&& number_in(t, "budget_cap"@) == Some(status.budget_cap)
            &&& number_in(t, "used_credit"@) == Some(status.used_credit)
            &&& integer_in(t, "cycle_start_date"@) == Some(status.cycle_start_millis)
            &&& integer_in(t, "cycle_end_date"@) == Some(status.cycle_end_millis)
            &&& bool_in(t, "is_unlimited"@) == Some(status.unlimited)
        },
        record_of(t) matches Some(record) ==> {
            &&& number_in(t, "cost"@) == Some(record.cost)
            &&& text_in(t, "time"@) == Some(record.time)
            &&& bool_in(t, "is_deleted"@) == Some(record.deleted)
        },
{
}

/// What was spent today is told apart from what was spent in thirty days.
pub proof fn law_spending_tells_today_and_the_month(
    history: HistoryNormalization,
    complete: bool,
    fetched_at: Timestamp,
)
    ensures
        ({
            let told = spending_of(history, complete, fetched_at);
            &&& told.session.amount == Some(history.today)
            &&& told.session.records == Some(history.today_records)
            &&& told.history.amount == Some(history.total)
            &&& told.history.records == Some(history.total_records)
            &&& told.days == 30
            &&& told.complete == complete
            &&& told.updated_at == fetched_at
        }),
{
}

/// A window of credits resets at the end of the cycle, where there is a limit.
pub proof fn law_credits_reset_with_the_cycle(
    source: ProviderSource,
    fetched_at: Timestamp,
    status: CreditStatus,
    history: Option<HistoryNormalization>,
    complete: bool,
    pace: Option<Seq<char>>,
    email: Option<Seq<char>>,
)
    ensures
        sample_of(source, fetched_at, status, history, complete, pace, email) matches Some(sample)
            ==> {
            &&& sample.primary matches Some(window)
            &&& window.used == used_percent(status)
            &&& status.unlimited == Some(true) ==> window.resets_at is None
            &&& status.unlimited != Some(true) && status.budget_cap is Some
                && status.budget_cap->0.positive() ==> window.resets_at == optional_millis(
                status.cycle_end_millis,
            )
        },
        status.cycle_end_millis matches Some(millis) ==> (optional_millis(
            status.cycle_end_millis,
        ) matches Some(at) ==> at.nanos == millis * 1_000_000),
{
}

/// A history ends with an empty page, with a page older than it, and where pages of
/// fifty have covered all entries; it goes on otherwise.
pub proof fn law_histories_end_when_covered(
    listing: HistoryListing,
    page: HistoryPage,
    start: Timestamp,
)
    ensures
        page.records@.len() == 0 ==> ends_history(listing, page, start),
        page.total matches Some(total) ==> ((listing.page + 1) * 50 >= total ==> ends_history(
            listing,
            page,
            start,
        )),
        ends_history(listing, page, start) && page.records@.len() > 0 && !all_older(
            record_values(page.records@),
            start,
        ) ==> (page.total matches Some(total) ==> (listing.page + 1) * 50 >= total),
{
}

} // verus!
