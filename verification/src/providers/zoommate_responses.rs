//! ZoomMate responses with a history of one page, read in a fixed local calendar.

use vstd::prelude::*;

use crate::decimal::Decimal;
use crate::error;
use crate::error::{ClassifiedError, ErrorKind};
use crate::instant;
use crate::instant::Timestamp;
use crate::json;
use crate::providers::zoommate;
use crate::providers::zoommate_usage;
use crate::providers::zoommate_usage::{
    CreditStatus, DatedRecord, HistoryNormalization, HistoryRecord, RecordView,
};
use crate::registry::ProviderId;
use crate::usage::ProviderSource;

verus! {

/// An entry with the wall-clock instant at which it was made, on a clock that
/// runs `offset` seconds ahead.
pub open spec fn dated_of(record: RecordView, offset: i32) -> DatedRecord {
    DatedRecord {
        cost: record.cost,
        deleted: record.deleted == Some(true),
        local: match zoommate_usage::record_instant(record.time) {
            Some(made) => if made.in_calendar() {
                zoommate_usage::local_instant(made, offset)
            } else {
                None
            },
            None => None,
        },
    }
}

/// Entries with the wall-clock instants at which they were made.
pub open spec fn all_dated(records: Seq<RecordView>, offset: i32) -> Seq<DatedRecord> {
    Seq::new(records.len(), |i: int| dated_of(records[i], offset))
}

/// An entry with the wall-clock instant at which it was made.
pub fn dated(record: &HistoryRecord, offset: i32) -> (r: DatedRecord)
    requires
        record.wf(),
    ensures
        r == dated_of(record.value(), offset),
        r.wf(),
{
    let made = match zoommate_usage::parse_record_time(&record.time) {
        Some(made) => made.within_calendar(),
        None => None,
    };
    let local = match made {
        Some(made) => zoommate_usage::localized(made, offset),
        None => None,
    };
    let deleted = match record.deleted {
        Some(deleted) => deleted,
        None => false,
    };
    DatedRecord { cost: record.cost, deleted, local }
}

/// The credits by day that entries give on a clock that runs `offset` seconds
/// ahead; `None` where they cannot be normalized.
pub open spec fn local_days(records: Seq<RecordView>, at: Timestamp, offset: i32) -> Option<
    Seq<zoommate_usage::DayCredits>,
> {
    match zoommate_usage::local_instant(at, offset) {
        Some(now) => zoommate_usage::history_days(all_dated(records, offset), now),
        None => None,
    }
}

/// Whether a history shows the given days: its totals are theirs, and today's
/// are those of the local day of the reading.
pub open spec fn shows_days(
    history: HistoryNormalization,
    days: Seq<zoommate_usage::DayCredits>,
    today: int,
) -> bool {
    &&& history.daily@ == days
    &&& (history.today, history.today_records) == zoommate_usage::on_day(days, today)
    &&& zoommate_usage::credit_sum(days, days.len() as int) == Some(history.total)
    &&& history.total_records == zoommate_usage::record_sum(days, days.len() as int)
}

/// The history of entries on a clock that runs `offset` seconds ahead.
pub fn local_history(records: &Vec<HistoryRecord>, at: Timestamp, offset: i32) -> (r: Result<
    HistoryNormalization,
    ClassifiedError,
>)
    requires
        at.in_calendar(),
        zoommate_usage::records_wf(records@),
    ensures
        ({
            let days = local_days(zoommate_usage::record_values(records@), at, offset);
            match r {
                Ok(history) => days is Some && shows_days(
                    history,
                    days->0,
                    instant::day_index(zoommate_usage::local_instant(at, offset)->0),
                ) && history.wf(),
                Err(e) => days is None && e == error::plain(ErrorKind::Parse),
            }
        }),
{
    let now = match zoommate_usage::localized(at, offset) {
        Some(now) => now,
        None => return Err(ClassifiedError::new(ErrorKind::Parse)),
    };
    let ghost values = zoommate_usage::record_values(records@);
    let mut list: Vec<DatedRecord> = Vec::new();
    let mut i: usize = 0;
    while i < records.len()
        invariant
            i <= records@.len(),
            zoommate_usage::records_wf(records@),
            values == zoommate_usage::record_values(records@),
            list@ == all_dated(values, offset).take(i as int),
            forall|j: int| 0 <= j < list@.len() ==> (#[trigger] list@[j]).wf(),
        decreases records@.len() - i,
    {
        assert(records@[i as int].wf());
        let made = dated(&records[i], offset);
        assert(values[i as int] == records@[i as int].value());
        assert(all_dated(values, offset).take(i as int + 1) =~= all_dated(values, offset).take(
            i as int,
        ).push(made));
        list.push(made);
        i += 1;
    }
    assert(list@ =~= all_dated(values, offset));
    zoommate_usage::normalize_history(&list, now)
}

/// What the responses of an account hold: the status, the history and whether it
/// holds every entry there is, and how far the used share is ahead of the passed
/// share of the cycle.
pub struct CreditDocuments {
    pub status: CreditStatus,
    pub history: Option<HistoryNormalization>,
    pub covered: bool,
    pub pace: Option<Decimal>,
}

/// The entries of a page that can be read.
pub open spec fn page_records(body: Seq<u8>) -> Seq<RecordView> {
    let (records, _) = zoommate_usage::page_of(body)->0;
    records
}

/// Whether a page that can be read holds every entry there is.
pub open spec fn page_covers(body: Seq<u8>) -> bool {
    let (records, total) = zoommate_usage::page_of(body)->0;
    match total {
        Some(total) => records.len() >= total,
        None => true,
    }
}

/// Whether responses can be read.
pub open spec fn readable(
    status_body: Seq<u8>,
    history_body: Option<Seq<u8>>,
    at: Timestamp,
    offset: i32,
) -> bool {
    &&& zoommate_usage::status_of(status_body) is Some
    &&& match history_body {
        Some(body) => zoommate_usage::page_of(body) is Some && local_days(
            page_records(body),
            at,
            offset,
        ) is Some,
        None => true,
    }
}

/// Reads the responses of an account on a clock that runs `offset` seconds ahead.
pub fn parse_zoommate_responses_with_calendar_offset(
    provider: ProviderId,
    fetched_at: Timestamp,
    status_body: &[u8],
    history_body: Option<&[u8]>,
    source: ProviderSource,
    offset: i32,
) -> (r: Result<CreditDocuments, ClassifiedError>)
    requires
        fetched_at.in_calendar(),
    ensures
        ({
            let fine = readable(status_body@, json::optional_bytes(history_body), fetched_at, offset);
            match r {
                Ok(documents) => {
                    &&& zoommate::scope_ok(provider, source)
                    &&& fine
                    &&& zoommate_usage::status_of(status_body@) == Some(documents.status)
                    &&& documents.status.wf()
                    &&& documents.pace == zoommate_usage::pace_of(documents.status, fetched_at)
                    &&& documents.pace is Some ==> documents.pace->0.wf()
                    &&& documents.history is Some <==> history_body is Some
                    &&& documents.covered == (match history_body {
                        Some(body) => page_covers(body@),
                        None => true,
                    })
                    &&& history_body matches Some(body) ==> shows_days(
                        documents.history->0,
                        local_days(page_records(body@), fetched_at, offset)->0,
                        instant::day_index(zoommate_usage::local_instant(fetched_at, offset)->0),
                    ) && documents.history->0.wf()
                },
                Err(e) => if zoommate::scope_ok(provider, source) {
                    !fine && e == error::plain(ErrorKind::Parse)
                } else {
                    e == error::plain(ErrorKind::Api)
                },
            }
        }),
{
    if let Err(e) = zoommate::validate_scope_source(provider, source) {
        return Err(e);
    }
    let status = match zoommate_usage::parse_status_response(status_body) {
        Ok(status) => status,
        Err(e) => return Err(e),
    };
    let mut covered = true;
    let history = match history_body {
        Some(body) => match zoommate_usage::parse_history_page(body) {
            Ok(page) => {
                let snapshot = zoommate_usage::single_page(page);
                covered = snapshot.coverage_established;
                match local_history(&snapshot.records, fetched_at, offset) {
                    Ok(history) => Some(history),
                    Err(e) => return Err(e),
                }
            },
            Err(e) => return Err(e),
        },
        None => None,
    };
    let pace = zoommate_usage::pacing_delta(&status, fetched_at);
    Ok(CreditDocuments { status, history, covered, pace })
}

} // verus!
