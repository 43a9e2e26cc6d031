//! Cloud Monitoring quota series of Google Vertex AI.
//!
//! A measured amount is known here by its rank: a number that orders amounts
//! and is zero for the amount zero only.

use vstd::prelude::*;

use crate::error;
use crate::error::{ClassifiedError, ErrorKind};
use crate::instant;
use crate::instant::Timestamp;
use crate::settings;
use crate::text;
use crate::transport;
use crate::transport::{Authentication, HttpRequest, Method, RequestAccept};
use crate::urls;

verus! {

pub const MAX_PAGE_TOKEN_BYTES: usize = 4 * 1024;

pub const MAX_PAGES: usize = 20;

pub const MAX_SERIES: usize = 4096;

pub const MAX_POINTS_PER_SERIES: usize = 4096;

pub const MAX_LABELS_PER_SERIES: usize = 128;

pub const MAX_LABEL_BYTES: usize = 4 * 1024;

/// Length of the observed interval in nanoseconds.
pub const QUOTA_WINDOW_NANOS: i128 = 86_400_000_000_000;

/// A number that a point holds.
#[derive(Debug, Clone, Copy, PartialEq, Eq, Structural)]
pub enum Reading {
    /// The text is no number.
    Unreadable,
    /// The number is negative or not finite.
    OutOfRange,
    /// The rank of the number.
    Rank(u64),
}

/// One point of a series.
#[derive(Debug, Clone, Copy, PartialEq, Eq, Structural)]
pub struct Point {
    pub double_value: Option<Reading>,
    pub int64_value: Option<Reading>,
}

/// One time series.
pub struct Series {
    pub metric_labels: Vec<(String, String)>,
    pub resource_labels: Vec<(String, String)>,
    pub points: Vec<Point>,
}

/// Mathematical value of a [`Series`].
pub struct SeriesView {
    pub metric_labels: Seq<(Seq<char>, Seq<char>)>,
    pub resource_labels: Seq<(Seq<char>, Seq<char>)>,
    pub points: Seq<Point>,
}

impl Series {
    pub open spec fn value(self) -> SeriesView {
        SeriesView {
            metric_labels: self.metric_labels.deep_view(),
            resource_labels: self.resource_labels.deep_view(),
            points: self.points@,
        }
    }
}

/// The values of a list of series.
pub open spec fn series_values(list: Seq<Series>) -> Seq<SeriesView> {
    Seq::new(list.len(), |i: int| list[i].value())
}

/// One page of a listing.
pub struct Page {
    pub series: Vec<Series>,
    pub next_page_token: Option<String>,
}

/// Whether a text can be a label or its name.
pub open spec fn label_ok(s: Seq<char>) -> bool {
    text::byte_len(s) <= MAX_LABEL_BYTES && !text::has_control(s)
}

/// Checks a label or its name.
pub fn validate_label(value: &str) -> (r: Result<(), ClassifiedError>)
    ensures
        match r {
            Ok(_) => label_ok(value@),
            Err(e) => !label_ok(value@) && e == error::plain(ErrorKind::Parse),
        },
{
    let chars = text::chars_of(value);
    if value.len() > MAX_LABEL_BYTES || text::any_control(chars.as_slice()) {
        return Err(ClassifiedError::new(ErrorKind::Parse));
    }
    Ok(())
}

/// Whether labels are few and bounded.
pub open spec fn labels_ok(labels: Seq<(Seq<char>, Seq<char>)>) -> bool {
    labels.len() <= MAX_LABELS_PER_SERIES && forall|i: int|
        0 <= i < labels.len() ==> label_ok((#[trigger] labels[i]).0) && label_ok(labels[i].1)
}

/// Checks labels.
pub fn validate_labels(labels: &Vec<(String, String)>) -> (r: Result<(), ClassifiedError>)
    ensures
        match r {
            Ok(_) => labels_ok(labels.deep_view()),
            Err(e) => !labels_ok(labels.deep_view()) && e == error::plain(ErrorKind::Parse),
        },
{
    let ghost all = labels.deep_view();
    if labels.len() > MAX_LABELS_PER_SERIES {
        return Err(ClassifiedError::new(ErrorKind::Parse));
    }
    let mut i: usize = 0;
    while i < labels.len()
        invariant
            all == labels.deep_view(),
            i <= labels@.len() <= MAX_LABELS_PER_SERIES,
            forall|j: int| 0 <= j < i ==> label_ok((#[trigger] all[j]).0) && label_ok(all[j].1),
        decreases labels@.len() - i,
    {
        assert(all[i as int] == (labels@[i as int].0@, labels@[i as int].1@));
        if let Err(e) = validate_label(labels[i].0.as_str()) {
            assert(!label_ok(all[i as int].0));
            return Err(e);
        }
        if let Err(e) = validate_label(labels[i].1.as_str()) {
            assert(!label_ok(all[i as int].1));
            return Err(e);
        }
        i += 1;
    }
    Ok(())
}

/// Whether a text can be a page token.
pub open spec fn page_token_ok(s: Seq<char>) -> bool {
    text::byte_len(s) <= MAX_PAGE_TOKEN_BYTES && !text::has_control(s) && s == text::trimmed(s)
}

/// Checks a page token.
pub fn validate_page_token(value: &str) -> (r: Result<(), ClassifiedError>)
    ensures
        match r {
            Ok(_) => page_token_ok(value@),
            Err(e) => !page_token_ok(value@) && e == error::plain(ErrorKind::Parse),
        },
{
    let chars = text::chars_of(value);
    if value.len() > MAX_PAGE_TOKEN_BYTES || text::any_control(chars.as_slice()) || !text::same(
        chars.as_slice(),
        text::trim(chars.as_slice()),
    ) {
        return Err(ClassifiedError::new(ErrorKind::Parse));
    }
    Ok(())
}

/// Whether a series is bounded.
pub open spec fn series_ok(s: SeriesView) -> bool {
    s.points.len() <= MAX_POINTS_PER_SERIES && labels_ok(s.metric_labels) && labels_ok(
        s.resource_labels,
    )
}

/// Whether a page is bounded.
pub open spec fn page_ok(page: Page) -> bool {
    &&& page.series@.len() <= MAX_SERIES
    &&& page.next_page_token is Some ==> page_token_ok(page.next_page_token->0@)
    &&& forall|i: int| 0 <= i < page.series@.len() ==> series_ok((#[trigger] page.series@[i]).value())
}

/// Checks a page.
pub fn validate_page(page: &Page) -> (r: Result<(), ClassifiedError>)
    ensures
        match r {
            Ok(_) => page_ok(*page),
            Err(e) => !page_ok(*page) && e == error::plain(ErrorKind::Parse),
        },
{
    if page.series.len() > MAX_SERIES {
        return Err(ClassifiedError::new(ErrorKind::Parse));
    }
    if let Some(token) = &page.next_page_token {
        if let Err(e) = validate_page_token(token.as_str()) {
            return Err(e);
        }
    }
    let mut i: usize = 0;
    while i < page.series.len()
        invariant
            i <= page.series@.len(),
            forall|j: int| 0 <= j < i ==> series_ok((#[trigger] page.series@[j]).value()),
        decreases page.series@.len() - i,
    {
        let series = &page.series[i];
        if series.points.len() > MAX_POINTS_PER_SERIES {
            assert(!series_ok(page.series@[i as int].value()));
            return Err(ClassifiedError::new(ErrorKind::Parse));
        }
        if let Err(e) = validate_labels(&series.metric_labels) {
            assert(!series_ok(page.series@[i as int].value()));
            return Err(e);
        }
        if let Err(e) = validate_labels(&series.resource_labels) {
            assert(!series_ok(page.series@[i as int].value()));
            return Err(e);
        }
        i += 1;
    }
    Ok(())
}

/// A listing under way.
pub struct Listing {
    /// How many more pages may be asked for.
    pub pages_left: usize,
    /// The token of the page to ask for next.
    pub token: Option<String>,
    /// The tokens met so far.
    pub seen: Vec<String>,
    /// The series listed so far.
    pub series: Vec<Series>,
}

/// What to do after a page.
pub enum ListingStep {
    Done(Vec<Series>),
    Again(Listing),
}

/// The token of the page behind `page`.
pub open spec fn following_token(page: Page) -> Option<Seq<char>> {
    match page.next_page_token {
        Some(token) => if token@.len() > 0 {
            Some(token@)
        } else {
            None
        },
        None => None,
    }
}

impl Listing {
    /// Few series so far, and at least one page may be asked for.
    pub open spec fn wf(self) -> bool {
        self.series@.len() <= MAX_SERIES && 0 < self.pages_left <= MAX_PAGES
    }

    /// A listing before its first page.
    pub fn start() -> (r: Listing)
        ensures
            r.pages_left == MAX_PAGES,
            r.token is None,
            r.seen@.len() == 0,
            r.series@.len() == 0,
            r.wf(),
    {
        Listing { pages_left: MAX_PAGES, token: None, seen: Vec::new(), series: Vec::new() }
    }

    /// Whether a page can follow.
    pub open spec fn accepts(self, page: Page) -> bool {
        &&& page_ok(page)
        &&& self.series@.len() + page.series@.len() <= MAX_SERIES
        &&& following_token(page) is Some ==> !text::includes(
            self.seen.deep_view(),
            following_token(page)->0,
        ) && self.pages_left > 1
    }

    /// Takes the next page. A token met before, too many series and a token on
    /// the last page that may be asked for are failures.
    pub fn on_page(self, page: Page) -> (r: Result<ListingStep, ClassifiedError>)
        requires
            self.wf(),
        ensures
            match r {
                Err(e) => !self.accepts(page) && e == error::plain(ErrorKind::Parse),
                Ok(ListingStep::Done(series)) => self.accepts(page) && following_token(page) is None
                    && series@ == self.series@ + page.series@,
                Ok(ListingStep::Again(next)) => self.accepts(page) && following_token(page)
                    == next.token.deep_view() && next.token is Some && next.pages_left
                    == self.pages_left - 1 && next.seen.deep_view() == self.seen.deep_view().push(
                    next.token->0@,
                ) && next.series@ == self.series@ + page.series@ && next.wf(),
            },
    {
        if let Err(e) = validate_page(&page) {
            return Err(e);
        }
        if page.series.len() > MAX_SERIES - self.series.len() {
            return Err(ClassifiedError::new(ErrorKind::Parse));
        }
        let mut series = self.series;
        let mut more = page.series;
        series.append(&mut more);
        let token = match page.next_page_token {
            Some(token) => {
                if token.as_str().is_empty() {
                    return Ok(ListingStep::Done(series));
                }
                token
            },
            None => return Ok(ListingStep::Done(series)),
        };
        if text::any_same(&self.seen, token.as_str()) || self.pages_left <= 1 {
            return Err(ClassifiedError::new(ErrorKind::Parse));
        }
        let mut seen = self.seen;
        let ghost before = seen.deep_view();
        seen.push(token.clone());
        assert(seen.deep_view() =~= before.push(token@));
        Ok(
            ListingStep::Again(
                Listing { pages_left: self.pages_left - 1, token: Some(token), seen, series },
            ),
        )
    }
}

/// What identifies a quota.
pub struct QuotaKey {
    pub quota_metric: String,
    pub limit_name: String,
    pub location: String,
}

/// Mathematical value of a [`QuotaKey`].
pub struct KeyView {
    pub quota_metric: Seq<char>,
    pub limit_name: Seq<char>,
    pub location: Seq<char>,
}

impl QuotaKey {
    pub open spec fn value(self) -> KeyView {
        KeyView {
            quota_metric: self.quota_metric@,
            limit_name: self.limit_name@,
            location: self.location@,
        }
    }

    fn same(&self, other: &QuotaKey) -> (r: bool)
        ensures
            r == (self.value() == other.value()),
    {
        text::same_text(self.quota_metric.as_str(), other.quota_metric.as_str())
            && text::same_text(self.limit_name.as_str(), other.limit_name.as_str())
            && text::same_text(self.location.as_str(), other.location.as_str())
    }
}

/// The quota that a series measures: its metric label, or else the quota of its
/// resource; `None` where neither is given.
pub open spec fn key_of(s: SeriesView) -> Option<KeyView> {
    let metric = match settings::entry(s.metric_labels, "quota_metric"@, 0) {
        Some(m) => Some(m),
        None => settings::entry(s.resource_labels, "quota_id"@, 0),
    };
    match metric {
        Some(m) => if m.len() > 0 {
            Some(
                KeyView {
                    quota_metric: m,
                    limit_name: match settings::entry(s.metric_labels, "limit_name"@, 0) {
                        Some(name) => name,
                        None => seq![],
                    },
                    location: match settings::entry(s.resource_labels, "location"@, 0) {
                        Some(place) => place,
                        None => "global"@,
                    },
                },
            )
        } else {
            None
        },
        None => None,
    }
}

/// The value of an optional key.
pub open spec fn key_value(key: Option<QuotaKey>) -> Option<KeyView> {
    match key {
        Some(k) => Some(k.value()),
        None => None,
    }
}

/// The quota that a series measures.
pub fn quota_key(series: &Series) -> (r: Result<Option<QuotaKey>, ClassifiedError>)
    ensures
        match r {
            Ok(key) => labels_ok(series.value().metric_labels) && labels_ok(
                series.value().resource_labels,
            ) && key_value(key) == key_of(series.value()),
            Err(e) => !(labels_ok(series.value().metric_labels) && labels_ok(
                series.value().resource_labels,
            )) && e == error::plain(ErrorKind::Parse),
        },
{
    if let Err(e) = validate_labels(&series.metric_labels) {
        return Err(e);
    }
    if let Err(e) = validate_labels(&series.resource_labels) {
        return Err(e);
    }
    let metric = match settings::lookup(&series.metric_labels, "quota_metric") {
        Some(m) => m,
        None => match settings::lookup(&series.resource_labels, "quota_id") {
            Some(m) => m,
            None => return Ok(None),
        },
    };
    if metric.is_empty() {
        return Ok(None);
    }
    let limit_name = match settings::lookup(&series.metric_labels, "limit_name") {
        Some(name) => name.to_owned(),
        None => String::new(),
    };
    let location = match settings::lookup(&series.resource_labels, "location") {
        Some(place) => place.to_owned(),
        None => "global".to_owned(),
    };
    let key = QuotaKey { quota_metric: metric.to_owned(), limit_name, location };
    assert(key.value().limit_name =~= key_of(series.value())->0.limit_name);
    Ok(Some(key))
}

/// The larger of two ranks.
pub open spec fn larger(a: u64, b: u64) -> u64 {
    if a < b {
        b
    } else {
        a
    }
}

/// The largest rank among the first `n` points: `None` where one of them holds
/// both kinds of number or one out of range, `Some(None)` where none is
/// readable.
pub open spec fn largest(points: Seq<Point>, n: int) -> Option<Option<u64>>
    decreases n,
{
    if n <= 0 {
        Some(None)
    } else {
        let reading = match (points[n - 1].double_value, points[n - 1].int64_value) {
            (Some(value), None) => value,
            (None, Some(value)) => value,
            (None, None) => Reading::Unreadable,
            _ => Reading::OutOfRange,
        };
        match (largest(points, n - 1), reading) {
            (None, _) => None,
            (_, Reading::OutOfRange) => None,
            (before, Reading::Unreadable) => before,
            (Some(None), Reading::Rank(rank)) => Some(Some(rank)),
            (Some(Some(most)), Reading::Rank(rank)) => Some(Some(larger(most, rank))),
        }
    }
}

proof fn lemma_largest_failure(points: Seq<Point>, n: int, m: int)
    requires
        0 <= n <= m,
        largest(points, n) is None,
    ensures
        largest(points, m) is None,
    decreases m - n,
{
    if n < m {
        lemma_largest_failure(points, n, m - 1);
    }
}

/// The largest rank among the points.
pub fn maximum_point(points: &Vec<Point>) -> (r: Result<Option<u64>, ClassifiedError>)
    ensures
        match r {
            Ok(rank) => points@.len() <= MAX_POINTS_PER_SERIES && largest(
                points@,
                points@.len() as int,
            ) == Some(rank),
            Err(e) => (points@.len() > MAX_POINTS_PER_SERIES || largest(
                points@,
                points@.len() as int,
            ) is None) && e == error::plain(ErrorKind::Parse),
        },
{
    if points.len() > MAX_POINTS_PER_SERIES {
        return Err(ClassifiedError::new(ErrorKind::Parse));
    }
    let mut most: Option<u64> = None;
    let mut i: usize = 0;
    while i < points.len()
        invariant
            i <= points@.len() <= MAX_POINTS_PER_SERIES,
            largest(points@, i as int) == Some(most),
        decreases points@.len() - i,
    {
        let reading = match (points[i].double_value, points[i].int64_value) {
            (Some(value), None) => value,
            (None, Some(value)) => value,
            (None, None) => Reading::Unreadable,
            (Some(_), Some(_)) => Reading::OutOfRange,
        };
        match reading {
            Reading::OutOfRange => {
                proof {
                    lemma_largest_failure(points@, i as int + 1, points@.len() as int);
                }
                return Err(ClassifiedError::new(ErrorKind::Parse));
            },
            Reading::Unreadable => {},
            Reading::Rank(rank) => {
                most = match most {
                    None => Some(rank),
                    Some(before) => Some(
                        if before < rank {
                            rank
                        } else {
                            before
                        },
                    ),
                };
            },
        }
        i += 1;
    }
    Ok(most)
}

/// The largest rank of a quota.
pub struct Bucket {
    pub key: QuotaKey,
    pub rank: u64,
}

/// The values of a list of buckets.
pub open spec fn bucket_values(list: Seq<Bucket>) -> Seq<(KeyView, u64)> {
    Seq::new(list.len(), |i: int| (list[i].key.value(), list[i].rank))
}

/// Position of the bucket of a quota at or behind `from`.
pub open spec fn bucket_position(buckets: Seq<(KeyView, u64)>, key: KeyView, from: int) -> Option<
    int,
>
    decreases buckets.len() - from,
{
    if from < 0 || from >= buckets.len() {
        None
    } else if buckets[from].0 == key {
        Some(from)
    } else {
        bucket_position(buckets, key, from + 1)
    }
}

fn find_bucket(buckets: &Vec<Bucket>, key: &QuotaKey) -> (r: Option<usize>)
    ensures
        match r {
            Some(i) => bucket_position(bucket_values(buckets@), key.value(), 0) == Some(i as int)
                && i < buckets@.len() && buckets@[i as int].key.value() == key.value(),
            None => bucket_position(bucket_values(buckets@), key.value(), 0) is None,
        },
{
    let ghost all = bucket_values(buckets@);
    let mut i: usize = 0;
    while i < buckets.len()
        invariant
            all == bucket_values(buckets@),
            i <= buckets@.len(),
            bucket_position(all, key.value(), 0) == bucket_position(all, key.value(), i as int),
        decreases buckets@.len() - i,
    {
        assert(all[i as int] == (buckets@[i as int].key.value(), buckets@[i as int].rank));
        if buckets[i].key.same(key) {
            return Some(i);
        }
        i += 1;
    }
    None
}

/// Buckets with one more measurement.
pub open spec fn with_measurement(buckets: Seq<(KeyView, u64)>, key: KeyView, rank: u64) -> Seq<
    (KeyView, u64),
> {
    match bucket_position(buckets, key, 0) {
        Some(i) => buckets.update(i, (key, larger(buckets[i].1, rank))),
        None => buckets.push((key, rank)),
    }
}

/// The buckets of the first `n` series; `None` where one of them is malformed.
/// Series without a quota or a readable point are passed over.
pub open spec fn aggregated(list: Seq<SeriesView>, n: int) -> Option<Seq<(KeyView, u64)>>
    decreases n,
{
    if n <= 0 {
        Some(seq![])
    } else {
        let s = list[n - 1];
        match aggregated(list, n - 1) {
            None => None,
            Some(buckets) => if !labels_ok(s.metric_labels) || !labels_ok(s.resource_labels) {
                None
            } else {
                match key_of(s) {
                    None => Some(buckets),
                    Some(key) => if s.points.len() > MAX_POINTS_PER_SERIES {
                        None
                    } else {
                        match largest(s.points, s.points.len() as int) {
                            None => None,
                            Some(None) => Some(buckets),
                            Some(Some(rank)) => Some(with_measurement(buckets, key, rank)),
                        }
                    },
                }
            },
        }
    }
}

proof fn lemma_aggregated_failure(list: Seq<SeriesView>, n: int, m: int)
    requires
        0 <= n <= m,
        aggregated(list, n) is None,
    ensures
        aggregated(list, m) is None,
    decreases m - n,
{
    if n < m {
        lemma_aggregated_failure(list, n, m - 1);
    }
}

/// The buckets of all series; `None` where one is malformed or there are too
/// many.
pub open spec fn buckets_of(list: Seq<SeriesView>) -> Option<Seq<(KeyView, u64)>> {
    if list.len() > MAX_SERIES {
        None
    } else {
        aggregated(list, list.len() as int)
    }
}

/// The largest rank of each quota.
pub fn aggregate(list: &Vec<Series>) -> (r: Result<Vec<Bucket>, ClassifiedError>)
    ensures
        match r {
            Ok(buckets) => buckets_of(series_values(list@)) == Some(bucket_values(buckets@)),
            Err(e) => buckets_of(series_values(list@)) is None && e == error::plain(
                ErrorKind::Parse,
            ),
        },
{
    let ghost all = series_values(list@);
    if list.len() > MAX_SERIES {
        return Err(ClassifiedError::new(ErrorKind::Parse));
    }
    let mut buckets: Vec<Bucket> = Vec::new();
    assert(bucket_values(buckets@) =~= seq![]);
    let mut i: usize = 0;
    while i < list.len()
        invariant
            all == series_values(list@),
            i <= list@.len() <= MAX_SERIES,
            aggregated(all, i as int) == Some(bucket_values(buckets@)),
        decreases list@.len() - i,
    {
        assert(all[i as int] == list@[i as int].value());
        let ghost before = bucket_values(buckets@);
        match quota_key(&list[i]) {
            Err(e) => {
                proof {
                    lemma_aggregated_failure(all, i as int + 1, all.len() as int);
                }
                return Err(e);
            },
            Ok(None) => {},
            Ok(Some(key)) => match maximum_point(&list[i].points) {
                Err(e) => {
                    proof {
                        lemma_aggregated_failure(all, i as int + 1, all.len() as int);
                    }
                    return Err(e);
                },
                Ok(None) => {},
                Ok(Some(rank)) => match find_bucket(&buckets, &key) {
                    Some(at) => {
                        let most: u64 = buckets[at].rank;
                        let bucket = Bucket {
                            key,
                            rank: if most < rank {
                                rank
                            } else {
                                most
                            },
                        };
                        buckets.set(at, bucket);
                        assert(bucket_values(buckets@) =~= with_measurement(
                            before,
                            key.value(),
                            rank,
                        ));
                    },
                    None => {
                        buckets.push(Bucket { key, rank });
                        assert(bucket_values(buckets@) =~= with_measurement(
                            before,
                            key.value(),
                            rank,
                        ));
                    },
                },
            },
        }
        i += 1;
    }
    Ok(buckets)
}

/// The positive limits at or behind `from` of the same metric and location.
pub open spec fn candidates(limits: Seq<(KeyView, u64)>, key: KeyView, from: int) -> Seq<u64>
    decreases limits.len() - from,
{
    if from < 0 || from >= limits.len() {
        seq![]
    } else {
        let rest = candidates(limits, key, from + 1);
        if limits[from].1 > 0 && limits[from].0.quota_metric == key.quota_metric
            && limits[from].0.location == key.location {
            seq![limits[from].1] + rest
        } else {
            rest
        }
    }
}

/// The limit of a quota: the positive one of the same quota, or else, for a
/// quota without limit name, the only positive one of its metric and location.
pub open spec fn limit_of(limits: Seq<(KeyView, u64)>, key: KeyView) -> Option<u64> {
    let exact = bucket_position(limits, key, 0);
    if exact is Some && limits[exact->0].1 > 0 {
        Some(limits[exact->0].1)
    } else if key.limit_name.len() == 0 {
        let found = candidates(limits, key, 0);
        if found.len() == 1 {
            Some(found[0])
        } else {
            None
        }
    } else {
        None
    }
}

/// The limit of a quota.
pub fn match_limit(limits: &Vec<Bucket>, key: &QuotaKey) -> (r: Option<u64>)
    ensures
        r == limit_of(bucket_values(limits@), key.value()),
{
    let ghost all = bucket_values(limits@);
    if let Some(at) = find_bucket(limits, key) {
        if limits[at].rank > 0 {
            return Some(limits[at].rank);
        }
    }
    if !key.limit_name.as_str().is_empty() {
        return None;
    }
    let mut found: Option<u64> = None;
    let length: usize = limits.len();
    let mut i: usize = length;
    let mut count: usize = 0;
    while i > 0
        invariant
            all == bucket_values(limits@),
            length == limits@.len(),
            i <= length,
            count <= length - i,
            count == candidates(all, key.value(), i as int).len(),
            count == 1 ==> found == Some(candidates(all, key.value(), i as int)[0]),
        decreases i,
    {
        i -= 1;
        assert(all[i as int] == (limits@[i as int].key.value(), limits@[i as int].rank));
        if limits[i].rank > 0 && text::same_text(
            limits[i].key.quota_metric.as_str(),
            key.quota_metric.as_str(),
        ) && text::same_text(limits[i].key.location.as_str(), key.location.as_str()) {
            found = Some(limits[i].rank);
            count += 1;
        }
    }
    if count == 1 {
        found
    } else {
        None
    }
}

/// The used amounts of the first `n` quotas with their limits, for those that
/// have one.
pub open spec fn matched(
    usage: Seq<(KeyView, u64)>,
    limits: Seq<(KeyView, u64)>,
    n: int,
) -> Seq<(u64, u64)>
    decreases n,
{
    if n <= 0 {
        seq![]
    } else {
        let before = matched(usage, limits, n - 1);
        match limit_of(limits, usage[n - 1].0) {
            Some(limit) => before.push((usage[n - 1].1, limit)),
            None => before,
        }
    }
}

/// The pairs of used amount and limit of two listings; `None` where one is
/// malformed.
pub open spec fn quota_pairs_of(usage: Seq<SeriesView>, limits: Seq<SeriesView>) -> Option<
    Seq<(u64, u64)>,
> {
    match (buckets_of(usage), buckets_of(limits)) {
        (Some(used), Some(most)) => Some(matched(used, most, used.len() as int)),
        _ => None,
    }
}

/// The pairs of used amount and limit of two listings. The quota in percent is
/// the largest quotient; without pairs there is none.
pub fn quota_pairs(usage: &Vec<Series>, limits: &Vec<Series>) -> (r: Result<
    Vec<(u64, u64)>,
    ClassifiedError,
>)
    ensures
        match r {
            Ok(pairs) => quota_pairs_of(series_values(usage@), series_values(limits@)) == Some(
                pairs@,
            ),
            Err(e) => quota_pairs_of(series_values(usage@), series_values(limits@)) is None && e
                == error::plain(ErrorKind::Parse),
        },
{
    let used = match aggregate(usage) {
        Ok(used) => used,
        Err(e) => return Err(e),
    };
    let most = match aggregate(limits) {
        Ok(most) => most,
        Err(e) => return Err(e),
    };
    let ghost a = bucket_values(used@);
    let ghost b = bucket_values(most@);
    let mut pairs: Vec<(u64, u64)> = Vec::new();
    let mut i: usize = 0;
    while i < used.len()
        invariant
            a == bucket_values(used@),
            b == bucket_values(most@),
            i <= used@.len(),
            pairs@ == matched(a, b, i as int),
        decreases used@.len() - i,
    {
        assert(a[i as int] == (used@[i as int].key.value(), used@[i as int].rank));
        if let Some(limit) = match_limit(&most, &used[i].key) {
            pairs.push((used[i].rank, limit));
        }
        i += 1;
    }
    Ok(pairs)
}

proof fn lemma_candidates_positive(limits: Seq<(KeyView, u64)>, key: KeyView, from: int)
    ensures
        forall|i: int|
            0 <= i < candidates(limits, key, from).len() ==> #[trigger] candidates(
                limits,
                key,
                from,
            )[i] > 0,
    decreases limits.len() - from,
{
    if 0 <= from < limits.len() {
        lemma_candidates_positive(limits, key, from + 1);
        let rest = candidates(limits, key, from + 1);
        let all = candidates(limits, key, from);
        assert forall|i: int| 0 <= i < all.len() implies #[trigger] all[i] > 0 by {
            if all.len() == rest.len() {
                assert(all == rest);
            } else if i > 0 {
                assert(all[i] == rest[i - 1]);
            }
        }
    }
}

/// Every limit that a used amount is compared with is greater than zero.
pub proof fn law_limits_positive(usage: Seq<SeriesView>, limits: Seq<SeriesView>)
    ensures
        quota_pairs_of(usage, limits) matches Some(pairs) ==> forall|i: int|
            0 <= i < pairs.len() ==> (#[trigger] pairs[i]).1 > 0,
{
    if quota_pairs_of(usage, limits) is Some {
        lemma_matched_positive(
            buckets_of(usage)->0,
            buckets_of(limits)->0,
            buckets_of(usage)->0.len() as int,
        );
    }
}

proof fn lemma_matched_positive(usage: Seq<(KeyView, u64)>, limits: Seq<(KeyView, u64)>, n: int)
    ensures
        forall|i: int|
            0 <= i < matched(usage, limits, n).len() ==> (#[trigger] matched(
                usage,
                limits,
                n,
            )[i]).1 > 0,
    decreases n,
{
    if n > 0 {
        lemma_matched_positive(usage, limits, n - 1);
        lemma_candidates_positive(limits, usage[n - 1].0, 0);
        let before = matched(usage, limits, n - 1);
        let all = matched(usage, limits, n);
        assert forall|i: int| 0 <= i < all.len() implies (#[trigger] all[i]).1 > 0 by {
            if i < before.len() {
                assert(all[i] == before[i]);
            }
        }
    }
}

/// The number that a point holds; `None` where it is not a single readable one.
pub open spec fn point_rank(point: Point) -> Option<u64> {
    match (point.double_value, point.int64_value) {
        (Some(Reading::Rank(rank)), None) => Some(rank),
        (None, Some(Reading::Rank(rank))) => Some(rank),
        _ => None,
    }
}

/// Whether `most` is held by a point and no point holds more.
pub open spec fn is_peak(points: Seq<Point>, most: u64) -> bool {
    &&& exists|i: int| 0 <= i < points.len() && #[trigger] point_rank(points[i]) == Some(most)
    &&& forall|i: int|
        0 <= i < points.len() ==> (#[trigger] point_rank(points[i]) matches Some(rank) ==> rank
            <= most)
}

/// The metric that the labels of a series name.
pub open spec fn named_metric(s: SeriesView) -> Option<Seq<char>> {
    if settings::entry(s.metric_labels, "quota_metric"@, 0) is Some {
        settings::entry(s.metric_labels, "quota_metric"@, 0)
    } else {
        settings::entry(s.resource_labels, "quota_id"@, 0)
    }
}

/// The limit that the metric labels of a series name; empty where they name none.
pub open spec fn named_limit(s: SeriesView) -> Seq<char> {
    match settings::entry(s.metric_labels, "limit_name"@, 0) {
        Some(name) => name,
        None => seq![],
    }
}

/// The location that the resource labels of a series name, or the whole world.
pub open spec fn named_location(s: SeriesView) -> Seq<char> {
    match settings::entry(s.resource_labels, "location"@, 0) {
        Some(place) => place,
        None => "global"@,
    }
}

/// Series have the same quota exactly where their labels name the same metric, the
/// same limit and, on the resource, the same location. A series has a quota exactly
/// where its labels name a metric.
pub proof fn law_quotas_follow_the_labels(a: SeriesView, b: SeriesView)
    ensures
        key_of(a) is Some <==> named_metric(a) is Some && named_metric(a)->0.len() > 0,
        key_of(a) is Some && key_of(b) is Some ==> (key_of(a) == key_of(b) <==> named_metric(a)
            == named_metric(b) && named_limit(a) == named_limit(b) && named_location(a)
            == named_location(b)),
{
}

/// Series whose resource labels name different locations have different quotas.
pub proof fn law_locations_part_quotas(a: SeriesView, b: SeriesView)
    requires
        settings::entry(a.resource_labels, "location"@, 0) is Some,
        settings::entry(b.resource_labels, "location"@, 0) is Some,
        settings::entry(a.resource_labels, "location"@, 0) != settings::entry(
            b.resource_labels,
            "location"@,
            0,
        ),
        key_of(a) is Some,
    ensures
        key_of(a) != key_of(b),
{
}

proof fn lemma_largest_is_peak(points: Seq<Point>, n: int)
    requires
        0 <= n <= points.len(),
        largest(points, n) is Some,
    ensures
        match largest(points, n)->0 {
            Some(most) => is_peak(points.take(n), most),
            None => forall|i: int| 0 <= i < n ==> #[trigger] point_rank(points[i]) is None,
        },
    decreases n,
{
    if n > 0 {
        lemma_largest_is_peak(points, n - 1);
        let before = points.take(n - 1);
        let all = points.take(n);
        let last = point_rank(points[n - 1]);
        assert(all[n - 1] == points[n - 1]);
        if let Some(most) = largest(points, n)->0 {
            let earlier = largest(points, n - 1)->0;
            if earlier is Some {
                let i = choose|i: int|
                    0 <= i < before.len() && #[trigger] point_rank(before[i]) == earlier;
                assert(all[i] == before[i]);
                assert(point_rank(all[i]) == earlier);
            }
            assert(point_rank(all[n - 1]) == last);
            assert forall|i: int| 0 <= i < all.len() implies (#[trigger] point_rank(
                all[i],
            ) matches Some(rank) ==> rank <= most) by {
                if i < n - 1 {
                    assert(all[i] == before[i]);
                    assert(all[i] == points[i]);
                }
            }
        }
    }
}

/// The largest number of a series is held by one of its points and by none
/// exceeded; there is none where no point holds a number.
pub proof fn law_largest_is_peak(points: Seq<Point>)
    requires
        largest(points, points.len() as int) is Some,
    ensures
        match largest(points, points.len() as int)->0 {
            Some(most) => is_peak(points, most),
            None => forall|i: int|
                0 <= i < points.len() ==> #[trigger] point_rank(points[i]) is None,
        },
{
    lemma_largest_is_peak(points, points.len() as int);
    assert(points.take(points.len() as int) =~= points);
}

proof fn lemma_bucket_position(buckets: Seq<(KeyView, u64)>, key: KeyView, from: int)
    requires
        0 <= from,
    ensures
        match bucket_position(buckets, key, from) {
            Some(i) => from <= i < buckets.len() && buckets[i].0 == key,
            None => forall|i: int| from <= i < buckets.len() ==> (#[trigger] buckets[i]).0 != key,
        },
    decreases buckets.len() - from,
{
    if from < buckets.len() && buckets[from].0 != key {
        lemma_bucket_position(buckets, key, from + 1);
    }
}

/// Whether a series of a quota measures `rank` at most.
pub open spec fn measures(s: SeriesView, key: KeyView, rank: u64) -> bool {
    key_of(s) == Some(key) && is_peak(s.points, rank)
}

/// Whether a bucket holds what one of the first `n` series measures.
pub open spec fn sourced(list: Seq<SeriesView>, n: int, bucket: (KeyView, u64)) -> bool {
    exists|i: int| 0 <= i < n && #[trigger] measures(list[i], bucket.0, bucket.1)
}

/// Whether the bucket of a quota holds at least `rank`.
pub open spec fn covered(buckets: Seq<(KeyView, u64)>, key: KeyView, rank: u64) -> bool {
    bucket_position(buckets, key, 0) matches Some(k) && 0 <= k < buckets.len() && buckets[k].0
        == key && buckets[k].1 >= rank
}

proof fn lemma_buckets_sourced(list: Seq<SeriesView>, n: int)
    requires
        0 <= n <= list.len(),
        aggregated(list, n) is Some,
    ensures
        forall|k: int|
            0 <= k < aggregated(list, n)->0.len() ==> sourced(
                list,
                n,
                #[trigger] aggregated(list, n)->0[k],
            ),
    decreases n,
{
    if n > 0 {
        lemma_buckets_sourced(list, n - 1);
        let before = aggregated(list, n - 1)->0;
        let buckets = aggregated(list, n)->0;
        let s = list[n - 1];
        assert forall|k: int| 0 <= k < buckets.len() implies sourced(
            list,
            n,
            #[trigger] buckets[k],
        ) by {
            if k < before.len() && buckets[k] == before[k] {
                assert(sourced(list, n - 1, before[k]));
                let i = choose|i: int|
                    0 <= i < n - 1 && #[trigger] measures(list[i], before[k].0, before[k].1);
                assert(measures(list[i], buckets[k].0, buckets[k].1));
            } else {
                let key = key_of(s)->0;
                let rank = largest(s.points, s.points.len() as int)->0->0;
                law_largest_is_peak(s.points);
                lemma_bucket_position(before, key, 0);
                assert(buckets == with_measurement(before, key, rank));
                assert(buckets[k] == (key, rank));
                assert(measures(list[n - 1], buckets[k].0, buckets[k].1));
            }
        }
    }
}

proof fn lemma_cover_grows(
    before: Seq<(KeyView, u64)>,
    key: KeyView,
    rank: u64,
    other: KeyView,
    amount: u64,
)
    ensures
        covered(with_measurement(before, key, rank), key, rank),
        covered(before, other, amount) ==> covered(
            with_measurement(before, key, rank),
            other,
            amount,
        ),
{
    let after = with_measurement(before, key, rank);
    lemma_bucket_position(before, key, 0);
    lemma_bucket_position(before, other, 0);
    lemma_bucket_position(after, key, 0);
    lemma_bucket_position(after, other, 0);
    if bucket_position(before, other, 0) is Some {
        lemma_same_places(before, after, other, 0);
    }
    if bucket_position(before, key, 0) is Some {
        lemma_same_places(before, after, key, 0);
    } else {
        assert(after[before.len() as int].0 == key);
        let k = bucket_position(after, key, 0)->0;
        if k < before.len() {
            assert(before[k].0 == key);
        }
    }
}

proof fn lemma_buckets_cover(list: Seq<SeriesView>, n: int, i: int, key: KeyView, rank: u64)
    requires
        0 <= i < n <= list.len(),
        aggregated(list, n) is Some,
        measures(list[i], key, rank),
    ensures
        covered(aggregated(list, n)->0, key, rank),
    decreases n,
{
    let before = aggregated(list, n - 1)->0;
    let s = list[n - 1];
    let most = largest(s.points, s.points.len() as int);
    if key_of(s) is Some {
        law_largest_is_peak(s.points);
    }
    if i < n - 1 {
        lemma_buckets_cover(list, n - 1, i, key, rank);
        if key_of(s) is Some && most is Some && most->0 is Some {
            lemma_cover_grows(before, key_of(s)->0, most->0->0, key, rank);
        }
    } else {
        if most->0 is None {
            let at = choose|at: int|
                0 <= at < s.points.len() && #[trigger] point_rank(s.points[at]) == Some(rank);
            assert(point_rank(s.points[at]) is None);
        }
        lemma_peaks_agree(s.points, most->0->0, rank);
        lemma_cover_grows(before, key, rank, key, rank);
    }
}

proof fn lemma_peaks_agree(points: Seq<Point>, a: u64, b: u64)
    requires
        is_peak(points, a),
        is_peak(points, b),
    ensures
        a == b,
{
    let i = choose|i: int| 0 <= i < points.len() && #[trigger] point_rank(points[i]) == Some(a);
    let j = choose|j: int| 0 <= j < points.len() && #[trigger] point_rank(points[j]) == Some(b);
    assert(point_rank(points[i]) == Some(a) && point_rank(points[j]) == Some(b));
}

/// A list of buckets that only grew keeps the places of its quotas.
proof fn lemma_same_places(
    before: Seq<(KeyView, u64)>,
    after: Seq<(KeyView, u64)>,
    key: KeyView,
    from: int,
)
    requires
        0 <= from,
        before.len() <= after.len(),
        forall|i: int| 0 <= i < before.len() ==> (#[trigger] after[i]).0 == before[i].0,
        bucket_position(before, key, from) is Some,
    ensures
        bucket_position(after, key, from) == bucket_position(before, key, from),
    decreases before.len() - from,
{
    if from < before.len() {
        assert(after[from].0 == before[from].0);
        if before[from].0 != key {
            lemma_same_places(before, after, key, from + 1);
        }
    }
}

/// Whether `limit` is the limit of a bucket of the same metric and location.
pub open spec fn offered(limits: Seq<(KeyView, u64)>, key: KeyView, limit: u64) -> bool {
    exists|k: int|
        0 <= k < limits.len() && (#[trigger] limits[k]).1 == limit && limits[k].0.quota_metric
            == key.quota_metric && limits[k].0.location == key.location
}

proof fn lemma_candidate_source(limits: Seq<(KeyView, u64)>, key: KeyView, from: int)
    requires
        0 <= from,
    ensures
        forall|c: int|
            0 <= c < candidates(limits, key, from).len() ==> offered(
                limits,
                key,
                #[trigger] candidates(limits, key, from)[c],
            ),
    decreases limits.len() - from,
{
    if from < limits.len() {
        lemma_candidate_source(limits, key, from + 1);
        let rest = candidates(limits, key, from + 1);
        let all = candidates(limits, key, from);
        assert forall|c: int| 0 <= c < all.len() implies offered(
            limits,
            key,
            #[trigger] all[c],
        ) by {
            if all.len() == rest.len() {
                assert(all == rest);
                assert(offered(limits, key, rest[c]));
            } else if c > 0 {
                assert(all[c] == rest[c - 1]);
                assert(offered(limits, key, rest[c - 1]));
            } else {
                assert(limits[from].1 == all[0]);
            }
        }
    }
}

/// Whether two series are of the same metric and, by their resources, of the same
/// location.
pub open spec fn same_place(a: SeriesView, b: SeriesView) -> bool {
    named_metric(a) == named_metric(b) && named_location(a) == named_location(b)
}

/// Whether a used amount and a limit are the peaks of two series of the same metric
/// and location.
pub open spec fn joined(
    usage: Seq<SeriesView>,
    limits: Seq<SeriesView>,
    i: int,
    j: int,
    pair: (u64, u64),
) -> bool {
    &&& 0 <= i < usage.len()
    &&& 0 <= j < limits.len()
    &&& same_place(usage[i], limits[j])
    &&& is_peak(usage[i].points, pair.0)
    &&& is_peak(limits[j].points, pair.1)
}

/// Whether a used amount and a limit are the peaks of some two series of the same
/// metric and location.
pub open spec fn comparable(
    usage: Seq<SeriesView>,
    limits: Seq<SeriesView>,
    pair: (u64, u64),
) -> bool {
    exists|i: int, j: int| #[trigger] joined(usage, limits, i, j, pair)
}

proof fn lemma_limit_source(
    usage: Seq<SeriesView>,
    limits: Seq<SeriesView>,
    bucket: (KeyView, u64),
    most: Seq<(KeyView, u64)>,
)
    requires
        sourced(usage, usage.len() as int, bucket),
        buckets_of(limits) == Some(most),
        limit_of(most, bucket.0) is Some,
    ensures
        comparable(usage, limits, (bucket.1, limit_of(most, bucket.0)->0)),
{
    let key = bucket.0;
    let limit = limit_of(most, key)->0;
    lemma_bucket_position(most, key, 0);
    lemma_candidate_source(most, key, 0);
    let exact = bucket_position(most, key, 0);
    if exact is Some && most[exact->0].1 > 0 {
        assert(most[exact->0].1 == limit);
    } else {
        assert(offered(most, key, candidates(most, key, 0)[0]));
    }
    assert(offered(most, key, limit));
    let k = choose|k: int|
        0 <= k < most.len() && (#[trigger] most[k]).1 == limit && most[k].0.quota_metric
            == key.quota_metric && most[k].0.location == key.location;
    lemma_buckets_sourced(limits, limits.len() as int);
    assert(sourced(limits, limits.len() as int, most[k]));
    let i = choose|i: int|
        0 <= i < usage.len() && #[trigger] measures(usage[i], bucket.0, bucket.1);
    let j = choose|j: int|
        0 <= j < limits.len() && #[trigger] measures(limits[j], most[k].0, most[k].1);
    assert(joined(usage, limits, i, j, (bucket.1, limit)));
}

proof fn lemma_matched_source(
    usage: Seq<SeriesView>,
    limits: Seq<SeriesView>,
    used: Seq<(KeyView, u64)>,
    most: Seq<(KeyView, u64)>,
    n: int,
)
    requires
        0 <= n <= used.len(),
        buckets_of(usage) == Some(used),
        buckets_of(limits) == Some(most),
    ensures
        forall|p: int|
            0 <= p < matched(used, most, n).len() ==> comparable(
                usage,
                limits,
                #[trigger] matched(used, most, n)[p],
            ),
    decreases n,
{
    if n > 0 {
        lemma_matched_source(usage, limits, used, most, n - 1);
        lemma_buckets_sourced(usage, usage.len() as int);
        let before = matched(used, most, n - 1);
        let all = matched(used, most, n);
        assert(sourced(usage, usage.len() as int, used[n - 1]));
        assert forall|p: int| 0 <= p < all.len() implies comparable(
            usage,
            limits,
            #[trigger] all[p],
        ) by {
            if p < before.len() {
                assert(all[p] == before[p]);
                assert(comparable(usage, limits, before[p]));
            } else {
                lemma_limit_source(usage, limits, used[n - 1], most);
            }
        }
    }
}

/// A used amount is only ever compared with a limit of the same metric and the same
/// resource location: both are the peaks of such series.
pub proof fn law_pairs_share_their_place(usage: Seq<SeriesView>, limits: Seq<SeriesView>)
    ensures
        quota_pairs_of(usage, limits) matches Some(pairs) ==> forall|p: int|
            0 <= p < pairs.len() ==> comparable(usage, limits, #[trigger] pairs[p]),
{
    if quota_pairs_of(usage, limits) is Some {
        let used = buckets_of(usage)->0;
        lemma_matched_source(usage, limits, used, buckets_of(limits)->0, used.len() as int);
    }
}

proof fn lemma_matched_holds(
    used: Seq<(KeyView, u64)>,
    most: Seq<(KeyView, u64)>,
    k: int,
    n: int,
)
    requires
        0 <= k < n <= used.len(),
        limit_of(most, used[k].0) is Some,
    ensures
        matched(used, most, n).contains((used[k].1, limit_of(most, used[k].0)->0)),
    decreases n,
{
    let all = matched(used, most, n);
    let wanted = (used[k].1, limit_of(most, used[k].0)->0);
    if k == n - 1 {
        assert(all.last() == wanted);
    } else {
        lemma_matched_holds(used, most, k, n - 1);
        let before = matched(used, most, n - 1);
        let at = choose|at: int| 0 <= at < before.len() && before[at] == wanted;
        assert(all[at] == wanted);
    }
}

/// No measured use is lost: a series of a quota with a positive limit of the same
/// labels is shown with at least its peak, against at least that limit.
pub proof fn law_no_use_is_lost(
    usage: Seq<SeriesView>,
    limits: Seq<SeriesView>,
    i: int,
    j: int,
    peaks: (u64, u64),
)
    requires
        joined(usage, limits, i, j, peaks),
        named_limit(usage[i]) == named_limit(limits[j]),
        named_metric(usage[i]) matches Some(metric) && metric.len() > 0,
        peaks.1 > 0,
    ensures
        quota_pairs_of(usage, limits) matches Some(pairs) ==> exists|p: int|
            0 <= p < pairs.len() && (#[trigger] pairs[p]).0 >= peaks.0 && pairs[p].1 >= peaks.1,
{
    if quota_pairs_of(usage, limits) is Some {
        let used = buckets_of(usage)->0;
        let most = buckets_of(limits)->0;
        let key = key_of(usage[i])->0;
        assert(measures(usage[i], key, peaks.0));
        assert(measures(limits[j], key, peaks.1));
        lemma_buckets_cover(usage, usage.len() as int, i, key, peaks.0);
        lemma_buckets_cover(limits, limits.len() as int, j, key, peaks.1);
        let k = bucket_position(used, key, 0)->0;
        lemma_matched_holds(used, most, k, used.len() as int);
        let pairs = quota_pairs_of(usage, limits)->0;
        let wanted = (used[k].1, limit_of(most, key)->0);
        let p = choose|p: int| 0 <= p < pairs.len() && pairs[p] == wanted;
        assert(pairs[p].0 >= peaks.0);
    }
}

/// The observed interval in RFC 3339: the day before `fetched_at`.
pub open spec fn interval_of(fetched_at: Timestamp) -> Option<(Seq<char>, Seq<char>)> {
    match instant::calendar_nanos(fetched_at.nanos - QUOTA_WINDOW_NANOS) {
        Some(start) => match (instant::rfc3339_text(start), instant::rfc3339_text(fetched_at)) {
            (Some(a), Some(b)) => Some((a, b)),
            _ => None,
        },
        None => None,
    }
}

/// The observed interval in RFC 3339.
pub fn quota_interval(fetched_at: Timestamp) -> (r: Result<(String, String), ClassifiedError>)
    requires
        fetched_at.in_calendar(),
    ensures
        match r {
            Ok(texts) => interval_of(fetched_at) == Some((texts.0@, texts.1@)),
            Err(e) => interval_of(fetched_at) is None && e == error::plain(ErrorKind::Parse),
        },
{
    let start = match Timestamp::from_nanos(fetched_at.nanos - QUOTA_WINDOW_NANOS) {
        Some(start) => start,
        None => return Err(ClassifiedError::new(ErrorKind::Parse)),
    };
    match (instant::to_rfc3339(start), instant::to_rfc3339(fetched_at)) {
        (Some(a), Some(b)) => Ok((a, b)),
        _ => Err(ClassifiedError::new(ErrorKind::Parse)),
    }
}

/// Which series to list.
#[derive(Debug, Clone, Copy, PartialEq, Eq, Structural)]
pub enum QuotaSeries {
    Usage,
    Limit,
}

/// The filter that selects the series.
pub open spec fn filter_text(series: QuotaSeries) -> Seq<char> {
    match series {
        QuotaSeries::Usage =>
            "metric.type=\"serviceruntime.googleapis.com/quota/allocation/usage\" AND resource.type=\"consumer_quota\" AND resource.label.service=\"aiplatform.googleapis.com\""@,
        QuotaSeries::Limit =>
            "metric.type=\"serviceruntime.googleapis.com/quota/limit\" AND resource.type=\"consumer_quota\" AND resource.label.service=\"aiplatform.googleapis.com\""@,
    }
}

/// The filter that selects the series.
pub fn filter(series: QuotaSeries) -> (r: &'static str)
    ensures
        r@ == filter_text(series),
{
    match series {
        QuotaSeries::Usage =>
            "metric.type=\"serviceruntime.googleapis.com/quota/allocation/usage\" AND resource.type=\"consumer_quota\" AND resource.label.service=\"aiplatform.googleapis.com\"",
        QuotaSeries::Limit =>
            "metric.type=\"serviceruntime.googleapis.com/quota/limit\" AND resource.type=\"consumer_quota\" AND resource.label.service=\"aiplatform.googleapis.com\"",
    }
}

/// The query of a page.
pub open spec fn page_query(
    series: QuotaSeries,
    start: Seq<char>,
    end: Seq<char>,
    token: Option<Seq<char>>,
) -> Seq<(Seq<char>, Seq<char>)> {
    let pairs = seq![
        ("filter"@, filter_text(series)),
        ("interval.startTime"@, start),
        ("interval.endTime"@, end),
        ("aggregation.alignmentPeriod"@, "3600s"@),
        ("aggregation.perSeriesAligner"@, "ALIGN_MAX"@),
        ("view"@, "FULL"@),
    ];
    match token {
        Some(t) => pairs.push(("pageToken"@, t)),
        None => pairs,
    }
}

/// The series of a project below an origin.
pub open spec fn monitoring_path(origin: Seq<char>, project: Seq<char>) -> Option<Seq<char>> {
    urls::url_at_segments(origin, seq!["v3"@, "projects"@, project, "timeSeries"@])
}

/// The series of a project below an origin.
pub fn monitoring_url(origin: &str, project: &str) -> (r: Result<String, ClassifiedError>)
    ensures
        match r {
            Ok(url) => monitoring_path(origin@, project@) == Some(url@),
            Err(e) => monitoring_path(origin@, project@) is None && e == error::plain(
                ErrorKind::Api,
            ),
        },
{
    let segments = vec!["v3", "projects", project, "timeSeries"];
    assert(segments.deep_view() =~= seq!["v3"@, "projects"@, project@, "timeSeries"@]);
    match urls::with_segments(origin, &segments) {
        Some(url) => Ok(url),
        None => Err(ClassifiedError::new(ErrorKind::Api)),
    }
}

/// The request for a page.
pub fn page_request(
    origin: &str,
    project: &str,
    series: QuotaSeries,
    interval: &(String, String),
    token: &Option<String>,
    access_token: &str,
) -> (r: Result<HttpRequest, ClassifiedError>)
    ensures
        ({
            let url = urls::url_with_pairs(
                monitoring_path(origin@, project@),
                page_query(series, interval.0@, interval.1@, token.deep_view()),
            );
            match r {
                Ok(q) => url == Some(q.url@) && transport::secret_ok(access_token@) && q.bare_but_auth(
                    Method::Get,
                    q.url@,
                    seq![],
                ) && q.accept == Some(RequestAccept::Json) && (q.authentication matches Some(
                    Authentication::Bearer(secret),
                ) && secret.value@ == access_token@) && q.wf(),
                Err(e) => !(url is Some && transport::secret_ok(access_token@)) && e
                    == error::plain(ErrorKind::Api),
            }
        }),
{
    let base = match monitoring_url(origin, project) {
        Ok(url) => url,
        Err(e) => return Err(e),
    };
    let mut pairs: Vec<(String, String)> = vec![
        ("filter".to_owned(), filter(series).to_owned()),
        ("interval.startTime".to_owned(), interval.0.clone()),
        ("interval.endTime".to_owned(), interval.1.clone()),
        ("aggregation.alignmentPeriod".to_owned(), "3600s".to_owned()),
        ("aggregation.perSeriesAligner".to_owned(), "ALIGN_MAX".to_owned()),
        ("view".to_owned(), "FULL".to_owned()),
    ];
    assert(pairs.deep_view() =~= page_query(series, interval.0@, interval.1@, None));
    let ghost before = pairs.deep_view();
    if let Some(t) = token {
        pairs.push(("pageToken".to_owned(), t.clone()));
        assert(pairs.deep_view() =~= before.push(("pageToken"@, t@)));
    }
    let url = match urls::extend_pairs(base.as_str(), &pairs) {
        Some(url) => url,
        None => return Err(ClassifiedError::new(ErrorKind::Api)),
    };
    match Authentication::bearer(access_token.to_owned()) {
        Ok(authentication) => Ok(HttpRequest::get_json(url).authentication(authentication)),
        Err(e) => Err(e.classified()),
    }
}

/// The observed interval is the day before a reading.
pub proof fn law_interval_is_a_day(fetched_at: Timestamp)
    ensures
        interval_of(fetched_at) matches Some((start, end)) ==> exists|from: Timestamp|
            #[trigger] instant::rfc3339_text(from) == Some(start) && instant::rfc3339_text(
                fetched_at,
            ) == Some(end) && fetched_at.nanos - from.nanos == 24 * 3600 * 1_000_000_000,
{
    if interval_of(fetched_at) is Some {
        let from = instant::calendar_nanos(fetched_at.nanos - QUOTA_WINDOW_NANOS)->0;
        assert(instant::rfc3339_text(from) is Some);
    }
}

/// A page is asked for with its own series, between its start and its end, by the hour;
/// only a page behind the first has a token.
pub proof fn law_pages_are_asked_for_by_interval(
    series: QuotaSeries,
    start: Seq<char>,
    end: Seq<char>,
    token: Option<Seq<char>>,
)
    ensures
        page_query(series, start, end, token).contains(("interval.startTime"@, start)),
        page_query(series, start, end, token).contains(("interval.endTime"@, end)),
        page_query(series, start, end, token).contains(("aggregation.alignmentPeriod"@, "3600s"@)),
        page_query(series, start, end, token).contains(("filter"@, filter_text(series))),
        token is None ==> page_query(series, start, end, token).len() == 6,
        token matches Some(t) ==> page_query(series, start, end, token).len() == 7 && page_query(
            series,
            start,
            end,
            token,
        ).last() == ("pageToken"@, t),
{
    let query = page_query(series, start, end, token);
    assert(query[0] == ("filter"@, filter_text(series)));
    assert(query[1] == ("interval.startTime"@, start));
    assert(query[2] == ("interval.endTime"@, end));
    assert(query[3] == ("aggregation.alignmentPeriod"@, "3600s"@));
}

} // verus!
