//! Sakana AI subscription quotas and optional pay-as-you-go balance.

use vstd::prelude::*;
use vstd::slice::slice_subrange;

use crate::capture::ManualCaptureError;
use crate::decimal;
use crate::decimal::Decimal;
use crate::error;
use crate::error::{ClassifiedError, ErrorKind};
use crate::html;
use crate::html::Found;
use crate::instant;
use crate::instant::Timestamp;
use crate::registry::ProviderId;
use crate::retry;
use crate::retry::RetryPolicy;
use crate::text;
use crate::transport;
use crate::transport::{
    Authentication, HttpRequest, Method, RequestAccept, TransportConfig, TransportError,
};
use crate::urls;
use crate::urls::{EndpointClass, UrlParts, UrlView};
use crate::usage;
use crate::usage::{
    DetailRow, DetailSensitivity, RateWindow, RowView, SampleView, SectionView, UsageSample,
    WindowView,
};

verus! {

pub const MAX_RESPONSE_BYTES: usize = 2 * 1024 * 1024;

pub const MAX_PLAN_BYTES: usize = 256;

/// Optional pay-as-you-go balance and usage.
pub struct SakanaPayAsYouGo {
    pub credit_balance: Decimal,
    pub period_usage_total: Option<Decimal>,
    pub period_label: Option<String>,
}

/// Mathematical value of a [`SakanaPayAsYouGo`].
pub struct PayView {
    pub credit_balance: Decimal,
    pub period_usage_total: Option<Decimal>,
    pub period_label: Option<Seq<char>>,
}

impl SakanaPayAsYouGo {
    pub open spec fn value(self) -> PayView {
        PayView {
            credit_balance: self.credit_balance,
            period_usage_total: self.period_usage_total,
            period_label: self.period_label.deep_view(),
        }
    }

    /// The amounts are representable.
    pub open spec fn wf(self) -> bool {
        self.credit_balance.wf() && (self.period_usage_total is Some
            ==> self.period_usage_total->0.wf())
    }

    /// Remaining balance.
    pub fn credit_balance(&self) -> (r: Decimal)
        ensures
            r == self.credit_balance,
    {
        self.credit_balance
    }

    /// Total of the shown period.
    pub fn period_usage_total(&self) -> (r: Option<Decimal>)
        ensures
            r == self.period_usage_total,
    {
        self.period_usage_total
    }

    /// Label of the shown period.
    pub fn period_label(&self) -> (r: Option<&str>)
        ensures
            match r {
                Some(label) => self.period_label.deep_view() == Some(label@),
                None => self.period_label is None,
            },
    {
        match &self.period_label {
            Some(label) => Some(label.as_str()),
            None => None,
        }
    }
}

/// The page of a response body.
pub open spec fn page_of(body: Seq<u8>) -> Option<Seq<char>> {
    if body.len() == 0 || body.len() > MAX_RESPONSE_BYTES || !vstd::utf8::valid_utf8(body) {
        None
    } else {
        Some(vstd::utf8::decode_utf8(body))
    }
}

/// The page of a response body.
pub fn bounded_html(body: &[u8]) -> (r: Result<Vec<char>, ClassifiedError>)
    ensures
        match r {
            Ok(page) => page_of(body@) == Some(page@),
            Err(e) => page_of(body@) is None && e == error::plain(ErrorKind::Parse),
        },
{
    if body.len() == 0 || body.len() > MAX_RESPONSE_BYTES {
        return Err(ClassifiedError::new(ErrorKind::Parse));
    }
    match text::utf8_text(body) {
        Some(page) => Ok(text::chars_of(page.as_str())),
        None => Err(ClassifiedError::new(ErrorKind::Parse)),
    }
}

/// The amount of money that a text shows; none for a negative one.
pub open spec fn amount_of(raw: Seq<char>) -> Option<Decimal> {
    let digits = text::trimmed(
        text::without(text::without_leading(text::trimmed(raw), '$'), ','),
    );
    match decimal::decimal_parsed(digits) {
        Some(amount) => if amount.below_zero() {
            None
        } else {
            Some(amount)
        },
        None => None,
    }
}

/// The amount of money that a text shows.
pub fn parse_amount(raw: &[char]) -> (r: Option<Decimal>)
    ensures
        r == amount_of(raw@),
        r is Some ==> r->0.wf(),
{
    let plain = text::remove_char(text::strip_leading(text::trim(raw), '$'), ',');
    let digits = text::text_of(text::trim(plain.as_slice()));
    match decimal::parse(digits.as_str()) {
        Some(amount) => if amount.is_below_zero() {
            None
        } else {
            Some(amount)
        },
        None => None,
    }
}

/// The text behind a prefix, compared without regard to ASCII case.
pub open spec fn behind_prefix(s: Seq<char>, prefix: Seq<char>) -> Option<Seq<char>> {
    if s.len() >= prefix.len() && text::same_ignoring_case(s.take(prefix.len() as int), prefix) {
        Some(s.skip(prefix.len() as int))
    } else {
        None
    }
}

/// The text before a suffix, compared without regard to ASCII case.
pub open spec fn before_suffix(s: Seq<char>, suffix: Seq<char>) -> Option<Seq<char>> {
    let at = s.len() - suffix.len();
    if at >= 0 && text::same_ignoring_case(s.skip(at), suffix) {
        Some(s.take(at))
    } else {
        None
    }
}

/// The text behind a prefix, compared without regard to ASCII case.
pub fn strip_prefix_ascii_case<'a>(s: &'a [char], prefix: &str) -> (r: Option<&'a [char]>)
    ensures
        match r {
            Some(rest) => behind_prefix(s@, prefix@) == Some(rest@),
            None => behind_prefix(s@, prefix@) is None,
        },
{
    let wanted = text::chars_of(prefix);
    let length: usize = s.len();
    if length < wanted.len() {
        return None;
    }
    let head = slice_subrange(s, 0, wanted.len());
    assert(head@ =~= s@.take(prefix@.len() as int));
    if !text::eq_ignore_case(head, wanted.as_slice()) {
        return None;
    }
    let rest = slice_subrange(s, wanted.len(), length);
    assert(rest@ =~= s@.skip(prefix@.len() as int));
    Some(rest)
}

/// The text before a suffix, compared without regard to ASCII case.
pub fn strip_suffix_ascii_case<'a>(s: &'a [char], suffix: &str) -> (r: Option<&'a [char]>)
    ensures
        match r {
            Some(rest) => before_suffix(s@, suffix@) == Some(rest@),
            None => before_suffix(s@, suffix@) is None,
        },
{
    let wanted = text::chars_of(suffix);
    let length: usize = s.len();
    if length < wanted.len() {
        return None;
    }
    let at: usize = length - wanted.len();
    let tail = slice_subrange(s, at, length);
    assert(tail@ =~= s@.skip(at as int));
    if !text::eq_ignore_case(tail, wanted.as_slice()) {
        return None;
    }
    let rest = slice_subrange(s, 0, at);
    assert(rest@ =~= s@.take(at as int));
    Some(rest)
}

/// The month that an English name denotes.
pub open spec fn month_of(name: Seq<char>) -> Option<u8> {
    if name == "January"@ {
        Some(1u8)
    } else if name == "February"@ {
        Some(2u8)
    } else if name == "March"@ {
        Some(3u8)
    } else if name == "April"@ {
        Some(4u8)
    } else if name == "May"@ {
        Some(5u8)
    } else if name == "June"@ {
        Some(6u8)
    } else if name == "July"@ {
        Some(7u8)
    } else if name == "August"@ {
        Some(8u8)
    } else if name == "September"@ {
        Some(9u8)
    } else if name == "October"@ {
        Some(10u8)
    } else if name == "November"@ {
        Some(11u8)
    } else if name == "December"@ {
        Some(12u8)
    } else {
        None
    }
}

fn read_month(name: &[char]) -> (r: Option<u8>)
    ensures
        r == month_of(name@),
{
    if text::equals(name, "January") {
        Some(1)
    } else if text::equals(name, "February") {
        Some(2)
    } else if text::equals(name, "March") {
        Some(3)
    } else if text::equals(name, "April") {
        Some(4)
    } else if text::equals(name, "May") {
        Some(5)
    } else if text::equals(name, "June") {
        Some(6)
    } else if text::equals(name, "July") {
        Some(7)
    } else if text::equals(name, "August") {
        Some(8)
    } else if text::equals(name, "September") {
        Some(9)
    } else if text::equals(name, "October") {
        Some(10)
    } else if text::equals(name, "November") {
        Some(11)
    } else if text::equals(name, "December") {
        Some(12)
    } else {
        None
    }
}

/// The number below 256 that a text denotes.
pub open spec fn small_number(s: Seq<char>) -> Option<u8> {
    match text::u64_value(s) {
        Some(n) => if n <= 255 {
            Some(n as u8)
        } else {
            None
        },
        None => None,
    }
}

fn read_small_number(s: &[char]) -> (r: Option<u8>)
    ensures
        r == small_number(s@),
{
    match text::parse_u64(s) {
        Some(n) => if n <= 255 {
            Some(n as u8)
        } else {
            None
        },
        None => None,
    }
}

/// The signed 32-bit number that a text denotes.
pub open spec fn year_number(s: Seq<char>) -> Option<i32> {
    match text::i64_value(s) {
        Some(n) => if i32::MIN <= n <= i32::MAX {
            Some(n as i32)
        } else {
            None
        },
        None => None,
    }
}

fn read_year(s: &[char]) -> (r: Option<i32>)
    ensures
        r == year_number(s@),
{
    match text::parse_i64(s) {
        Some(n) => if i32::MIN as i64 <= n && n <= i32::MAX as i64 {
            Some(n as i32)
        } else {
            None
        },
        None => None,
    }
}

/// Hour and minute of a clock text; zero for both where it is none.
pub open spec fn clock_of(s: Seq<char>) -> (u8, u8) {
    match text::split_at_first(s, ':') {
        Some((hour, minute)) => match (small_number(hour), small_number(minute)) {
            (Some(h), Some(m)) => (h, m),
            _ => (0, 0),
        },
        None => (0, 0),
    }
}

/// The hour of the day of a twelve-hour clock.
pub open spec fn day_hour(hour: u8, marker: Seq<char>) -> Option<int> {
    if marker == "AM"@ {
        Some(
            if hour == 12 {
                0
            } else {
                hour as int
            },
        )
    } else if marker == "PM"@ {
        Some(
            if hour == 12 {
                12
            } else {
                hour as int + 12
            },
        )
    } else {
        None
    }
}

/// The instant of a text such as `March 4, 2026 at 5:06 PM`, in UTC.
pub open spec fn reset_time(value: Seq<char>) -> Option<Timestamp> {
    let words = text::words_from(value, 0, true);
    if words.len() != 6 || words[3] != "at"@ {
        None
    } else {
        let (hour, minute) = clock_of(words[4]);
        match (
            month_of(words[0]),
            small_number(text::without_trailing(words[1], ',')),
            year_number(text::without_trailing(words[2], ',')),
        ) {
            (Some(month), Some(day), Some(year)) => if hour == 0 || hour > 12 || minute > 59 {
                None
            } else {
                match (day_hour(hour, words[5]), instant::midnight_of(year, month, day)) {
                    (Some(h), Some(start)) => Some(
                        Timestamp {
                            nanos: ((start + h * 3600 + minute * 60) * 1_000_000_000) as i128,
                        },
                    ),
                    _ => None,
                }
            },
            _ => None,
        }
    }
}

/// The instant of a text such as `March 4, 2026 at 5:06 PM`, in UTC.
pub fn parse_reset_date(value: &[char]) -> (r: Option<Timestamp>)
    ensures
        r == reset_time(value@),
{
    let words = text::words(value, true);
    let ghost all = text::words_from(value@, 0, true);
    if words.len() != 6 {
        return None;
    }
    assert(words@[0]@ == all[0] && words@[1]@ == all[1] && words@[2]@ == all[2]);
    assert(words@[3]@ == all[3] && words@[4]@ == all[4] && words@[5]@ == all[5]);
    if !text::equals(words[3], "at") {
        return None;
    }
    let (hour, minute) = match text::split_once(words[4], ':') {
        Some((h, m)) => match (read_small_number(h), read_small_number(m)) {
            (Some(h), Some(m)) => (h, m),
            _ => (0u8, 0u8),
        },
        None => (0u8, 0u8),
    };
    assert((hour, minute) == clock_of(all[4]));
    let month = match read_month(words[0]) {
        Some(month) => month,
        None => return None,
    };
    let day = match read_small_number(text::strip_trailing(words[1], ',')) {
        Some(day) => day,
        None => return None,
    };
    let year = match read_year(text::strip_trailing(words[2], ',')) {
        Some(year) => year,
        None => return None,
    };
    if hour == 0 || hour > 12 || minute > 59 {
        return None;
    }
    let in_day: i128 = if text::equals(words[5], "AM") {
        if hour == 12 {
            0
        } else {
            hour as i128
        }
    } else if text::equals(words[5], "PM") {
        proof {
            reveal_strlit("AM");
            reveal_strlit("PM");
        }
        if hour == 12 {
            12
        } else {
            hour as i128 + 12
        }
    } else {
        return None;
    };
    match instant::midnight(year, month, day) {
        Some(start) => Some(
            Timestamp { nanos: (start as i128 + in_day * 3600 + minute as i128 * 60) * 1_000_000_000 },
        ),
        None => None,
    }
}

/// The English names of the months, in the order of the year.
pub open spec fn month_names() -> Seq<Seq<char>> {
    seq![
        "January"@,
        "February"@,
        "March"@,
        "April"@,
        "May"@,
        "June"@,
        "July"@,
        "August"@,
        "September"@,
        "October"@,
        "November"@,
        "December"@,
    ]
}

/// A name denotes a month by its place in the year, and no other text does.
pub proof fn law_months_are_counted(name: Seq<char>)
    ensures
        match month_of(name) {
            Some(month) => 1 <= month <= 12 && month_names()[month - 1] == name,
            None => !month_names().contains(name),
        },
{
}

proof fn lemma_within_day(days: int, rest: int)
    requires
        0 <= rest < 86_400,
    ensures
        (86_400 * days + rest) / 86_400 == days,
        (86_400 * days + rest) % 86_400 == rest,
{
}

proof fn lemma_within_hour(hours: int, rest: int)
    requires
        0 <= rest < 3600,
    ensures
        (3600 * hours + rest) / 3600 == hours,
        (3600 * hours + rest) % 3600 == rest,
{
}

proof fn lemma_within_minute(minutes: int)
    ensures
        (60 * minutes) / 60 == minutes,
        (60 * minutes) % 60 == 0,
{
}

/// The calendar reading of a day's hour and minute.
#[verifier::spinoff_prover]
proof fn lemma_reading_of(year: i32, month: u8, day: u8, hour: int, minute: u8, at: Timestamp)
    requires
        instant::midnight_of(year, month, day) is Some,
        0 <= hour < 24,
        minute < 60,
        at.nanos == (instant::midnight_of(year, month, day)->0 + hour * 3600 + minute * 60)
            * 1_000_000_000,
    ensures
        ({
            let read = instant::civil(at);
            &&& instant::reads_as(read, at)
            &&& read.year == year && read.month == month && read.day == day
            &&& read.hour == hour && read.minute == minute && read.second == 0
        }),
{
    let start = instant::midnight_of(year, month, day)->0;
    let built = instant::Civil {
        year,
        month,
        day,
        hour: hour as u8,
        minute,
        second: 0,
        weekday: ((instant::day_index(at) + 3) % 7) as u8,
    };
    instant::lemma_midnight_is_a_day(built);
    let days = instant::day_number(built);
    let seconds = 86_400 * days + hour * 3600 + minute * 60;
    assert(at.nanos == seconds * 1_000_000_000);
    assert(at.seconds() == seconds);
    lemma_within_day(days, hour * 3600 + minute * 60);
    lemma_within_hour(hour, minute * 60);
    lemma_within_hour(24 * days + hour, minute * 60);
    lemma_within_minute(minute as int);
    lemma_within_minute(1440 * days + 60 * hour + minute);
    assert(seconds == 3600 * (24 * days + hour) + minute * 60);
    assert(seconds == 60 * (1440 * days + 60 * hour + minute));
    assert(seconds % 86_400 == hour * 3600 + minute * 60);
    assert(seconds % 86_400 / 3600 == hour);
    assert(seconds % 3600 == minute * 60);
    assert(seconds % 60 == 0);
    assert(instant::reads_as(built, at));
    instant::law_days_are_distinct(built, instant::civil(at));
}

/// The parts of a text that denotes an instant.
proof fn lemma_reset_parts(value: Seq<char>)
    requires
        reset_time(value) is Some,
    ensures
        ({
            let words = text::words_from(value, 0, true);
            let (hour, minute) = clock_of(words[4]);
            let month = month_of(words[0]);
            let day = small_number(text::without_trailing(words[1], ','));
            let year = year_number(text::without_trailing(words[2], ','));
            &&& month is Some && day is Some && year is Some
            &&& 1 <= hour <= 12 && minute <= 59
            &&& instant::midnight_of(year->0, month->0, day->0) is Some
            &&& day_hour(hour, words[5]) is Some
            &&& reset_time(value)->0.nanos == (instant::midnight_of(year->0, month->0, day->0)->0
                + day_hour(hour, words[5])->0 * 3600 + minute * 60) * 1_000_000_000
        }),
{
    let words = text::words_from(value, 0, true);
    let month = month_of(words[0])->0;
    let day = small_number(text::without_trailing(words[1], ','))->0;
    let year = year_number(text::without_trailing(words[2], ','))->0;
    instant::lemma_midnight_is_a_day(
        instant::Civil { year, month, day, hour: 0, minute: 0, second: 0, weekday: 0 },
    );
}

/// A text that denotes an instant denotes the day and the minute that it names, and
/// the hour on a clock of twelve hours: noon and midnight are twelve.
pub proof fn law_reset_reads_as_written(value: Seq<char>)
    requires
        reset_time(value) is Some,
    ensures
        ({
            let words = text::words_from(value, 0, true);
            let at = reset_time(value)->0;
            let read = instant::civil(at);
            &&& text::split_at_first(words[4], ':') matches Some((hour, minute))
            &&& instant::reads_as(read, at)
            &&& at.nanos as int % 1_000_000_000 == 0
            &&& month_names()[read.month - 1] == words[0]
            &&& text::u64_value(text::without_trailing(words[1], ',')) == Some(read.day as u64)
            &&& text::i64_value(text::without_trailing(words[2], ',')) == Some(read.year as i64)
            &&& text::u64_value(minute) == Some(read.minute as u64)
            &&& read.second == 0
            &&& text::u64_value(hour) == Some(
                if read.hour % 12 == 0 {
                    12u64
                } else {
                    (read.hour % 12) as u64
                },
            )
            &&& words[5] == "AM"@ && read.hour < 12 || words[5] == "PM"@ && read.hour >= 12
        }),
{
    let words = text::words_from(value, 0, true);
    let at = reset_time(value)->0;
    lemma_reset_parts(value);
    let (hour, minute) = clock_of(words[4]);
    let month = month_of(words[0])->0;
    let day = small_number(text::without_trailing(words[1], ','))->0;
    let year = year_number(text::without_trailing(words[2], ','))->0;
    law_months_are_counted(words[0]);
    lemma_reading_of(year, month, day, day_hour(hour, words[5])->0, minute, at);
}

/// For the same day, hour and minute, the afternoon text denotes the instant twelve
/// hours behind the morning text.
pub proof fn law_afternoon_follows_morning(morning: Seq<char>, afternoon: Seq<char>)
    requires
        text::words_from(morning, 0, true).len() == 6,
        text::words_from(afternoon, 0, true).len() == 6,
        text::words_from(morning, 0, true).take(5) == text::words_from(afternoon, 0, true).take(5),
        text::words_from(morning, 0, true)[5] == "AM"@,
        text::words_from(afternoon, 0, true)[5] == "PM"@,
    ensures
        reset_time(morning) is Some <==> reset_time(afternoon) is Some,
        reset_time(morning) is Some ==> reset_time(afternoon)->0.nanos - reset_time(morning)->0.nanos
            == 12 * 3600 * 1_000_000_000,
{
    let a = text::words_from(morning, 0, true);
    let b = text::words_from(afternoon, 0, true);
    reveal_strlit("AM");
    reveal_strlit("PM");
    assert forall|i: int| 0 <= i < 5 implies a[i] == b[i] by {
        assert(a.take(5)[i] == b.take(5)[i]);
    }
    assert(a[0] == b[0] && a[1] == b[1] && a[2] == b[2] && a[3] == b[3] && a[4] == b[4]);
    if reset_time(morning) is Some {
        lemma_reset_parts(morning);
        lemma_reset_parts(afternoon);
        assert("AM"@[0] != "PM"@[0]);
        let (hour, minute) = clock_of(a[4]);
        assert(day_hour(hour, b[5])->0 == day_hour(hour, a[5])->0 + 12);
    }
}

/// The balance in the first tabular paragraph between `from` and `end`, after
/// `inspected` paragraphs.
pub open spec fn balance_between(s: Seq<char>, from: int, end: int, inspected: nat) -> Found<
    Option<Decimal>,
>
    decreases end - from,
{
    match html::element_at(text::lower(s), "p"@, from, end) {
        None => Found::Nothing,
        Some(e) => if !html::element_within(e, from, end) || inspected + 1
            > html::MAX_HTML_ELEMENTS {
            Found::Failed
        } else if text::contains(text::lower(s).subrange(e.0, e.1), "tabular-nums"@) {
            match html::shown_text(s.subrange(e.1, e.2)) {
                Some(shown) => Found::Hit(amount_of(shown)),
                None => Found::Failed,
            }
        } else {
            balance_between(s, e.3, end, inspected + 1)
        },
    }
}

fn find_balance(s: &[char], low: &[char], from: usize, end: usize) -> (r: Result<
    Option<Decimal>,
    ClassifiedError,
>)
    requires
        low@ == text::lower(s@),
        end <= s@.len(),
    ensures
        match (r, balance_between(s@, from as int, end as int, 0)) {
            (Ok(found), Found::Hit(amount)) => found == amount && (found is Some
                ==> found->0.wf()),
            (Ok(found), Found::Nothing) => found is None,
            (Err(e), Found::Failed) => e == error::plain(ErrorKind::Parse),
            _ => false,
        },
{
    let mut cursor: usize = from;
    let mut inspected: usize = 0;
    loop
        invariant
            low@ == text::lower(s@),
            low@.len() == s@.len(),
            end <= s@.len(),
            inspected <= html::MAX_HTML_ELEMENTS,
            balance_between(s@, from as int, end as int, 0) == balance_between(
                s@,
                cursor as int,
                end as int,
                inspected as nat,
            ),
        decreases end - cursor,
    {
        let element = match html::next_element(low, "p", cursor, end) {
            Some(element) => element,
            None => return Ok(None),
        };
        if inspected >= html::MAX_HTML_ELEMENTS {
            return Err(ClassifiedError::new(ErrorKind::Parse));
        }
        inspected += 1;
        if text::has(slice_subrange(low, element.open_start, element.inner_start), "tabular-nums") {
            return match html::visible_text(
                slice_subrange(s, element.inner_start, element.inner_end),
            ) {
                Ok(shown) => Ok(parse_amount(shown.as_slice())),
                Err(e) => Err(e),
            };
        }
        cursor = element.close_end;
    }
}

/// The amount behind the label `Total:` of a text.
pub open spec fn total_label(shown: Seq<char>) -> Option<Option<Decimal>> {
    match text::split_at_first(shown, ':') {
        Some((label, amount)) => if text::same_ignoring_case(text::trimmed(label), "total"@) {
            Some(amount_of(amount))
        } else {
            None
        },
        None => None,
    }
}

/// The total in the first labelled span between `from` and `end`, after
/// `inspected` spans.
pub open spec fn total_between(s: Seq<char>, from: int, end: int, inspected: nat) -> Found<
    Option<Decimal>,
>
    decreases end - from,
{
    match html::element_at(text::lower(s), "span"@, from, end) {
        None => Found::Nothing,
        Some(e) => if !html::element_within(e, from, end) || inspected + 1
            > html::MAX_HTML_ELEMENTS {
            Found::Failed
        } else {
            match html::shown_text(s.subrange(e.1, e.2)) {
                None => Found::Failed,
                Some(shown) => match total_label(shown) {
                    Some(amount) => Found::Hit(amount),
                    None => total_between(s, e.3, end, inspected + 1),
                },
            }
        },
    }
}

fn find_total(s: &[char], low: &[char], from: usize, end: usize) -> (r: Result<
    Option<Decimal>,
    ClassifiedError,
>)
    requires
        low@ == text::lower(s@),
        end <= s@.len(),
    ensures
        match (r, total_between(s@, from as int, end as int, 0)) {
            (Ok(found), Found::Hit(amount)) => found == amount && (found is Some
                ==> found->0.wf()),
            (Ok(found), Found::Nothing) => found is None,
            (Err(e), Found::Failed) => e == error::plain(ErrorKind::Parse),
            _ => false,
        },
{
    let wanted = text::chars_of("total");
    let mut cursor: usize = from;
    let mut inspected: usize = 0;
    loop
        invariant
            wanted@ == "total"@,
            low@ == text::lower(s@),
            low@.len() == s@.len(),
            end <= s@.len(),
            inspected <= html::MAX_HTML_ELEMENTS,
            total_between(s@, from as int, end as int, 0) == total_between(
                s@,
                cursor as int,
                end as int,
                inspected as nat,
            ),
        decreases end - cursor,
    {
        let element = match html::next_element(low, "span", cursor, end) {
            Some(element) => element,
            None => return Ok(None),
        };
        if inspected >= html::MAX_HTML_ELEMENTS {
            return Err(ClassifiedError::new(ErrorKind::Parse));
        }
        inspected += 1;
        let shown = match html::visible_text(
            slice_subrange(s, element.inner_start, element.inner_end),
        ) {
            Ok(shown) => shown,
            Err(e) => return Err(e),
        };
        if let Some((label, amount)) = text::split_once(shown.as_slice(), ':') {
            if text::eq_ignore_case(text::trim(label), wanted.as_slice()) {
                return Ok(parse_amount(amount));
            }
        }
        cursor = element.close_end;
    }
}

/// The total behind a usage heading that ends at `from`, within a distance.
pub open spec fn usage_total(s: Seq<char>, from: int) -> Result<Option<Decimal>, ErrorKind> {
    match html::reach(s, from, from, 1_200) {
        None => Ok(None),
        Some(end) => match total_between(s, from, end, 0) {
            Found::Hit(amount) => Ok(amount),
            Found::Nothing => Ok(None),
            Found::Failed => Err(ErrorKind::Parse),
        },
    }
}

/// The total below the first `Usage` heading at or behind `from`.
pub open spec fn period_total(s: Seq<char>, from: int) -> Result<Option<Decimal>, ErrorKind> {
    match html::labelled_element(s, "h2"@, "Usage"@, from, s.len() as int, 0) {
        Found::Failed => Err(ErrorKind::Parse),
        Found::Nothing => Ok(None),
        Found::Hit(heading) => usage_total(s, heading.3),
    }
}

/// The label of the shown period.
pub open spec fn period_text(s: Seq<char>) -> Result<Option<Seq<char>>, ErrorKind> {
    match html::attributed_element(
        text::lower(s),
        "button"@,
        "aria-label"@,
        "usage date range"@,
        0,
        0,
    ) {
        Found::Failed => Err(ErrorKind::Parse),
        Found::Nothing => Ok(None),
        Found::Hit(e) => match html::shown_text(s.subrange(e.1, e.2)) {
            None => Err(ErrorKind::Parse),
            Some(shown) => Ok(
                if shown.len() > 0 {
                    Some(shown)
                } else {
                    None
                },
            ),
        },
    }
}

/// The balance within a distance behind its heading.
pub open spec fn heading_balance(s: Seq<char>, from: int) -> Result<Option<Decimal>, ErrorKind> {
    match html::reach(s, from, from, 900) {
        None => Ok(None),
        Some(end) => match balance_between(s, from, end, 0) {
            Found::Hit(amount) => Ok(amount),
            Found::Nothing => Ok(None),
            Found::Failed => Err(ErrorKind::Parse),
        },
    }
}

/// The pay-as-you-go state that a page shows; `Ok(None)` where it shows none.
pub open spec fn pay_of_page(s: Seq<char>) -> Result<Option<PayView>, ErrorKind> {
    match html::labelled_element(s, "h2"@, "Credit balance"@, 0, s.len() as int, 0) {
        Found::Failed => Err(ErrorKind::Parse),
        Found::Nothing => Ok(None),
        Found::Hit(heading) => match heading_balance(s, heading.3) {
            Err(kind) => Err(kind),
            Ok(None) => Ok(None),
            Ok(Some(credit_balance)) => match (period_total(s, heading.3), period_text(s)) {
                (Ok(period_usage_total), Ok(period_label)) => Ok(
                    Some(PayView { credit_balance, period_usage_total, period_label }),
                ),
                _ => Err(ErrorKind::Parse),
            },
        },
    }
}

/// The pay-as-you-go state of a response body.
pub open spec fn pay_of_body(body: Seq<u8>) -> Result<Option<PayView>, ErrorKind> {
    match page_of(body) {
        None => Err(ErrorKind::Parse),
        Some(page) => pay_of_page(page),
    }
}

fn find_period_total(s: &[char], low: &[char], from: usize) -> (r: Result<
    Option<Decimal>,
    ClassifiedError,
>)
    requires
        low@ == text::lower(s@),
        from <= s@.len(),
    ensures
        match r {
            Ok(found) => period_total(s@, from as int) == Ok::<_, ErrorKind>(found) && (found
                is Some ==> found->0.wf()),
            Err(e) => period_total(s@, from as int) is Err && e == error::plain(ErrorKind::Parse),
        },
{
    let length: usize = s.len();
    match html::find_exact_element(s, low, "h2", "Usage", from, length) {
        Err(e) => Err(e),
        Ok(None) => Ok(None),
        Ok(Some(heading)) => match html::limit_behind(s, heading.close_end, 1_200) {
            None => Ok(None),
            Some(end) => find_total(s, low, heading.close_end, end),
        },
    }
}

fn find_period_label(s: &[char], low: &[char]) -> (r: Result<Option<String>, ClassifiedError>)
    requires
        low@ == text::lower(s@),
    ensures
        match r {
            Ok(label) => period_text(s@) == Ok::<_, ErrorKind>(label.deep_view()),
            Err(e) => period_text(s@) is Err && e == error::plain(ErrorKind::Parse),
        },
{
    assert(low@.len() == s@.len());
    match html::find_attribute_element(low, "button", "aria-label", "usage date range") {
        Err(e) => Err(e),
        Ok(None) => Ok(None),
        Ok(Some(element)) => match html::visible_text(
            slice_subrange(s, element.inner_start, element.inner_end),
        ) {
            Err(e) => Err(e),
            Ok(shown) => Ok(
                if shown.len() > 0 {
                    Some(text::text_of(shown.as_slice()))
                } else {
                    None
                },
            ),
        },
    }
}

/// Parses the optional pay-as-you-go page.
pub fn parse_pay_as_you_go_html(body: &[u8]) -> (r: Result<
    Option<SakanaPayAsYouGo>,
    ClassifiedError,
>)
    ensures
        match r {
            Ok(Some(pay)) => pay_of_body(body@) == Ok::<_, ErrorKind>(Some(pay.value()))
                && pay.wf(),
            Ok(None) => pay_of_body(body@) == Ok::<Option<PayView>, ErrorKind>(None),
            Err(e) => pay_of_body(body@) is Err && e == error::plain(ErrorKind::Parse),
        },
{
    let page = match bounded_html(body) {
        Ok(page) => page,
        Err(e) => return Err(e),
    };
    let s = page.as_slice();
    let length: usize = s.len();
    let lower = text::to_lower(s);
    let low = lower.as_slice();
    let heading = match html::find_exact_element(s, low, "h2", "Credit balance", 0, length) {
        Err(e) => return Err(e),
        Ok(None) => return Ok(None),
        Ok(Some(heading)) => heading,
    };
    let balance = match html::limit_behind(s, heading.close_end, 900) {
        None => None,
        Some(end) => match find_balance(s, low, heading.close_end, end) {
            Ok(balance) => balance,
            Err(e) => return Err(e),
        },
    };
    let credit_balance = match balance {
        Some(amount) => amount,
        None => return Ok(None),
    };
    let period_usage_total = match find_period_total(s, low, heading.close_end) {
        Ok(total) => total,
        Err(e) => return Err(e),
    };
    let period_label = match find_period_label(s, low) {
        Ok(label) => label,
        Err(e) => return Err(e),
    };
    Ok(Some(SakanaPayAsYouGo { credit_balance, period_usage_total, period_label }))
}

/// A balance that a page shows is never negative.
pub proof fn law_balance_not_negative(body: Seq<u8>)
    ensures
        match pay_of_body(body) {
            Ok(Some(pay)) => !pay.credit_balance.below_zero() && (pay.period_usage_total is Some
                ==> !pay.period_usage_total->0.below_zero()),
            _ => true,
        },
{
    if let Some(s) = page_of(body) {
        if let Found::Hit(heading) = html::labelled_element(
            s,
            "h2"@,
            "Credit balance"@,
            0,
            s.len() as int,
            0,
        ) {
            if let Some(end) = html::reach(s, heading.3, heading.3, 900) {
                lemma_balance_not_negative(s, heading.3, end, 0);
            }
            if let Found::Hit(other) = html::labelled_element(
                s,
                "h2"@,
                "Usage"@,
                heading.3,
                s.len() as int,
                0,
            ) {
                if let Some(end) = html::reach(s, other.3, other.3, 1_200) {
                    lemma_total_not_negative(s, other.3, end, 0);
                }
            }
        }
    }
}

proof fn lemma_balance_not_negative(s: Seq<char>, from: int, end: int, inspected: nat)
    ensures
        match balance_between(s, from, end, inspected) {
            Found::Hit(Some(amount)) => !amount.below_zero(),
            _ => true,
        },
    decreases end - from,
{
    if let Some(e) = html::element_at(text::lower(s), "p"@, from, end) {
        if html::element_within(e, from, end) {
            lemma_balance_not_negative(s, e.3, end, inspected + 1);
        }
    }
}

proof fn lemma_total_not_negative(s: Seq<char>, from: int, end: int, inspected: nat)
    ensures
        match total_between(s, from, end, inspected) {
            Found::Hit(Some(amount)) => !amount.below_zero(),
            _ => true,
        },
    decreases end - from,
{
    if let Some(e) = html::element_at(text::lower(s), "span"@, from, end) {
        if html::element_within(e, from, end) {
            lemma_total_not_negative(s, e.3, end, inspected + 1);
        }
    }
}

/// What a page shows of one quota window: the texts of its used share, in
/// order, and its reset time.
pub struct QuotaText {
    pub percents: Vec<String>,
    pub seconds: u64,
    pub resets_at: Option<Timestamp>,
}

/// Texts of the used share and the reset time between `from` and `end`, added
/// to those found in `inspected` paragraphs before.
pub open spec fn window_lines(
    s: Seq<char>,
    from: int,
    end: int,
    inspected: nat,
    percents: Seq<Seq<char>>,
    resets_at: Option<Timestamp>,
) -> Found<(Seq<Seq<char>>, Option<Timestamp>)>
    decreases end - from,
{
    match html::element_at(text::lower(s), "p"@, from, end) {
        None => Found::Hit((percents, resets_at)),
        Some(e) => if !html::element_within(e, from, end) || inspected + 1
            > html::MAX_HTML_ELEMENTS {
            Found::Failed
        } else {
            match html::shown_text(s.subrange(e.1, e.2)) {
                None => Found::Failed,
                Some(shown) => match before_suffix(shown, "% used"@) {
                    Some(raw) => window_lines(
                        s,
                        e.3,
                        end,
                        inspected + 1,
                        percents.push(text::trimmed(raw)),
                        resets_at,
                    ),
                    None => match behind_prefix(shown, "Resets on "@) {
                        Some(raw) => window_lines(
                            s,
                            e.3,
                            end,
                            inspected + 1,
                            percents,
                            reset_time(raw),
                        ),
                        None => window_lines(s, e.3, end, inspected + 1, percents, resets_at),
                    },
                },
            }
        },
    }
}

/// The window below the paragraph `label`, up to the paragraph `other`.
pub open spec fn window_of(s: Seq<char>, label: Seq<char>, other: Seq<char>) -> Result<
    Option<(Seq<Seq<char>>, Option<Timestamp>)>,
    ErrorKind,
> {
    match html::labelled_element(s, "p"@, label, 0, s.len() as int, 0) {
        Found::Failed => Err(ErrorKind::Parse),
        Found::Nothing => Ok(None),
        Found::Hit(heading) => match html::labelled_element(
            s,
            "p"@,
            other,
            heading.3,
            s.len() as int,
            0,
        ) {
            Found::Failed => Err(ErrorKind::Parse),
            Found::Nothing => window_lines_of(s, heading.3, s.len() as int),
            Found::Hit(next) => window_lines_of(s, heading.3, next.0),
        },
    }
}

/// The window between two positions; a window without a used share fails.
pub open spec fn window_lines_of(s: Seq<char>, from: int, end: int) -> Result<
    Option<(Seq<Seq<char>>, Option<Timestamp>)>,
    ErrorKind,
> {
    match window_lines(s, from, end, 0, seq![], None) {
        Found::Hit(lines) => if lines.0.len() > 0 {
            Ok(Some(lines))
        } else {
            Err(ErrorKind::Parse)
        },
        _ => Err(ErrorKind::Parse),
    }
}

fn read_window_lines(s: &[char], low: &[char], from: usize, end: usize, seconds: u64) -> (r: Result<
    QuotaText,
    ClassifiedError,
>)
    requires
        low@ == text::lower(s@),
        end <= s@.len(),
    ensures
        match r {
            Ok(window) => window_lines_of(s@, from as int, end as int) == Ok::<_, ErrorKind>(
                Some((window.percents.deep_view(), window.resets_at)),
            ) && window.seconds == seconds,
            Err(e) => window_lines_of(s@, from as int, end as int) is Err && e == error::plain(
                ErrorKind::Parse,
            ),
        },
{
    let mut percents: Vec<String> = Vec::new();
    let mut resets_at: Option<Timestamp> = None;
    let mut cursor: usize = from;
    let mut inspected: usize = 0;
    assert(percents.deep_view() =~= seq![]);
    loop
        invariant
            low@ == text::lower(s@),
            low@.len() == s@.len(),
            end <= s@.len(),
            inspected <= html::MAX_HTML_ELEMENTS,
            window_lines(s@, from as int, end as int, 0, seq![], None) == window_lines(
                s@,
                cursor as int,
                end as int,
                inspected as nat,
                percents.deep_view(),
                resets_at,
            ),
        decreases end - cursor,
    {
        let element = match html::next_element(low, "p", cursor, end) {
            Some(element) => element,
            None => {
                return if percents.len() > 0 {
                    Ok(QuotaText { percents, seconds, resets_at })
                } else {
                    Err(ClassifiedError::new(ErrorKind::Parse))
                };
            },
        };
        if inspected >= html::MAX_HTML_ELEMENTS {
            return Err(ClassifiedError::new(ErrorKind::Parse));
        }
        inspected += 1;
        let shown = match html::visible_text(
            slice_subrange(s, element.inner_start, element.inner_end),
        ) {
            Ok(shown) => shown,
            Err(e) => return Err(e),
        };
        let ghost before = percents.deep_view();
        if let Some(raw) = strip_suffix_ascii_case(shown.as_slice(), "% used") {
            percents.push(text::text_of(text::trim(raw)));
            assert(percents.deep_view() =~= before.push(text::trimmed(raw@)));
        } else if let Some(raw) = strip_prefix_ascii_case(shown.as_slice(), "Resets on ") {
            resets_at = parse_reset_date(raw);
        }
        cursor = element.close_end;
    }
}

/// The window below the paragraph `label`, up to the paragraph `other`.
pub fn parse_window(s: &[char], low: &[char], label: &str, other: &str, seconds: u64) -> (r: Result<
    Option<QuotaText>,
    ClassifiedError,
>)
    requires
        low@ == text::lower(s@),
    ensures
        match r {
            Ok(Some(window)) => window_of(s@, label@, other@) == Ok::<_, ErrorKind>(
                Some((window.percents.deep_view(), window.resets_at)),
            ) && window.seconds == seconds,
            Ok(None) => window_of(s@, label@, other@) == Ok::<
                Option<(Seq<Seq<char>>, Option<Timestamp>)>,
                ErrorKind,
            >(None),
            Err(e) => window_of(s@, label@, other@) is Err && e == error::plain(ErrorKind::Parse),
        },
{
    let length: usize = s.len();
    let heading = match html::find_exact_element(s, low, "p", label, 0, length) {
        Err(e) => return Err(e),
        Ok(None) => return Ok(None),
        Ok(Some(heading)) => heading,
    };
    let end: usize = match html::find_exact_element(s, low, "p", other, heading.close_end, length) {
        Err(e) => return Err(e),
        Ok(None) => length,
        Ok(Some(next)) => next.open_start,
    };
    match read_window_lines(s, low, heading.close_end, end, seconds) {
        Ok(window) => Ok(Some(window)),
        Err(e) => Err(e),
    }
}

/// The position of the used share among the texts of a window, given which of
/// them are percentages: the last, where all are.
pub fn percent_choice(valid: &Vec<bool>) -> (r: Result<usize, ClassifiedError>)
    ensures
        match r {
            Ok(at) => valid@.len() > 0 && at == valid@.len() - 1 && forall|i: int|
                0 <= i < valid@.len() ==> valid@[i],
            Err(e) => (valid@.len() == 0 || exists|i: int| 0 <= i < valid@.len() && !valid@[i]) && e
                == error::plain(ErrorKind::Parse),
        },
{
    let mut i: usize = 0;
    while i < valid.len()
        invariant
            i <= valid@.len(),
            forall|j: int| 0 <= j < i ==> valid@[j],
        decreases valid@.len() - i,
    {
        if !valid[i] {
            return Err(ClassifiedError::new(ErrorKind::Parse));
        }
        i += 1;
    }
    if i == 0 {
        return Err(ClassifiedError::new(ErrorKind::Parse));
    }
    Ok(i - 1)
}

/// Up to two texts of the spans between `from` and `end`, added to `values`;
/// `None` where one is unreadable or too long.
pub open spec fn span_texts(s: Seq<char>, from: int, end: int, values: Seq<Seq<char>>) -> Option<
    Seq<Seq<char>>,
>
    decreases end - from,
{
    match html::element_at(text::lower(s), "span"@, from, end) {
        None => Some(values),
        Some(e) => if !html::element_within(e, from, end) {
            None
        } else {
            match html::shown_text(s.subrange(e.1, e.2)) {
                None => None,
                Some(shown) => if shown.len() > 0 && text::byte_len(shown) > MAX_PLAN_BYTES {
                    None
                } else {
                    let grown = if shown.len() > 0 {
                        values.push(shown)
                    } else {
                        values
                    };
                    if grown.len() == 2 {
                        Some(grown)
                    } else {
                        span_texts(s, e.3, end, grown)
                    }
                },
            }
        },
    }
}

/// Up to two texts of the spans within a distance behind `from`.
pub open spec fn title_texts(s: Seq<char>, from: int) -> Option<Seq<Seq<char>>> {
    match html::reach(s, from, from, 2_048) {
        None => Some(seq![]),
        Some(end) => span_texts(s, from, end, seq![]),
    }
}

fn read_title_texts(s: &[char], low: &[char], from: usize) -> (r: Result<
    Vec<String>,
    ClassifiedError,
>)
    requires
        low@ == text::lower(s@),
        from <= s@.len(),
    ensures
        match r {
            Ok(values) => title_texts(s@, from as int) == Some(values.deep_view()),
            Err(e) => title_texts(s@, from as int) is None && e == error::plain(ErrorKind::Parse),
        },
{
    let mut values: Vec<String> = Vec::new();
    assert(values.deep_view() =~= seq![]);
    let end: usize = match html::limit_behind(s, from, 2_048) {
        Some(end) => end,
        None => return Ok(values),
    };
    let mut cursor: usize = from;
    loop
        invariant
            low@ == text::lower(s@),
            low@.len() == s@.len(),
            end <= s@.len(),
            title_texts(s@, from as int) == span_texts(s@, from as int, end as int, seq![]),
            span_texts(s@, from as int, end as int, seq![]) == span_texts(
                s@,
                cursor as int,
                end as int,
                values.deep_view(),
            ),
        decreases end - cursor,
    {
        let element = match html::next_element(low, "span", cursor, end) {
            Some(element) => element,
            None => return Ok(values),
        };
        let shown = match html::visible_text(
            slice_subrange(s, element.inner_start, element.inner_end),
        ) {
            Ok(shown) => shown,
            Err(e) => return Err(e),
        };
        let ghost before = values.deep_view();
        if shown.len() > 0 {
            let value = text::text_of(shown.as_slice());
            if value.as_str().len() > MAX_PLAN_BYTES {
                return Err(ClassifiedError::new(ErrorKind::Parse));
            }
            values.push(value);
            assert(values.deep_view() =~= before.push(shown@));
        }
        assert(values.deep_view().len() == values@.len());
        if values.len() == 2 {
            return Ok(values);
        }
        cursor = element.close_end;
    }
}

/// The texts of the first card title at or behind `from` that shows any, after
/// `inspected` divisions.
pub open spec fn card_texts(s: Seq<char>, from: int, inspected: nat) -> Found<Seq<Seq<char>>>
    decreases s.len() - from,
{
    match html::element_at(text::lower(s), "div"@, from, s.len() as int) {
        None => Found::Nothing,
        Some(e) => if !html::element_within(e, from, s.len() as int) || inspected + 1
            > html::MAX_HTML_ELEMENTS {
            Found::Failed
        } else if html::carries(
            text::lower(s).subrange(e.0, e.1),
            "data-slot"@,
            "card-title"@,
        ) {
            match title_texts(s, e.1) {
                None => Found::Failed,
                Some(values) => if values.len() > 0 {
                    Found::Hit(values)
                } else {
                    card_texts(s, e.3, inspected + 1)
                },
            }
        } else {
            card_texts(s, e.3, inspected + 1)
        },
    }
}

/// Name and price of the plan, in that order, as far as the page shows them.
pub fn parse_plan(s: &[char], low: &[char]) -> (r: Result<Vec<String>, ClassifiedError>)
    requires
        low@ == text::lower(s@),
    ensures
        match (r, card_texts(s@, 0, 0)) {
            (Ok(values), Found::Hit(texts)) => values.deep_view() == texts && texts.len() > 0,
            (Ok(values), Found::Nothing) => values@.len() == 0,
            (Err(e), Found::Failed) => e == error::plain(ErrorKind::Parse),
            _ => false,
        },
{
    let end: usize = s.len();
    let mut cursor: usize = 0;
    let mut inspected: usize = 0;
    loop
        invariant
            low@ == text::lower(s@),
            low@.len() == s@.len(),
            end == s@.len(),
            inspected <= html::MAX_HTML_ELEMENTS,
            card_texts(s@, 0, 0) == card_texts(s@, cursor as int, inspected as nat),
        decreases end - cursor,
    {
        let element = match html::next_element(low, "div", cursor, end) {
            Some(element) => element,
            None => return Ok(Vec::new()),
        };
        if inspected >= html::MAX_HTML_ELEMENTS {
            return Err(ClassifiedError::new(ErrorKind::Parse));
        }
        inspected += 1;
        if html::has_attribute(
            slice_subrange(low, element.open_start, element.inner_start),
            "data-slot",
            "card-title",
        ) {
            match read_title_texts(s, low, element.inner_start) {
                Err(e) => return Err(e),
                Ok(values) => {
                    if values.len() > 0 {
                        return Ok(values);
                    }
                },
            }
        }
        cursor = element.close_end;
    }
}

/// The dollar text of an amount.
pub open spec fn usd_text(value: Decimal) -> Seq<char> {
    "$"@ + decimal::decimal_fixed(value, 2)
}

fn format_usd(value: Decimal) -> (r: String)
    requires
        value.wf(),
    ensures
        r@ == usd_text(value),
{
    let mut r = "$".to_owned();
    let digits = decimal::to_fixed(value, 2);
    r.append(digits.as_str());
    r
}

/// The rows of the extra-usage section.
pub open spec fn pay_rows(pay: PayView) -> Seq<RowView> {
    let balance = RowView {
        label: "Balance"@,
        value: usd_text(pay.credit_balance),
        secondary: None,
        sensitivity: DetailSensitivity::Personal,
    };
    match pay.period_usage_total {
        Some(total) => seq![
            balance,
            RowView { label: "Usage"@, value: usd_text(total), secondary: pay.period_label, sensitivity: DetailSensitivity::Personal },
        ],
        None => seq![balance],
    }
}

/// The rows of the extra-usage section.
pub fn pay_as_you_go_section(pay: SakanaPayAsYouGo) -> (r: Vec<DetailRow>)
    requires
        pay.wf(),
    ensures
        usage::row_values(r@) == pay_rows(pay.value()),
{
    let mut rows: Vec<DetailRow> = Vec::new();
    rows.push(
        DetailRow {
            label: "Balance".to_owned(),
            value: format_usd(pay.credit_balance),
            secondary: None,
            sensitivity: DetailSensitivity::Personal,
        },
    );
    if let Some(total) = pay.period_usage_total {
        rows.push(
            DetailRow {
                label: "Usage".to_owned(),
                value: format_usd(total),
                secondary: pay.period_label,
                sensitivity: DetailSensitivity::Personal,
            },
        );
    }
    assert(usage::row_values(rows@) =~= pay_rows(pay.value()));
    rows
}

/// What a billing page shows.
pub struct BillingPage {
    pub five_hour: Option<QuotaText>,
    pub weekly: Option<QuotaText>,
    pub login_method: Option<String>,
    pub rows: Vec<DetailRow>,
}

/// The plan and price that a page shows, joined by a blank.
pub open spec fn plan_text(s: Seq<char>) -> Result<Option<Seq<char>>, ErrorKind> {
    match card_texts(s, 0, 0) {
        Found::Failed => Err(ErrorKind::Parse),
        Found::Nothing => Ok(None),
        Found::Hit(texts) => {
            let line = text::joined(texts, " "@);
            Ok(
                if line.len() > 0 {
                    Some(line)
                } else {
                    None
                },
            )
        },
    }
}

/// Texts and reset time of a window.
pub open spec fn quota_view(window: Option<QuotaText>) -> Option<
    (Seq<Seq<char>>, Option<Timestamp>),
> {
    match window {
        Some(w) => Some((w.percents.deep_view(), w.resets_at)),
        None => None,
    }
}

/// Whether a billing page can be read: its windows and plan are readable, and
/// at least one window is shown.
pub open spec fn readable_billing(s: Seq<char>) -> bool {
    let five_hour = window_of(s, "5-hour"@, "Weekly"@);
    let weekly = window_of(s, "Weekly"@, "5-hour"@);
    &&& five_hour is Ok
    &&& weekly is Ok
    &&& !(five_hour->Ok_0 is None && weekly->Ok_0 is None)
    &&& plan_text(s) is Ok
}

/// Parses the required billing page, and adds the rows of a pay-as-you-go state.
pub fn parse_billing_html(
    provider: ProviderId,
    body: &[u8],
    pay_as_you_go: Option<SakanaPayAsYouGo>,
) -> (r: Result<BillingPage, ClassifiedError>)
    requires
        pay_as_you_go is Some ==> pay_as_you_go->0.wf(),
    ensures
        match r {
            Ok(billing) => provider == ProviderId::Sakana && page_of(body@) is Some
                && readable_billing(page_of(body@)->0) && Ok::<_, ErrorKind>(
                quota_view(billing.five_hour),
            ) == window_of(page_of(body@)->0, "5-hour"@, "Weekly"@) && Ok::<_, ErrorKind>(
                quota_view(billing.weekly),
            ) == window_of(page_of(body@)->0, "Weekly"@, "5-hour"@) && (billing.five_hour is Some
                ==> billing.five_hour->0.seconds == 18_000) && (billing.weekly is Some
                ==> billing.weekly->0.seconds == 604_800) && Ok::<_, ErrorKind>(
                billing.login_method.deep_view(),
            ) == plan_text(page_of(body@)->0) && usage::row_values(billing.rows@) == (
            match pay_as_you_go {
                Some(pay) => pay_rows(pay.value()),
                None => seq![],
            }),
            Err(e) => if provider != ProviderId::Sakana {
                e == error::plain(ErrorKind::Api)
            } else {
                (page_of(body@) is None || !readable_billing(page_of(body@)->0)) && e
                    == error::plain(ErrorKind::Parse)
            },
        },
{
    if let Err(e) = validate_scope(provider) {
        return Err(e);
    }
    let page = match bounded_html(body) {
        Ok(page) => page,
        Err(e) => return Err(e),
    };
    let s = page.as_slice();
    let lower = text::to_lower(s);
    let low = lower.as_slice();
    let five_hour = match parse_window(s, low, "5-hour", "Weekly", 18_000) {
        Ok(window) => window,
        Err(e) => return Err(e),
    };
    let weekly = match parse_window(s, low, "Weekly", "5-hour", 604_800) {
        Ok(window) => window,
        Err(e) => return Err(e),
    };
    if five_hour.is_none() && weekly.is_none() {
        return Err(ClassifiedError::new(ErrorKind::Parse));
    }
    let values = match parse_plan(s, low) {
        Ok(values) => values,
        Err(e) => return Err(e),
    };
    let line = text::join(&values, " ");
    assert(values@.len() == 0 ==> values.deep_view() =~= seq![]);
    let login_method = if line.as_str().is_empty() {
        None
    } else {
        Some(line)
    };
    let rows = match pay_as_you_go {
        Some(pay) => pay_as_you_go_section(pay),
        None => Vec::new(),
    };
    assert(pay_as_you_go is None ==> usage::row_values(rows@) =~= seq![]);
    Ok(BillingPage { five_hour, weekly, login_method, rows })
}

/// Checks that an account belongs to this provider.
pub fn validate_scope(provider: ProviderId) -> (r: Result<(), ClassifiedError>)
    ensures
        match r {
            Ok(_) => provider == ProviderId::Sakana,
            Err(e) => provider != ProviderId::Sakana && e == error::plain(ErrorKind::Api),
        },
{
    if provider != ProviderId::Sakana {
        return Err(ClassifiedError::new(ErrorKind::Api));
    }
    Ok(())
}

/// Whether a billing endpoint may be used under a class.
pub open spec fn endpoint_ok(url: UrlView, class: EndpointClass) -> bool {
    match class {
        EndpointClass::PublicHttps => url.scheme == "https"@ && url.host is Some
            && text::same_ignoring_case(url.host->0, "console.sakana.ai"@) && url.port == Some(
            443u16,
        ),
        EndpointClass::LoopbackDevelopment => true,
        _ => false,
    }
}

/// Whether a URL's host is `name`, without regard to case.
pub fn host_is(url: &UrlParts, name: &str) -> (r: bool)
    ensures
        r == (url.host is Some && text::same_ignoring_case(url.value().host->0, name@)),
{
    match &url.host {
        Some(host) => {
            let a = text::chars_of(host.as_str());
            let b = text::chars_of(name);
            text::eq_ignore_case(a.as_slice(), b.as_slice())
        },
        None => false,
    }
}

/// Checks that a billing endpoint may be used under a class.
pub fn validate_endpoint_class(url: &UrlParts, class: EndpointClass) -> (r: Result<
    (),
    ClassifiedError,
>)
    ensures
        match r {
            Ok(_) => endpoint_ok(url.value(), class),
            Err(e) => !endpoint_ok(url.value(), class) && e == error::plain(ErrorKind::Api),
        },
{
    match class {
        EndpointClass::PublicHttps => {
            let secure = match url.port {
                Some(port) => port == 443,
                None => false,
            };
            if text::same_text(url.scheme.as_str(), "https") && host_is(url, "console.sakana.ai")
                && secure {
                Ok(())
            } else {
                Err(ClassifiedError::new(ErrorKind::Api))
            }
        },
        EndpointClass::LoopbackDevelopment => Ok(()),
        _ => Err(ClassifiedError::new(ErrorKind::Api)),
    }
}

/// Classifies a rejected capture.
pub fn classify_capture_error(e: ManualCaptureError) -> (r: ClassifiedError)
    ensures
        r == error::plain(
            match e {
                ManualCaptureError::MissingSecret
                | ManualCaptureError::InvalidSecret
                | ManualCaptureError::DisallowedHeader => ErrorKind::MissingCredential,
                ManualCaptureError::InvalidPolicy => ErrorKind::Api,
                _ => ErrorKind::Parse,
            },
        ),
{
    match e {
        ManualCaptureError::MissingSecret
        | ManualCaptureError::InvalidSecret
        | ManualCaptureError::DisallowedHeader => ClassifiedError::new(
            ErrorKind::MissingCredential,
        ),
        ManualCaptureError::InvalidPolicy => ClassifiedError::new(ErrorKind::Api),
        _ => ClassifiedError::new(ErrorKind::Parse),
    }
}

/// Classifies a failed request for the required page: a redirect away from it
/// or a refusal is an expired session.
pub fn classify_required_transport(e: &TransportError) -> (r: ClassifiedError)
    ensures
        r == (match *e {
            TransportError::AuthenticationExpired
            | TransportError::PermissionDenied
            | TransportError::Endpoint
            | TransportError::TooManyRedirects => error::plain(ErrorKind::AuthenticationExpired),
            other => other.as_class(other.class()),
        }),
{
    match e {
        TransportError::AuthenticationExpired
        | TransportError::PermissionDenied
        | TransportError::Endpoint
        | TransportError::TooManyRedirects => ClassifiedError::new(
            ErrorKind::AuthenticationExpired,
        ),
        other => other.classified(),
    }
}

/// Adapter bound to one manual-cookie account.
pub struct SakanaProvider {
    pub endpoint: String,
    pub pay_as_you_go_endpoint: String,
    pub cookie: String,
}

/// Whether the adapter can be created from an origin and a cookie.
pub open spec fn adapter_ok(
    origin: UrlView,
    class: EndpointClass,
    allowed: bool,
    cookie: Seq<char>,
) -> bool {
    &&& urls::bare(origin)
    &&& endpoint_ok(origin, class)
    &&& allowed
    &&& transport::secret_ok(cookie)
    &&& urls::url_at_path(origin.href, "/billing"@) is Some
}

/// Why a captured cookie opens no account.
pub open spec fn capture_failure(
    provider: ProviderId,
    cookie: Option<String>,
    origin: UrlView,
    class: EndpointClass,
    allowed: bool,
) -> Option<ErrorKind> {
    if provider != ProviderId::Sakana {
        Some(ErrorKind::Api)
    } else {
        match cookie {
            None => Some(ErrorKind::MissingCredential),
            Some(header) => if adapter_ok(origin, class, allowed, header@) {
                None
            } else {
                Some(ErrorKind::Api)
            },
        }
    }
}

impl SakanaProvider {
    /// Whether this is the adapter of a captured cookie below an origin.
    pub open spec fn of_capture(self, cookie: Option<String>, origin: UrlView) -> bool {
        &&& urls::url_at_path(origin.href, "/billing"@) == Some(self.endpoint@)
        &&& self.pay_as_you_go_endpoint@ == self.endpoint@ + "?tab=payAsYouGo"@
        &&& cookie matches Some(header)
        &&& self.cookie@ == header@
    }

    /// Creates the production adapter from a captured cookie. `allowed` is the
    /// verdict of the endpoint policy on the origin.
    pub fn new_manual(provider: ProviderId, cookie: Option<String>, allowed: bool) -> (r: Result<
        SakanaProvider,
        ClassifiedError,
    >)
        ensures
            match urls::parsed_url("https://console.sakana.ai"@) {
                None => r == Err::<SakanaProvider, _>(error::plain(ErrorKind::Api)),
                Some(origin) => {
                    let failure = capture_failure(
                        provider,
                        cookie,
                        origin,
                        EndpointClass::PublicHttps,
                        allowed,
                    );
                    match r {
                        Ok(adapter) => failure is None && adapter.of_capture(cookie, origin),
                        Err(e) => failure is Some && e == error::plain(failure->0),
                    }
                },
            },
    {
        match urls::parse("https://console.sakana.ai") {
            Some(origin) => SakanaProvider::from_manual_capture_at(
                provider,
                cookie,
                &origin,
                EndpointClass::PublicHttps,
                allowed,
            ),
            None => Err(ClassifiedError::new(ErrorKind::Api)),
        }
    }

    /// Creates the adapter below an origin from a captured cookie. `allowed` is
    /// the verdict of the endpoint policy on the origin.
    pub fn from_manual_capture_at(
        provider: ProviderId,
        cookie: Option<String>,
        origin: &UrlParts,
        class: EndpointClass,
        allowed: bool,
    ) -> (r: Result<SakanaProvider, ClassifiedError>)
        ensures
            match r {
                Ok(adapter) => capture_failure(provider, cookie, origin.value(), class, allowed)
                    is None && adapter.of_capture(cookie, origin.value()),
                Err(e) => capture_failure(provider, cookie, origin.value(), class, allowed)
                    is Some && e == error::plain(
                    capture_failure(provider, cookie, origin.value(), class, allowed)->0,
                ),
            },
    {
        if let Err(e) = validate_scope(provider) {
            return Err(e);
        }
        let cookie = match cookie {
            Some(cookie) => cookie,
            None => return Err(ClassifiedError::new(ErrorKind::MissingCredential)),
        };
        if !urls::is_bare_origin(origin) {
            return Err(ClassifiedError::new(ErrorKind::Api));
        }
        if let Err(e) = validate_endpoint_class(origin, class) {
            return Err(e);
        }
        if !allowed {
            return Err(ClassifiedError::new(ErrorKind::Api));
        }
        if let Err(e) = Authentication::cookie(cookie.clone()) {
            return Err(e.classified());
        }
        let endpoint = match urls::with_path(origin.href.as_str(), "/billing") {
            Some(endpoint) => endpoint,
            None => return Err(ClassifiedError::new(ErrorKind::Api)),
        };
        let mut pay_as_you_go_endpoint = endpoint.clone();
        pay_as_you_go_endpoint.append("?tab=payAsYouGo");
        Ok(SakanaProvider { endpoint, pay_as_you_go_endpoint, cookie })
    }

    /// The request for one of the two pages.
    pub fn request(&self, endpoint: &str) -> (r: Result<HttpRequest, ClassifiedError>)
        ensures
            match r {
                Ok(q) => transport::secret_ok(self.cookie@) && q.method == Method::Get && q.url@
                    == endpoint@ && q.accept == Some(RequestAccept::Html) && q.content_type is None
                    && q.body@.len() == 0 && q.public_headers.deep_view() == seq![
                    ("accept-language"@, "en-US,en;q=0.9"@),
                ] && q.sensitive_headers@.len() == 0 && q.accepted_statuses@.len() == 0
                    && q.response_headers@.len() == 0 && q.authentication is Some
                    && q.authentication->0.header_view() == ("cookie"@, self.cookie@) && q.wf(),
                Err(e) => !transport::secret_ok(self.cookie@) && e == error::plain(ErrorKind::Api),
            },
    {
        proof {
            transport::reveal_reserved();
            reveal_strlit("accept-language");
            assert(text::lower("accept-language"@) =~= "accept-language"@);
            reveal_strlit("en-US,en;q=0.9");
            vstd::utf8::is_ascii_chars_encode_utf8("en-US,en;q=0.9"@);
        }
        let authentication = match Authentication::cookie(self.cookie.clone()) {
            Ok(authentication) => authentication,
            Err(e) => return Err(e.classified()),
        };
        let base = HttpRequest::get(endpoint.to_owned()).accept(RequestAccept::Html);
        assert(base.public_headers.deep_view() =~= seq![]);
        assert(base.sensitive_headers.deep_view() =~= seq![]);
        match base.public_header("accept-language", "en-US,en;q=0.9") {
            Ok(q) => {
                assert(q.public_headers.deep_view() =~= seq![
                    ("accept-language"@, "en-US,en;q=0.9"@),
                ]);
                Ok(q.authentication(authentication))
            },
            Err(e) => Err(e.classified()),
        }
    }
}

/// The pay-as-you-go state of an optional response; an unsuccessful or
/// unreadable one is left out.
pub fn optional_pay_as_you_go(response: Option<(u16, Vec<u8>)>) -> (r: Option<SakanaPayAsYouGo>)
    ensures
        match response {
            Some((status, body)) => match r {
                Some(pay) => status == 200 && pay_of_body(body@) == Ok::<_, ErrorKind>(
                    Some(pay.value()),
                ) && pay.wf(),
                None => status != 200 || !(pay_of_body(body@) matches Ok(Some(_))),
            },
            None => r is None,
        },
{
    match response {
        Some((status, body)) => {
            if status != 200 {
                return None;
            }
            match parse_pay_as_you_go_html(body.as_slice()) {
                Ok(pay) => pay,
                Err(_) => None,
            }
        },
        None => None,
    }
}

/// The window of a quota that a page shows. Its percentage is left open.
pub open spec fn page_window(quota: Option<QuotaText>) -> Option<WindowView> {
    match quota {
        Some(q) => Some(
            WindowView {
                used: None,
                minutes: Some((q.seconds / 60) as i64),
                resets_at: q.resets_at,
                description: None,
            },
        ),
        None => None,
    }
}

fn read_window(quota: &Option<QuotaText>) -> (r: Option<RateWindow>)
    ensures
        usage::window_value(r) == page_window(*quota),
{
    match quota {
        Some(q) => Some(
            RateWindow {
                used: None,
                minutes: Some((q.seconds / 60) as i64),
                resets_at: q.resets_at,
                description: None,
            },
        ),
        None => None,
    }
}

/// The reading of a billing page.
pub open spec fn billing_sample_of(page: BillingPage, fetched_at: Timestamp) -> SampleView {
    SampleView {
        primary: page_window(page.five_hour),
        secondary: page_window(page.weekly),
        login_method: page.login_method.deep_view(),
        sections: if page.rows@.len() == 0 {
            seq![]
        } else {
            seq![
                SectionView {
                    title: "Extra usage"@,
                    rows: usage::row_values(page.rows@),
                    chart: None,
                },
            ]
        },
        ..usage::empty_sample(ProviderId::Sakana, fetched_at, "sakana"@, "manual_cookie"@)
    }
}

/// The reading of a billing page.
pub fn billing_sample(page: BillingPage, fetched_at: Timestamp) -> (r: UsageSample)
    ensures
        r.value() == billing_sample_of(page, fetched_at),
{
    let mut sample = UsageSample::empty(ProviderId::Sakana, fetched_at, "sakana", "manual_cookie");
    sample.primary = read_window(&page.five_hour);
    sample.secondary = read_window(&page.weekly);
    sample.login_method = page.login_method;
    if page.rows.len() > 0 {
        sample.sections = usage::one_section("Extra usage", page.rows, None);
    }
    sample
}

/// Ceilings of this adapter's transport.
pub fn transport_config() -> (r: Result<TransportConfig, ClassifiedError>)
    ensures
        r == Ok::<TransportConfig, ClassifiedError>(
            transport::ceilings(5, 15, MAX_RESPONSE_BYTES, 0, retry::no_retry()),
        ),
        r->Ok_0.valid(),
{
    transport::bounded(5, 15, MAX_RESPONSE_BYTES, 0, RetryPolicy::none())
}

/// A shown window is as long as its page tells and resets when it tells.
pub proof fn law_page_windows_are_as_told(page: BillingPage, fetched_at: Timestamp)
    ensures
        ({
            let sample = billing_sample_of(page, fetched_at);
            &&& sample.primary is Some <==> page.five_hour is Some
            &&& sample.secondary is Some <==> page.weekly is Some
            &&& page.five_hour matches Some(quota) ==> sample.primary->0.resets_at
                == quota.resets_at && (quota.seconds == 5 * 3600 ==> sample.primary->0.minutes
                == Some((5 * 60) as i64))
            &&& page.weekly matches Some(quota) ==> sample.secondary->0.resets_at == quota.resets_at
                && (quota.seconds == 7 * 24 * 3600 ==> sample.secondary->0.minutes == Some(
                (7 * 24 * 60) as i64,
            ))
        }),
{
}

/// Midnight and noon are the twelfth hours of the clock, and every other hour of the
/// afternoon lies twelve behind that of the morning.
pub proof fn law_clocks_have_two_halves(hour: u8)
    requires
        1 <= hour <= 12,
    ensures
        day_hour(12, "AM"@) == Some(0int),
        day_hour(hour, "AM"@) is Some && day_hour(hour, "PM"@) is Some,
        day_hour(hour, "AM"@)->0 == hour % 12,
        day_hour(hour, "PM"@)->0 == day_hour(hour, "AM"@)->0 + 12,
{
    reveal_strlit("AM");
    reveal_strlit("PM");
    assert("AM"@[0] != "PM"@[0]);
}

} // verus!
