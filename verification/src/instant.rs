//! Instants as whole nanoseconds since the Unix epoch.

use vstd::prelude::*;

verus! {

/// An instant, in nanoseconds since the Unix epoch.
#[derive(Debug, Clone, Copy, PartialEq, Eq, Structural)]
pub struct Timestamp {
    pub nanos: i128,
}

/// A day of the calendar and a time of that day, both in UTC.
#[derive(Debug, Clone, Copy, PartialEq, Eq, Structural)]
pub struct Civil {
    pub year: i32,
    pub month: u8,
    pub day: u8,
    pub hour: u8,
    pub minute: u8,
    pub second: u8,
    /// Days since Monday.
    pub weekday: u8,
}

/// A span of time: whole seconds and the nanoseconds beyond them.
#[derive(Debug, Clone, Copy, PartialEq, Eq, Structural)]
pub struct Duration {
    pub seconds: u64,
    pub nanos: u32,
}

impl Duration {
    /// Whether `self` is shorter than `other`.
    pub open spec fn shorter(self, other: Duration) -> bool {
        self.seconds < other.seconds || (self.seconds == other.seconds && self.nanos < other.nanos)
    }

    /// The shorter of two spans.
    pub open spec fn shortest(self, other: Duration) -> Duration {
        if other.shorter(self) {
            other
        } else {
            self
        }
    }

    pub fn from_secs(seconds: u64) -> (r: Duration)
        ensures
            r == (Duration { seconds, nanos: 0 }),
    {
        Duration { seconds, nanos: 0 }
    }

    pub fn from_millis(millis: u64) -> (r: Duration)
        ensures
            r.seconds == millis / 1000,
            r.nanos == (millis % 1000) * 1_000_000,
    {
        Duration { seconds: millis / 1000, nanos: ((millis % 1000) as u32) * 1_000_000 }
    }

    pub fn is_zero(self) -> (r: bool)
        ensures
            r == (self.seconds == 0 && self.nanos == 0),
    {
        self.seconds == 0 && self.nanos == 0
    }

    pub fn is_shorter(self, other: Duration) -> (r: bool)
        ensures
            r == self.shorter(other),
    {
        self.seconds < other.seconds || (self.seconds == other.seconds && self.nanos < other.nanos)
    }

    /// The shorter of two spans.
    pub fn at_most(self, other: Duration) -> (r: Duration)
        ensures
            r == self.shortest(other),
    {
        if other.is_shorter(self) {
            other
        } else {
            self
        }
    }
}

pub const NANOS_PER_SECOND: i128 = 1_000_000_000;

/// First second of the year -9999.
pub const MIN_SECONDS: i128 = -377_705_116_800;

/// Last second of the year 9999.
pub const MAX_SECONDS: i128 = 253_402_300_799;

impl Timestamp {
    /// Whole seconds since the epoch, rounded down.
    pub open spec fn seconds(self) -> int {
        self.nanos as int / NANOS_PER_SECOND as int
    }

    /// Whether the instant lies in the calendar's years -9999 to 9999.
    pub open spec fn in_calendar(self) -> bool {
        MIN_SECONDS <= self.seconds() <= MAX_SECONDS
    }

    /// Whole seconds since the epoch, rounded down.
    pub fn unix_seconds(self) -> (r: i128)
        ensures
            r == self.seconds(),
    {
        let quotient: i128 = self.nanos / NANOS_PER_SECOND;
        if self.nanos % NANOS_PER_SECOND < 0 {
            quotient - 1
        } else {
            quotient
        }
    }

    /// The instant of a number of milliseconds since the epoch, where it lies in the
    /// calendar.
    pub fn from_millis(millis: i64) -> (r: Option<Timestamp>)
        ensures
            r == millis_instant(millis),
            r is Some ==> r->0.in_calendar(),
    {
        Timestamp::from_nanos(millis as i128 * 1_000_000)
    }

    /// The instant where it lies in the calendar.
    pub fn from_nanos(nanos: i128) -> (r: Option<Timestamp>)
        ensures
            r == calendar_nanos(nanos as int),
            r is Some ==> r->0.in_calendar(),
    {
        let instant = Timestamp { nanos };
        let seconds: i128 = instant.unix_seconds();
        if MIN_SECONDS <= seconds && seconds <= MAX_SECONDS {
            Some(instant)
        } else {
            None
        }
    }
}

/// The instant `nanos` after the epoch, where the calendar holds it.
pub open spec fn calendar_nanos(nanos: int) -> Option<Timestamp> {
    if MIN_SECONDS <= nanos / (NANOS_PER_SECOND as int) <= MAX_SECONDS {
        Some(Timestamp { nanos: nanos as i128 })
    } else {
        None
    }
}

/// The instant of a number of milliseconds since the epoch, where it lies in the
/// calendar.
pub open spec fn millis_instant(millis: i64) -> Option<Timestamp> {
    calendar_nanos(millis * 1_000_000)
}

/// The second of an HTTP date, counted from the epoch; `None` for other texts.
pub uninterp spec fn http_date(source: Seq<char>) -> Option<u64>;

/// `httpdate::parse_http_date`. The date, in seconds since the epoch, is named
/// `http_date`.
#[verifier::external_body]
pub(crate) fn parse_http_date(source: &str) -> (r: Option<u64>)
    ensures
        r == http_date(source@),
{
    let at = httpdate::parse_http_date(source).ok()?;
    at.duration_since(std::time::UNIX_EPOCH).ok().map(|span| span.as_secs())
}

/// What the RFC 3339 parser makes of a text; `None` where it rejects it.
pub uninterp spec fn rfc3339(source: Seq<char>) -> Option<Timestamp>;

/// `time::OffsetDateTime::parse` with the RFC 3339 format. The result is named
/// `rfc3339`. With an offset from UTC the instant may lie outside the calendar.
#[verifier::external_body]
pub(crate) fn parse_rfc3339(source: &str) -> (r: Option<Timestamp>)
    ensures
        r == rfc3339(source@),
{
    let format = &time::format_description::well_known::Rfc3339;
    time::OffsetDateTime::parse(source, format).ok().map(|at| Timestamp {
        nanos: at.unix_timestamp_nanos(),
    })
}

/// The RFC 3339 text of an instant in UTC; `None` where the format has none.
pub uninterp spec fn rfc3339_text(at: Timestamp) -> Option<Seq<char>>;

/// `time::OffsetDateTime::format` with the RFC 3339 format, in UTC. The result
/// is named `rfc3339_text`.
#[verifier::external_body]
pub(crate) fn to_rfc3339(at: Timestamp) -> (r: Option<String>)
    requires
        at.in_calendar(),
    ensures
        r.deep_view() == rfc3339_text(at),
{
    let format = &time::format_description::well_known::Rfc3339;
    time::OffsetDateTime::from_unix_timestamp_nanos(at.nanos).unwrap().format(format).ok()
}

/// The instant itself, where the calendar holds it.
pub open spec fn in_calendar_only(at: Timestamp) -> Option<Timestamp> {
    if at.in_calendar() {
        Some(at)
    } else {
        None
    }
}

/// The calendar instant that an RFC 3339 text denotes.
pub open spec fn instant_of_text(source: Seq<char>) -> Option<Timestamp> {
    match rfc3339(source) {
        Some(at) => in_calendar_only(at),
        None => None,
    }
}

impl Timestamp {
    /// The instant itself, where the calendar holds it.
    pub fn within_calendar(self) -> (r: Option<Timestamp>)
        ensures
            r == in_calendar_only(self),
            r is Some ==> r->0.in_calendar(),
    {
        let seconds: i128 = self.unix_seconds();
        if MIN_SECONDS <= seconds && seconds <= MAX_SECONDS {
            Some(self)
        } else {
            None
        }
    }

    /// The calendar instant that an RFC 3339 text denotes.
    pub fn parse(source: &str) -> (r: Option<Timestamp>)
        ensures
            r == instant_of_text(source@),
            r is Some ==> r->0.in_calendar(),
    {
        match parse_rfc3339(source) {
            Some(at) => at.within_calendar(),
            None => None,
        }
    }
}

/// What the parser of a date and time without offset makes of a text under a
/// format description, read as UTC.
pub uninterp spec fn date_time(source: Seq<char>, pattern: Seq<char>) -> Option<Timestamp>;

/// `time::PrimitiveDateTime::parse` under a format description. The result,
/// taken as UTC, is named `date_time`.
#[verifier::external_body]
pub(crate) fn parse_date_time(source: &str, pattern: &str) -> (r: Option<Timestamp>)
    ensures
        r == date_time(source@, pattern@),
        r is Some ==> r->0.in_calendar(),
{
    let format = time::format_description::parse_borrowed::<3>(pattern).ok()?;
    time::PrimitiveDateTime::parse(source, &format).ok().map(|at| Timestamp {
        nanos: at.assume_utc().unix_timestamp_nanos(),
    })
}

/// What the date parser makes of a text under a format description, as the
/// midnight that starts the day in UTC.
pub uninterp spec fn date_midnight(source: Seq<char>, pattern: Seq<char>) -> Option<Timestamp>;

/// `time::Date::parse` under a format description. The midnight that starts the
/// day, in UTC, is named `date_midnight`.
#[verifier::external_body]
pub(crate) fn parse_date(source: &str, pattern: &str) -> (r: Option<Timestamp>)
    ensures
        r == date_midnight(source@, pattern@),
        r is Some ==> r->0.in_calendar(),
{
    let format = time::format_description::parse_borrowed::<3>(pattern).ok()?;
    time::Date::parse(source, &format).ok().map(|day| Timestamp {
        nanos: day.midnight().assume_utc().unix_timestamp_nanos(),
    })
}

/// Whether a year has a leap day.
pub open spec fn leap_year(year: int) -> bool {
    year % 4 == 0 && (year % 100 != 0 || year % 400 == 0)
}

/// How many days a month has.
pub open spec fn month_length(year: int, month: int) -> int {
    if month == 2 {
        if leap_year(year) {
            29
        } else {
            28
        }
    } else if month == 4 || month == 6 || month == 9 || month == 11 {
        30
    } else {
        31
    }
}

/// How many days of a year lie before a month.
pub open spec fn days_before_month(year: int, month: int) -> int
    decreases month,
{
    if month <= 1 {
        0
    } else {
        days_before_month(year, month - 1) + month_length(year, month - 1)
    }
}

/// How many days lie between the start of the epoch and that of a year: 365 for
/// each year, and one for each leap day.
pub open spec fn days_before_year(year: int) -> int {
    365 * (year - 1970) + ((year + 3) / 4 - (year + 99) / 100 + (year + 399) / 400) - 478
}

/// The second since the epoch that starts a day of the Gregorian calendar; `None`
/// where there is no such day or its year has more than four digits.
pub open spec fn midnight_of(year: i32, month: u8, day: u8) -> Option<i64> {
    if -9999 <= year <= 9999 && 1 <= month <= 12 && 1 <= day <= month_length(
        year as int,
        month as int,
    ) {
        Some(
            (86_400 * (days_before_year(year as int) + days_before_month(year as int, month as int)
                + day - 1)) as i64,
        )
    } else {
        None
    }
}

/// `time::Date::from_calendar_date` and the midnight that starts the day, in UTC.
/// The whole day lies in the calendar.
#[verifier::external_body]
pub(crate) fn midnight(year: i32, month: u8, day: u8) -> (r: Option<i64>)
    ensures
        r == midnight_of(year, month, day),
        r is Some ==> MIN_SECONDS <= r->0 && r->0 + 86_399 <= MAX_SECONDS,
{
    let month = time::Month::try_from(month).ok()?;
    let date = time::Date::from_calendar_date(year, month, day).ok()?;
    Some(date.midnight().assume_utc().unix_timestamp())
}

/// Whether a calendar reading is that of an instant: the day that the instant lies
/// in, the time since its midnight, and the days since its Monday.
pub open spec fn reads_as(c: Civil, at: Timestamp) -> bool {
    &&& midnight_of(c.year, c.month, c.day) == Some((86_400 * day_index(at)) as i64)
    &&& c.hour == at.seconds() % 86_400 / 3600
    &&& c.minute == at.seconds() % 3600 / 60
    &&& c.second == at.seconds() % 60
    &&& c.weekday == (day_index(at) + 3) % 7
}

/// The calendar reading of an instant.
pub open spec fn civil(at: Timestamp) -> Civil {
    choose|c: Civil| reads_as(c, at)
}

proof fn lemma_fourth_years(year: int)
    ensures
        (year + 4) / 4 == (year + 3) / 4 + (if year % 4 == 0 {
            1int
        } else {
            0
        }),
{
}

proof fn lemma_hundredth_years(year: int)
    ensures
        (year + 100) / 100 == (year + 99) / 100 + (if year % 100 == 0 {
            1int
        } else {
            0
        }),
        year % 100 == 0 ==> year % 4 == 0,
{
}

proof fn lemma_four_hundredth_years(year: int)
    ensures
        (year + 400) / 400 == (year + 399) / 400 + (if year % 400 == 0 {
            1int
        } else {
            0
        }),
        year % 400 == 0 ==> year % 100 == 0,
{
}

proof fn lemma_year_length(year: int)
    ensures
        days_before_year(year + 1) - days_before_year(year) == (if leap_year(year) {
            366int
        } else {
            365
        }),
{
    lemma_fourth_years(year);
    lemma_hundredth_years(year);
    lemma_four_hundredth_years(year);
}

proof fn lemma_years_ascend(year: int, later: int)
    requires
        year <= later,
    ensures
        days_before_year(year) <= days_before_year(later),
    decreases later - year,
{
    if year < later {
        lemma_years_ascend(year, later - 1);
        lemma_year_length(later - 1);
    }
}

proof fn lemma_month_starts(year: int, month: int)
    requires
        1 <= month <= 12,
    ensures
        0 <= days_before_month(year, month),
        days_before_month(year, month) + month_length(year, month) == days_before_month(
            year,
            month + 1,
        ),
        days_before_month(year, month + 1) <= (if leap_year(year) {
            366int
        } else {
            365
        }),
{
    reveal_with_fuel(days_before_month, 14);
}

proof fn lemma_months_ascend(year: int, month: int, later: int)
    requires
        1 <= month <= later <= 13,
    ensures
        days_before_month(year, month) <= days_before_month(year, later),
    decreases later - month,
{
    if month < later {
        lemma_months_ascend(year, month, later - 1);
        lemma_month_starts(year, later - 1);
    }
}

/// A day of the calendar starts at its own second only.
pub proof fn law_days_are_distinct(a: Civil, b: Civil)
    requires
        midnight_of(a.year, a.month, a.day) is Some,
        midnight_of(a.year, a.month, a.day) == midnight_of(b.year, b.month, b.day),
    ensures
        a.year == b.year,
        a.month == b.month,
        a.day == b.day,
{
    lemma_midnight_bounds(a);
    lemma_midnight_bounds(b);
    let (y, z) = (a.year as int, b.year as int);
    let (m, n) = (a.month as int, b.month as int);
    lemma_month_starts(y, m);
    lemma_month_starts(z, n);
    lemma_year_length(y);
    lemma_year_length(z);
    if y < z {
        lemma_years_ascend(y + 1, z);
    } else if z < y {
        lemma_years_ascend(z + 1, y);
    } else if m < n {
        lemma_months_ascend(y, m + 1, n);
    } else if n < m {
        lemma_months_ascend(y, n + 1, m);
    }
}

/// The day of a calendar reading, counted from the epoch.
pub open spec fn day_number(c: Civil) -> int {
    days_before_year(c.year as int) + days_before_month(c.year as int, c.month as int) + c.day - 1
}

proof fn lemma_midnight_bounds(c: Civil)
    requires
        midnight_of(c.year, c.month, c.day) is Some,
    ensures
        midnight_of(c.year, c.month, c.day)->0 == 86_400 * day_number(c),
{
    lemma_month_starts(c.year as int, c.month as int);
}

/// The midnight of a day is a whole number of days from the epoch, within the
/// calendar.
pub proof fn lemma_midnight_is_a_day(c: Civil)
    requires
        midnight_of(c.year, c.month, c.day) is Some,
    ensures
        midnight_of(c.year, c.month, c.day)->0 == 86_400 * day_number(c),
        -377_705_116_800 <= 86_400 * day_number(c) <= 253_402_214_400,
{
    lemma_midnight_bounds(c);
    let year = c.year as int;
    lemma_month_starts(year, c.month as int);
    lemma_year_length(year);
    lemma_years_ascend(-9999, year);
    lemma_years_ascend(year + 1, 10_000);
    if c.month < 12 {
        lemma_months_ascend(year, c.month as int + 1, 13);
    }
    lemma_month_starts(year, 12);
}

/// The calendar fields of `time::OffsetDateTime` at an instant in UTC.
#[verifier::external_body]
fn read_civil(at: Timestamp) -> (r: Civil)
    requires
        at.in_calendar(),
    ensures
        reads_as(r, at),
{
    let value = time::OffsetDateTime::from_unix_timestamp_nanos(at.nanos).unwrap();
    Civil {
        year: value.year(),
        month: u8::from(value.month()),
        day: value.day(),
        hour: value.hour(),
        minute: value.minute(),
        second: value.second(),
        weekday: value.weekday().number_days_from_monday(),
    }
}

/// The calendar reading of an instant.
pub(crate) fn to_civil(at: Timestamp) -> (r: Civil)
    requires
        at.in_calendar(),
    ensures
        r == civil(at),
        reads_as(r, at),
{
    let r = read_civil(at);
    proof {
        let other = civil(at);
        assert(reads_as(other, at));
        law_days_are_distinct(r, other);
    }
    r
}

/// A year as text: at least four characters, a sign among them.
pub open spec fn year_text(year: i32) -> Seq<char> {
    if year < 0 {
        "-"@ + crate::text::padded((-(year as int)) as nat, 3)
    } else {
        crate::text::padded(year as nat, 4)
    }
}

/// The day of a calendar reading, as `year-month-day`.
pub open spec fn day_text(c: Civil) -> Seq<char> {
    year_text(c.year) + "-"@ + crate::text::padded(c.month as nat, 2) + "-"@ + crate::text::padded(
        c.day as nat,
        2,
    )
}

/// The day of a calendar reading, as `year-month-day`.
pub fn day_of(c: Civil) -> (r: String)
    ensures
        r@ == day_text(c),
{
    let mut r = String::new();
    if c.year < 0 {
        r.append("-");
        let size: u64 = (-(c.year as i64)) as u64;
        crate::text::push_padded(&mut r, size, 3);
    } else {
        crate::text::push_padded(&mut r, c.year as u64, 4);
    }
    r.append("-");
    crate::text::push_padded(&mut r, c.month as u64, 2);
    r.append("-");
    crate::text::push_padded(&mut r, c.day as u64, 2);
    assert(r@ =~= day_text(c));
    r
}

/// The day and the time of day of a calendar reading.
pub open spec fn moment_text(c: Civil) -> Seq<char> {
    day_text(c) + " "@ + crate::text::padded(c.hour as nat, 2) + ":"@ + crate::text::padded(
        c.minute as nat,
        2,
    ) + ":"@ + crate::text::padded(c.second as nat, 2)
}

/// The day and the time of day of a calendar reading.
pub fn moment_of(c: Civil) -> (r: String)
    ensures
        r@ == moment_text(c),
{
    let mut r = day_of(c);
    r.append(" ");
    crate::text::push_padded(&mut r, c.hour as u64, 2);
    r.append(":");
    crate::text::push_padded(&mut r, c.minute as u64, 2);
    r.append(":");
    crate::text::push_padded(&mut r, c.second as u64, 2);
    r
}

/// A calendar date as `year-month-day`, with four digits of the year behind its
/// sign.
pub open spec fn date_text(c: Civil) -> Seq<char> {
    (if c.year < 0 {
        "-"@ + crate::text::padded((-(c.year as int)) as nat, 4)
    } else {
        crate::text::padded(c.year as nat, 4)
    }) + "-"@ + crate::text::padded(c.month as nat, 2) + "-"@ + crate::text::padded(
        c.day as nat,
        2,
    )
}

/// A calendar date as `year-month-day`.
pub fn date_of(c: Civil) -> (r: String)
    ensures
        r@ == date_text(c),
{
    let mut r = String::new();
    if c.year < 0 {
        r.append("-");
        let size: u64 = (-(c.year as i64)) as u64;
        crate::text::push_padded(&mut r, size, 4);
    } else {
        crate::text::push_padded(&mut r, c.year as u64, 4);
    }
    r.append("-");
    crate::text::push_padded(&mut r, c.month as u64, 2);
    r.append("-");
    crate::text::push_padded(&mut r, c.day as u64, 2);
    assert(r@ =~= date_text(c));
    r
}

/// Days since the epoch, rounded down.
pub open spec fn day_index(at: Timestamp) -> int {
    at.seconds() / 86_400
}

impl Timestamp {
    /// Days since the epoch, rounded down.
    pub fn day(self) -> (r: i128)
        ensures
            r == day_index(self),
    {
        let seconds: i128 = self.unix_seconds();
        let quotient: i128 = seconds / 86_400;
        if seconds % 86_400 < 0 {
            quotient - 1
        } else {
            quotient
        }
    }
}

/// The midnight that starts a day.
pub open spec fn day_start(day: int) -> Timestamp {
    Timestamp { nanos: (day * 86_400_000_000_000) as i128 }
}

/// A year has 365 days, and 366 where its number is divided by four, unless it is
/// divided by a hundred and not by four hundred. The next year starts behind its
/// December, and each month behind the one before it.
pub proof fn law_years_follow_each_other(year: int, month: int)
    ensures
        days_before_year(1970) == 0,
        days_before_year(year + 1) - days_before_year(year) == (if year % 400 == 0 || (year % 4 == 0
            && year % 100 != 0) {
            366int
        } else {
            365
        }),
        days_before_year(year) + days_before_month(year, 12) + 31 == days_before_year(year + 1),
        days_before_month(year, 1) == 0,
        1 <= month <= 12 && month != 2 ==> month_length(year, month) == 30 + (if month <= 7 {
            month % 2
        } else {
            (month + 1) % 2
        }),
        1 <= month <= 11 ==> days_before_month(year, month + 1) - days_before_month(year, month)
            == month_length(year, month),
{
    reveal_with_fuel(days_before_month, 13);
    lemma_steps(year, 4);
    lemma_steps(year, 100);
    lemma_steps(year, 400);
    assert(year % 100 == 0 ==> year % 4 == 0);
    assert(year % 400 == 0 ==> year % 100 == 0);
}

proof fn lemma_steps(year: int, length: int)
    requires
        length == 4 || length == 100 || length == 400,
    ensures
        (year + 1 + (length - 1)) / length - (year + (length - 1)) / length == (if year % length
            == 0 {
            1int
        } else {
            0
        }),
{
}

} // verus!
