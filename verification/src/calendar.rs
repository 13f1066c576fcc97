//! Instants, spans, dates and times of day, and the calendar arithmetic of `chrono` on them.
use chrono::{Datelike, Timelike};
use vstd::prelude::*;

use crate::text;

verus! {

/// Nanoseconds in a second.
pub const NANOS_PER_SEC: u32 = 1_000_000_000;

/// The first second that `chrono` can represent: 1 January of the year -262143.
pub const MIN_SECS: i64 = -8_334_601_228_800;

/// The last second that `chrono` can represent: 31 December of the year 262142.
pub const MAX_SECS: i64 = 8_210_266_876_799;

/// A span of time that is not negative.
#[derive(Clone, Copy, Debug, PartialEq, Eq, Structural)]
pub struct TimeSpan {
    pub secs: u64,
    pub nanos: u32,
}

impl TimeSpan {
    /// The nanoseconds are a part of a second.
    pub open spec fn wf(self) -> bool {
        self.nanos < NANOS_PER_SEC
    }

    /// The span in nanoseconds.
    pub open spec fn total(self) -> int {
        self.secs * 1_000_000_000 + self.nanos
    }

    /// Whether the span is at most `i64::MAX` milliseconds.
    pub open spec fn fits_delta(self) -> bool {
        self.total() <= 9_223_372_036_854_775_807 * 1_000_000
    }

    /// A span of whole seconds.
    pub fn from_secs(secs: u64) -> (r: TimeSpan)
        ensures
            r.wf(),
            r.total() == secs * 1_000_000_000,
            r.nanos == 0,
            r.secs == secs,
    {
        TimeSpan { secs, nanos: 0 }
    }

    /// A span of whole milliseconds.
    pub fn from_millis(millis: u64) -> (r: TimeSpan)
        ensures
            r.wf(),
            r.total() == millis * 1_000_000,
    {
        TimeSpan { secs: millis / 1000, nanos: ((millis % 1000) as u32) * 1_000_000 }
    }

    /// Whether this span is at least as long as `other`.
    pub fn at_least(&self, other: &TimeSpan) -> (r: bool)
        requires
            self.wf(),
            other.wf(),
        ensures
            r == (self.total() >= other.total()),
    {
        self.secs > other.secs || (self.secs == other.secs && self.nanos >= other.nanos)
    }

    /// The shorter of two spans.
    pub fn shorter(self, other: TimeSpan) -> (r: TimeSpan)
        requires
            self.wf(),
            other.wf(),
        ensures
            r == if other.total() < self.total() {
                other
            } else {
                self
            },
    {
        if self.at_least(&other) {
            if other.at_least(&self) {
                self
            } else {
                other
            }
        } else {
            self
        }
    }
}

/// An instant, as the whole seconds since 1970-01-01 00:00:00 UTC and the nanoseconds past them.
/// The nanoseconds reach past a second in a leap second.
#[derive(Clone, Copy, Debug, PartialEq, Eq, Structural)]
pub struct UtcTime {
    pub secs: i64,
    pub nanos: u32,
}

impl UtcTime {
    /// Whether `chrono` can represent the instant.
    pub open spec fn wf(self) -> bool {
        &&& MIN_SECS <= self.secs <= MAX_SECS
        &&& self.nanos < 2_000_000_000
    }

    /// Whether the instant lies before `other`.
    pub open spec fn before(self, other: UtcTime) -> bool {
        self.secs < other.secs || (self.secs == other.secs && self.nanos < other.nanos)
    }

    /// The instant for a count of seconds and nanoseconds, if `chrono` can represent it.
    pub fn new(secs: i64, nanos: u32) -> (r: Option<UtcTime>)
        ensures
            r == if (UtcTime { secs, nanos }).wf() {
                Some(UtcTime { secs, nanos })
            } else {
                None
            },
    {
        if MIN_SECS <= secs && secs <= MAX_SECS && nanos < 2_000_000_000 {
            Some(UtcTime { secs, nanos })
        } else {
            None
        }
    }

    /// Whether the instant lies before `other`.
    pub fn is_before(&self, other: &UtcTime) -> (r: bool)
        ensures
            r == self.before(*other),
    {
        self.secs < other.secs || (self.secs == other.secs && self.nanos < other.nanos)
    }
}

/// The instant `span` after `time`, on a clock without leap seconds but for the one that `time`
/// itself may lie in: that one is a second of its own.
pub open spec fn later(time: UtcTime, span: TimeSpan) -> (int, int) {
    if time.nanos >= NANOS_PER_SEC && span.secs == 0 && time.nanos + span.nanos < 2_000_000_000 {
        (time.secs as int, time.nanos + span.nanos)
    } else {
        let nanos = time.nanos % NANOS_PER_SEC + span.nanos;
        if nanos < NANOS_PER_SEC {
            (time.secs + span.secs, nanos)
        } else {
            (time.secs + span.secs + 1, nanos - NANOS_PER_SEC)
        }
    }
}

/// The second of the day of an instant, in UTC.
pub open spec fn second_of_day(time: UtcTime) -> int {
    time.secs as int % 86_400
}

/// The nanoseconds from `from` to `to`, negative if `to` lies before. A leap second counts if it
/// lies strictly between the two times of day.
pub open spec fn nanos_between(from: UtcTime, to: UtcTime) -> int {
    let plain = (to.secs - from.secs) * 1_000_000_000 + (to.nanos - from.nanos);
    if second_of_day(to) > second_of_day(from) && from.nanos >= NANOS_PER_SEC {
        plain + 1_000_000_000
    } else if second_of_day(to) < second_of_day(from) && to.nanos >= NANOS_PER_SEC {
        plain - 1_000_000_000
    } else {
        plain
    }
}

/// Trusted: `chrono::TimeDelta::from_std` takes a span of at most `i64::MAX` milliseconds and
/// refuses a longer one.
#[verifier::external_body]
pub(crate) fn delta_takes(span: TimeSpan) -> (r: bool)
    requires
        span.wf(),
    ensures
        r == span.fits_delta(),
{
    chrono::TimeDelta::from_std(std::time::Duration::new(span.secs, span.nanos)).is_ok()
}

/// Trusted: `chrono::DateTime::checked_add_signed` gives the later instant, or nothing where the
/// result is past the last second that can be represented.
#[verifier::external_body]
pub(crate) fn instant_after(time: UtcTime, span: TimeSpan) -> (r: Option<UtcTime>)
    requires
        time.wf(),
        span.wf(),
        span.fits_delta(),
    ensures
        r == if later(time, span).0 <= MAX_SECS {
            Some(UtcTime { secs: later(time, span).0 as i64, nanos: later(time, span).1 as u32 })
        } else {
            None
        },
{
    let naive = chrono::DateTime::from_timestamp(time.secs, 0).unwrap().naive_utc();
    let start = naive.with_nanosecond(time.nanos).unwrap().and_utc();
    let delta = chrono::TimeDelta::new(span.secs as i64, span.nanos).unwrap();
    match start.checked_add_signed(delta) {
        Some(end) => Some(
            UtcTime { secs: end.timestamp(), nanos: end.timestamp_subsec_nanos() },
        ),
        None => None,
    }
}

/// Trusted: `chrono::DateTime::signed_duration_since` followed by `chrono::TimeDelta::to_std`
/// gives the span from one instant to another, or nothing where the span is negative.
#[verifier::external_body]
pub(crate) fn span_between(from: UtcTime, to: UtcTime) -> (r: Option<TimeSpan>)
    requires
        from.wf(),
        to.wf(),
    ensures
        match r {
            Some(span) => span.wf() && span.total() == nanos_between(from, to),
            None => nanos_between(from, to) < 0,
        },
{
    let naive = chrono::DateTime::from_timestamp(from.secs, 0).unwrap().naive_utc();
    let start = naive.with_nanosecond(from.nanos).unwrap().and_utc();
    let naive = chrono::DateTime::from_timestamp(to.secs, 0).unwrap().naive_utc();
    let end = naive.with_nanosecond(to.nanos).unwrap().and_utc();
    match end.signed_duration_since(start).to_std() {
        Ok(span) => Some(TimeSpan { secs: span.as_secs(), nanos: span.subsec_nanos() }),
        Err(_) => None,
    }
}

/// The time left until `target`: nothing once it has passed.
pub open spec fn remaining(now: UtcTime, target: UtcTime) -> int {
    if nanos_between(now, target) < 0 {
        0
    } else {
        nanos_between(now, target)
    }
}

/// The time left until `target`.
pub fn time_left(now: UtcTime, target: UtcTime) -> (r: TimeSpan)
    requires
        now.wf(),
        target.wf(),
    ensures
        r.wf(),
        r.total() == remaining(now, target),
{
    match span_between(now, target) {
        Some(span) => span,
        None => TimeSpan { secs: 0, nanos: 0 },
    }
}

/// Whether the instant `span` after `now` can be represented, or `span` is too long to be added
/// to an instant at all.
pub open spec fn addition_is_defined(now: UtcTime, span: TimeSpan) -> bool {
    span.fits_delta() ==> later(now, span).0 <= MAX_SECS
}

/// Tells whether `addition_is_defined` holds.
pub fn can_add(now: UtcTime, span: TimeSpan) -> (r: bool)
    requires
        now.wf(),
        span.wf(),
    ensures
        r == addition_is_defined(now, span),
{
    if delta_takes(span) {
        instant_after(now, span).is_some()
    } else {
        true
    }
}

/// A day of the proleptic Gregorian calendar.
#[derive(Clone, Copy, Debug, PartialEq, Eq, Structural)]
pub struct CalendarDate {
    pub year: i32,
    pub month: u32,
    pub day: u32,
}

/// Whether `year` is a leap year.
pub open spec fn is_leap_year(year: int) -> bool {
    year % 4 == 0 && (year % 100 != 0 || year % 400 == 0)
}

/// The number of days of a month.
pub open spec fn days_in_month(year: int, month: int) -> int {
    if month == 2 {
        if is_leap_year(year) {
            29
        } else {
            28
        }
    } else if month == 4 || month == 6 || month == 9 || month == 11 {
        30
    } else {
        31
    }
}

/// Whether the calendar has such a day, in a year that `chrono` can represent.
pub open spec fn date_exists(year: int, month: int, day: int) -> bool {
    &&& -262_143 <= year <= 262_142
    &&& 1 <= month <= 12
    &&& 1 <= day <= days_in_month(year, month)
}

impl CalendarDate {
    /// Whether the calendar has the day.
    pub open spec fn wf(self) -> bool {
        date_exists(self.year as int, self.month as int, self.day as int)
    }
}

/// The day after `date`, if its year can be represented.
pub open spec fn next_day(date: CalendarDate) -> Option<CalendarDate> {
    if date.day < days_in_month(date.year as int, date.month as int) {
        Some(CalendarDate { day: (date.day + 1) as u32, ..date })
    } else if date.month < 12 {
        Some(CalendarDate { month: (date.month + 1) as u32, day: 1, ..date })
    } else if date.year < 262_142 {
        Some(CalendarDate { year: (date.year + 1) as i32, month: 1, day: 1 })
    } else {
        None
    }
}

/// Trusted: `chrono::NaiveDate::from_ymd_opt` gives the day if the calendar has it and its year
/// can be represented, and nothing otherwise.
#[verifier::external_body]
pub(crate) fn date_from_parts(year: i32, month: u32, day: u32) -> (r: Option<CalendarDate>)
    ensures
        r == if date_exists(year as int, month as int, day as int) {
            Some(CalendarDate { year, month, day })
        } else {
            None
        },
{
    match chrono::NaiveDate::from_ymd_opt(year, month, day) {
        Some(date) => Some(
            CalendarDate { year: date.year(), month: date.month(), day: date.day() },
        ),
        None => None,
    }
}

/// Trusted: `chrono::NaiveDate::checked_add_signed` with a span of no day or of one day gives the
/// day itself or the next one, and nothing past the last day that can be represented.
#[verifier::external_body]
pub(crate) fn date_after(date: CalendarDate, days: i64) -> (r: Option<CalendarDate>)
    requires
        date.wf(),
        0 <= days <= 1,
    ensures
        r == if days == 0 {
            Some(date)
        } else {
            next_day(date)
        },
{
    let start = chrono::NaiveDate::from_ymd_opt(date.year, date.month, date.day).unwrap();
    match start.checked_add_signed(chrono::TimeDelta::days(days)) {
        Some(date) => Some(
            CalendarDate { year: date.year(), month: date.month(), day: date.day() },
        ),
        None => None,
    }
}

/// A time of day, as the seconds since midnight and the nanoseconds past them. The nanoseconds
/// reach past a second in a leap second.
#[derive(Clone, Copy, Debug, PartialEq, Eq, Structural)]
pub struct ClockTime {
    pub second: u32,
    pub nanos: u32,
}

impl ClockTime {
    /// Whether the time lies within a day.
    pub open spec fn wf(self) -> bool {
        self.second < 86_400 && self.nanos < 2_000_000_000
    }

    /// The time of day for an hour, a minute and a second.
    pub fn from_hms(hour: u32, minute: u32, second: u32) -> (r: Option<ClockTime>)
        ensures
            r == if hour < 24 && minute < 60 && second < 60 {
                Some(
                    ClockTime { second: (hour * 3600 + minute * 60 + second) as u32, nanos: 0 },
                )
            } else {
                None
            },
    {
        if hour < 24 && minute < 60 && second < 60 {
            Some(ClockTime { second: hour * 3600 + minute * 60 + second, nanos: 0 })
        } else {
            None
        }
    }
}

/// A day and a time of day, in some time zone.
#[derive(Clone, Copy, Debug, PartialEq, Eq, Structural)]
pub struct LocalDateTime {
    pub date: CalendarDate,
    pub time: ClockTime,
}

impl LocalDateTime {
    /// Whether both parts are valid.
    pub open spec fn wf(self) -> bool {
        self.date.wf() && self.time.wf()
    }
}

/// An instant that was written with its offset from UTC.
#[derive(Clone, Copy, Debug, PartialEq, Eq, Structural)]
pub struct ExplicitTime {
    pub instant: UtcTime,
    pub offset_seconds: i32,
}

impl ExplicitTime {
    /// Whether the instant can be represented and the offset is less than a day.
    pub open spec fn wf(self) -> bool {
        self.instant.wf() && -86_400 < self.offset_seconds < 86_400
    }
}

/// What `chrono::DateTime::parse_from_rfc3339` reads in a text: the seconds and nanoseconds of
/// the instant and the seconds of the offset, or the text of its error.
pub uninterp spec fn rfc3339_reading(text: Seq<char>) -> Result<(int, int, int), Seq<char>>;

/// The reading that stands for `time`.
pub open spec fn read_as(time: ExplicitTime) -> Result<(int, int, int), Seq<char>> {
    Ok((time.instant.secs as int, time.instant.nanos as int, time.offset_seconds as int))
}

/// The reading that stands for an error with the given text.
pub open spec fn refused_with(message: Seq<char>) -> Result<(int, int, int), Seq<char>> {
    Err(message)
}

/// Trusted: calls `chrono::DateTime::parse_from_rfc3339`. What is read can be represented.
#[verifier::external_body]
pub(crate) fn read_rfc3339(text: &str) -> (r: Result<ExplicitTime, String>)
    ensures
        match r {
            Ok(time) => time.wf() && rfc3339_reading(text@) == read_as(time),
            Err(message) => rfc3339_reading(text@) == refused_with(message@),
        },
{
    match chrono::DateTime::parse_from_rfc3339(text) {
        Ok(time) => {
            let secs = time.timestamp();
            let nanos = time.timestamp_subsec_nanos();
            let offset_seconds = time.offset().local_minus_utc();
            Ok(ExplicitTime { instant: UtcTime { secs, nanos }, offset_seconds })
        },
        Err(error) => Err(error.to_string()),
    }
}

/// The instant that an RFC 3339 text gives, or the text of the error.
pub open spec fn utc_reading(text: Seq<char>) -> Result<UtcTime, Seq<char>> {
    match rfc3339_reading(text) {
        Ok(time) => Ok(UtcTime { secs: time.0 as i64, nanos: time.1 as u32 }),
        Err(message) => Err(message),
    }
}

/// Reads the instant that an RFC 3339 text gives.
pub fn read_utc(text: &str) -> (r: Result<UtcTime, String>)
    ensures
        match r {
            Ok(time) => time.wf() && utc_reading(text@) == Ok::<UtcTime, Seq<char>>(time),
            Err(message) => utc_reading(text@) == Err::<UtcTime, Seq<char>>(message@),
        },
{
    match read_rfc3339(text) {
        Ok(time) => Ok(time.instant),
        Err(message) => Err(message),
    }
}

/// An instant that was read in a text, or the complaint about the text with the error in it.
pub open spec fn target_from(
    reading: Result<UtcTime, Seq<char>>,
    text: Seq<char>,
    complaint: Seq<char>,
) -> Result<UtcTime, Seq<char>> {
    match reading {
        Ok(target) => Ok(target),
        Err(message) => Err(complaint + " `"@ + text + "`: "@ + message),
    }
}

/// Takes an instant that was read in a text, or complains about the text.
pub fn take_target(reading: Result<UtcTime, String>, text: &str, complaint: &str) -> (r: Result<
    UtcTime,
    String,
>)
    ensures
        match r {
            Ok(target) => reading == Ok::<UtcTime, String>(target),
            Err(refusal) => {
                &&& reading is Err
                &&& refusal@ == complaint@ + " `"@ + text@ + "`: "@ + reading->Err_0@
            },
        },
{
    match reading {
        Ok(target) => Ok(target),
        Err(message) => Err(text::concat5(complaint, " `", text, "`: ", message.as_str())),
    }
}

/// What `chrono::DateTime::to_rfc3339` writes for an instant in UTC.
pub uninterp spec fn utc_rfc3339(secs: int, nanos: int) -> Seq<char>;

/// Whether RFC 3339 can write the instant in UTC so that it reads back: its year has four digits,
/// and a leap second ends a minute.
pub open spec fn has_rfc3339_form(time: UtcTime) -> bool {
    &&& -62_167_219_200 <= time.secs <= 253_402_300_799
    &&& time.nanos < NANOS_PER_SEC || time.secs as int % 60 == 59
}

/// Trusted: calls `chrono::DateTime::to_rfc3339` on an instant in UTC. Where RFC 3339 has a form
/// for the instant, `chrono::DateTime::parse_from_rfc3339` reads the same instant back, at offset
/// zero.
#[verifier::external_body]
pub(crate) fn write_rfc3339(time: UtcTime) -> (r: String)
    requires
        time.wf(),
    ensures
        r@ == utc_rfc3339(time.secs as int, time.nanos as int),
        has_rfc3339_form(time) ==> rfc3339_reading(r@) == read_as(
            ExplicitTime { instant: time, offset_seconds: 0 },
        ),
{
    let naive = chrono::DateTime::from_timestamp(time.secs, 0).unwrap().naive_utc();
    naive.with_nanosecond(time.nanos).unwrap().and_utc().to_rfc3339()
}

/// What `chrono::NaiveTime::parse_from_str` reads in a text by a pattern: the seconds since
/// midnight and the nanoseconds.
pub uninterp spec fn clock_reading(text: Seq<char>, pattern: Seq<char>) -> Option<(int, int)>;

/// Trusted: calls `chrono::NaiveTime::parse_from_str`. What is read lies within a day.
#[verifier::external_body]
pub(crate) fn read_clock(text: &str, pattern: &str) -> (r: Option<ClockTime>)
    ensures
        match r {
            Some(time) => {
                &&& time.wf()
                &&& clock_reading(text@, pattern@) == Some((time.second as int, time.nanos as int))
            },
            None => clock_reading(text@, pattern@) is None,
        },
{
    match chrono::NaiveTime::parse_from_str(text, pattern) {
        Ok(time) => Some(
            ClockTime { second: time.num_seconds_from_midnight(), nanos: time.nanosecond() },
        ),
        Err(_) => None,
    }
}

/// What the `Display` of `chrono::NaiveDateTime` writes for a date, given by year, month and day,
/// and a time of day, given by seconds and nanoseconds.
pub uninterp spec fn local_text(
    year: int,
    month: int,
    day: int,
    second: int,
    nanos: int,
) -> Seq<char>;

/// `local_text` of a date and time.
pub open spec fn local_text_of(local: LocalDateTime) -> Seq<char> {
    local_text(
        local.date.year as int,
        local.date.month as int,
        local.date.day as int,
        local.time.second as int,
        local.time.nanos as int,
    )
}

/// Trusted: calls the `Display` of `chrono::NaiveDateTime`.
#[verifier::external_body]
pub(crate) fn write_local(local: LocalDateTime) -> (r: String)
    requires
        local.wf(),
    ensures
        r@ == local_text(
            local.date.year as int,
            local.date.month as int,
            local.date.day as int,
            local.time.second as int,
            local.time.nanos as int,
        ),
{
    let date = local.date;
    let day = chrono::NaiveDate::from_ymd_opt(date.year, date.month, date.day).unwrap();
    let time = chrono::NaiveTime::from_num_seconds_from_midnight_opt(local.time.second, 0).unwrap();
    day.and_time(time.with_nanosecond(local.time.nanos).unwrap()).to_string()
}

/// Instants are ordered by their seconds, and within a second by their nanoseconds.
pub proof fn law_instants_are_ordered(a: UtcTime, b: UtcTime)
    ensures
        a.secs < b.secs ==> a.before(b) && !b.before(a),
        a.secs == b.secs && a.nanos < b.nanos ==> a.before(b) && !b.before(a),
        a == b ==> !a.before(b),
{
}

/// Outside of leap seconds the time left is what the clock still has to go, and nothing once the
/// target has come.
pub proof fn law_time_left(now: UtcTime, target: UtcTime)
    requires
        now.nanos < 1_000_000_000,
        target.nanos < 1_000_000_000,
    ensures
        ({
            let ahead = (target.secs * 1_000_000_000 + target.nanos) - (now.secs * 1_000_000_000
                + now.nanos);
            remaining(now, target) == if ahead > 0 {
                ahead
            } else {
                0
            }
        }),
{
}

/// In leap seconds too the time left is the time between now and the target, and nothing where that
/// is negative.
pub proof fn law_time_left_is_not_negative(now: UtcTime, target: UtcTime)
    ensures
        remaining(now, target) >= 0,
        nanos_between(now, target) >= 0 ==> remaining(now, target) == nanos_between(now, target),
        nanos_between(now, target) < 0 ==> remaining(now, target) == 0,
{
}

/// Whether one day comes before another.
pub open spec fn day_before(a: CalendarDate, b: CalendarDate) -> bool {
    ||| a.year < b.year
    ||| a.year == b.year && a.month < b.month
    ||| a.year == b.year && a.month == b.month && a.day < b.day
}

/// The next day is a day of the calendar that comes after the day, and no other day lies between
/// them. Only the last day has none.
pub proof fn law_next_day(date: CalendarDate, other: CalendarDate)
    requires
        date.wf(),
        other.wf(),
    ensures
        match next_day(date) {
            Some(next) => {
                &&& next.wf()
                &&& day_before(date, next)
                &&& !(day_before(date, other) && day_before(other, next))
            },
            None => !day_before(date, other),
        },
{
}

/// What is read of an RFC 3339 text is the very instant that it gives, whatever its offset, and an
/// error is passed on.
pub proof fn law_instant_is_read(text: Seq<char>, time: ExplicitTime, message: Seq<char>)
    ensures
        rfc3339_reading(text) == Ok::<(int, int, int), Seq<char>>(
            (time.instant.secs as int, time.instant.nanos as int, time.offset_seconds as int),
        ) ==> utc_reading(text) == Ok::<UtcTime, Seq<char>>(time.instant),
        rfc3339_reading(text) == Err::<(int, int, int), Seq<char>>(message) ==> utc_reading(text)
            == Err::<UtcTime, Seq<char>>(message),
{
}

/// A target that was read is taken as it is, and the complaint about one that was not holds the text
/// and the error.
pub proof fn law_target_is_taken(
    target: UtcTime,
    message: Seq<char>,
    text: Seq<char>,
    complaint: Seq<char>,
)
    ensures
        target_from(Ok(target), text, complaint) == Ok::<UtcTime, Seq<char>>(target),
        target_from(Err(message), text, complaint) == Err::<UtcTime, Seq<char>>(
            complaint + " `"@ + text + "`: "@ + message,
        ),
{
}

/// The text of a local date and time is that of its date and of its time of day.
pub proof fn law_local_text(local: LocalDateTime)
    ensures
        local_text_of(local) == local_text(
            local.date.year as int,
            local.date.month as int,
            local.date.day as int,
            local.time.second as int,
            local.time.nanos as int,
        ),
{
}

} // verus!
