//! Time zones of the IANA database, as `chrono_tz` holds it.
use chrono::{Datelike, Offset, TimeZone, Timelike};
use vstd::prelude::*;

use crate::calendar::{CalendarDate, ClockTime, LocalDateTime, UtcTime};

verus! {

/// Whether `chrono_tz::Tz` has a time zone of the given name.
pub uninterp spec fn known_timezone(name: Seq<char>) -> bool;

/// Trusted: parses a name as a `chrono_tz::Tz`. `UTC` is among the names.
#[verifier::external_body]
fn timezone_is_known(name: &str) -> (r: bool)
    ensures
        r == known_timezone(name@),
        name@ == "UTC"@ ==> r,
{
    name.parse::<chrono_tz::Tz>().is_ok()
}

/// A time zone of the database. Its view is its name.
#[derive(Debug)]
pub struct Timezone {
    name: String,
}

impl View for Timezone {
    type V = Seq<char>;

    closed spec fn view(&self) -> Seq<char> {
        self.name@
    }
}

impl Timezone {
    #[verifier::type_invariant]
    spec fn is_known(self) -> bool {
        known_timezone(self.name@)
    }

    /// The time zone of the given name, if the database has it.
    pub fn from_name(name: &str) -> (r: Option<Timezone>)
        ensures
            match r {
                Some(zone) => known_timezone(name@) && zone@ == name@,
                None => !known_timezone(name@),
            },
    {
        if timezone_is_known(name) {
            Some(Timezone { name: name.to_string() })
        } else {
            None
        }
    }

    /// The time zone of Coordinated Universal Time.
    pub fn utc() -> (r: Timezone)
        ensures
            r@ == "UTC"@,
            known_timezone(r@),
    {
        let known = timezone_is_known("UTC");
        assert(known);
        Timezone { name: "UTC".to_string() }
    }

    /// The name of the time zone.
    pub fn name(&self) -> (r: &str)
        ensures
            r@ == self@,
            known_timezone(r@),
    {
        proof {
            use_type_invariant(self);
        }
        self.name.as_str()
    }
}

/// What the instants of a local time are.
#[derive(Clone, Copy, Debug, PartialEq, Eq, Structural)]
pub enum LocalInstants {
    /// The clocks skip the local time.
    Skipped,
    /// The clocks show the local time once.
    Once(UtcTime),
    /// The clocks show the local time twice.
    Twice(UtcTime, UtcTime),
}

/// What `chrono::TimeZone::from_local_datetime` gives in the named zone for a local time, given by
/// year, month and day, seconds since midnight and nanoseconds.
pub uninterp spec fn zone_instants(
    zone: Seq<char>,
    year: int,
    month: int,
    day: int,
    second: int,
    nanos: int,
) -> LocalInstants;

/// What the clocks of the named zone show at an instant, as the offset that
/// `chrono::TimeZone::offset_from_utc_datetime` gives has it; nothing where that is past the dates
/// that can be represented.
pub uninterp spec fn zone_local(zone: Seq<char>, secs: int, nanos: int) -> Option<LocalDateTime>;

/// Trusted: calls `chrono::TimeZone::from_local_datetime` in the time zone of the given name. At
/// an instant that is the only one for a local time, the clocks show that time.
#[verifier::external_body]
fn instants_in_zone(name: &str, local: LocalDateTime) -> (r: LocalInstants)
    requires
        known_timezone(name@),
        local.wf(),
    ensures
        r == zone_instants(
            name@,
            local.date.year as int,
            local.date.month as int,
            local.date.day as int,
            local.time.second as int,
            local.time.nanos as int,
        ),
        r matches LocalInstants::Once(t) ==> t.wf() && zone_local(
            name@,
            t.secs as int,
            t.nanos as int,
        ) == Some(local),
{
    let zone = name.parse::<chrono_tz::Tz>().unwrap();
    let (date, time) = (local.date, local.time);
    let day = chrono::NaiveDate::from_ymd_opt(date.year, date.month, date.day).unwrap();
    let clock = chrono::NaiveTime::from_num_seconds_from_midnight_opt(time.second, 0).unwrap();
    let naive = day.and_time(clock.with_nanosecond(time.nanos).unwrap());
    let found = zone.from_local_datetime(&naive);
    match found.map(|t| UtcTime { secs: t.timestamp(), nanos: t.timestamp_subsec_nanos() }) {
        chrono::LocalResult::None => LocalInstants::Skipped,
        chrono::LocalResult::Single(t) => LocalInstants::Once(t),
        chrono::LocalResult::Ambiguous(a, b) => LocalInstants::Twice(a, b),
    }
}

/// Trusted: calls `chrono::TimeZone::offset_from_utc_datetime` in the time zone of the given name
/// and adds the offset with `chrono::NaiveDateTime::checked_add_offset`.
#[verifier::external_body]
fn local_in_zone(name: &str, time: UtcTime) -> (r: Option<LocalDateTime>)
    requires
        known_timezone(name@),
        time.wf(),
    ensures
        r == zone_local(name@, time.secs as int, time.nanos as int),
        r matches Some(local) ==> local.wf(),
{
    let zone = name.parse::<chrono_tz::Tz>().unwrap();
    let naive = chrono::DateTime::from_timestamp(time.secs, 0).unwrap().naive_utc();
    let utc = naive.with_nanosecond(time.nanos).unwrap();
    match utc.checked_add_offset(zone.offset_from_utc_datetime(&utc).fix()) {
        Some(local) => {
            let (year, month, day) = (local.year(), local.month(), local.day());
            let (second, nanos) = (local.num_seconds_from_midnight(), local.nanosecond());
            let (date, time) = (CalendarDate { year, month, day }, ClockTime { second, nanos });
            Some(LocalDateTime { date, time })
        },
        None => None,
    }
}

/// What `chrono::DateTime::to_rfc3339` writes for an instant in the named zone.
pub uninterp spec fn zone_rfc3339(zone: Seq<char>, secs: int, nanos: int) -> Seq<char>;

/// Trusted: calls `chrono::DateTime::to_rfc3339` on an instant in the time zone of the given name.
#[verifier::external_body]
fn rfc3339_in_zone(name: &str, time: UtcTime) -> (r: String)
    requires
        known_timezone(name@),
        time.wf(),
    ensures
        r@ == zone_rfc3339(name@, time.secs as int, time.nanos as int),
{
    let zone = name.parse::<chrono_tz::Tz>().unwrap();
    let naive = chrono::DateTime::from_timestamp(time.secs, 0).unwrap().naive_utc();
    let utc = naive.with_nanosecond(time.nanos).unwrap();
    zone.from_utc_datetime(&utc).to_rfc3339()
}

/// The pattern for a time on a clock of 24 hours.
pub const PATTERN_24H: &'static str = "%Y-%m-%d %H:%M:%S %Z";

/// The pattern for a time on a clock of 12 hours.
pub const PATTERN_12H: &'static str = "%Y-%m-%d %I:%M:%S %p %Z";

/// What `chrono::DateTime::format` writes for an instant in the named zone by a pattern.
pub uninterp spec fn zone_format(
    zone: Seq<char>,
    secs: int,
    nanos: int,
    pattern: Seq<char>,
) -> Seq<char>;

/// Trusted: calls `chrono::DateTime::format` on an instant in the time zone of the given name, by
/// one of the two patterns that the library uses.
#[verifier::external_body]
fn format_in_zone(name: &str, time: UtcTime, pattern: &str) -> (r: String)
    requires
        known_timezone(name@),
        time.wf(),
        pattern@ == PATTERN_24H@ || pattern@ == PATTERN_12H@,
    ensures
        r@ == zone_format(name@, time.secs as int, time.nanos as int, pattern@),
{
    let zone = name.parse::<chrono_tz::Tz>().unwrap();
    let naive = chrono::DateTime::from_timestamp(time.secs, 0).unwrap().naive_utc();
    let utc = naive.with_nanosecond(time.nanos).unwrap();
    zone.from_utc_datetime(&utc).format(pattern).to_string()
}

/// An instant together with what some clocks show at it; nothing where that is past the dates that
/// can be represented.
#[derive(Clone, Copy, Debug, PartialEq, Eq, Structural)]
pub struct ZonedTime {
    pub instant: UtcTime,
    pub local: Option<LocalDateTime>,
}

impl ZonedTime {
    /// Whether both parts are valid.
    pub open spec fn wf(self) -> bool {
        self.instant.wf() && (self.local matches Some(local) ==> local.wf())
    }
}

/// The instants at which the clocks of a zone show a local time.
pub open spec fn instants_of(zone: Seq<char>, local: LocalDateTime) -> LocalInstants {
    zone_instants(
        zone,
        local.date.year as int,
        local.date.month as int,
        local.date.day as int,
        local.time.second as int,
        local.time.nanos as int,
    )
}

/// What the clocks of a zone show at an instant.
pub open spec fn local_at(zone: Seq<char>, time: UtcTime) -> Option<LocalDateTime> {
    zone_local(zone, time.secs as int, time.nanos as int)
}

/// An instant together with what the clocks of a zone show at it.
pub open spec fn on_clocks(zone: Seq<char>, time: UtcTime) -> ZonedTime {
    ZonedTime { instant: time, local: local_at(zone, time) }
}

impl Timezone {
    /// The instants at which the clocks of the zone show `local`. At an instant that is the only
    /// one, they do show it.
    pub fn instants(&self, local: LocalDateTime) -> (r: LocalInstants)
        requires
            local.wf(),
        ensures
            r == instants_of(self@, local),
            r matches LocalInstants::Once(t) ==> t.wf() && local_at(self@, t) == Some(local),
    {
        instants_in_zone(self.name(), local)
    }

    /// An instant together with what the clocks of the zone show at it.
    pub fn at(&self, instant: UtcTime) -> (r: ZonedTime)
        requires
            instant.wf(),
        ensures
            r.wf(),
            r == on_clocks(self@, instant),
    {
        ZonedTime { instant, local: local_in_zone(self.name(), instant) }
    }

    /// The RFC 3339 form of an instant, with the offset of the zone.
    pub fn rfc3339(&self, instant: UtcTime) -> (r: String)
        requires
            instant.wf(),
        ensures
            r@ == zone_rfc3339(self@, instant.secs as int, instant.nanos as int),
    {
        rfc3339_in_zone(self.name(), instant)
    }

    /// An instant on the clocks of the zone, of 24 hours or of 12.
    pub fn clock_face(&self, instant: UtcTime, twelve_hours: bool) -> (r: String)
        requires
            instant.wf(),
        ensures
            r@ == zone_format(
                self@,
                instant.secs as int,
                instant.nanos as int,
                if twelve_hours {
                    PATTERN_12H@
                } else {
                    PATTERN_24H@
                },
            ),
    {
        if twelve_hours {
            format_in_zone(self.name(), instant, PATTERN_12H)
        } else {
            format_in_zone(self.name(), instant, PATTERN_24H)
        }
    }
}

/// What the clocks of a zone show at an instant, and at which instants they show a local time, is
/// what the database has for the very instant and the very time, to the nanosecond.
pub proof fn law_clocks_follow_the_database(zone: Seq<char>, time: UtcTime, local: LocalDateTime)
    ensures
        on_clocks(zone, time).instant == time,
        on_clocks(zone, time).local == zone_local(zone, time.secs as int, time.nanos as int),
        local_at(zone, time) == zone_local(zone, time.secs as int, time.nanos as int),
        instants_of(zone, local) == zone_instants(
            zone,
            local.date.year as int,
            local.date.month as int,
            local.date.day as int,
            local.time.second as int,
            local.time.nanos as int,
        ),
{
}

} // verus!
