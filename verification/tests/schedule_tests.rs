use chrono::{Datelike, NaiveDate, TimeZone, Timelike};
use chrono_tz::{Tz, TZ_VARIANTS};
use tix::calendar::{
    can_add, time_left, CalendarDate, ClockTime, ExplicitTime, LocalDateTime, TimeSpan, UtcTime,
    MAX_SECS, MIN_SECS,
};
use tix::parse::parse_alarm_spec;
use tix::report::{plan_alarm, Plan};
use tix::schedule::{
    format_alarm_time, is_plannable, next_occurrence, place, refuse_past, refuse_repeated,
    refuse_skipped, resolve_alarm_with_now, write_alarm_time, Occurrence, Placement,
};
use tix::types::{AlarmSpec, DateOrder, DateParseConfig, TimeNotation};
use tix::zone::{LocalInstants, Timezone, ZonedTime};

fn parse_config(order: DateOrder) -> DateParseConfig {
    DateParseConfig { fallback_order: order, prefer_locale_order: false, locale_order: None }
}

fn berlin() -> Timezone {
    Timezone::from_name("Europe/Berlin").unwrap()
}

fn local(year: i32, month: u32, day: u32, hour: u32, minute: u32) -> LocalDateTime {
    LocalDateTime {
        date: CalendarDate { year, month, day },
        time: ClockTime::from_hms(hour, minute, 0).unwrap(),
    }
}

fn instant(year: i32, month: u32, day: u32, hour: u32, minute: u32) -> UtcTime {
    let zone: Tz = "Europe/Berlin".parse().unwrap();
    let time = zone.with_ymd_and_hms(year, month, day, hour, minute, 0).single().unwrap();
    UtcTime::new(time.timestamp(), 0).unwrap()
}

fn zoned(year: i32, month: u32, day: u32, hour: u32, minute: u32) -> ZonedTime {
    berlin().at(instant(year, month, day, hour, minute))
}

#[test]
fn time_only_future_stays_today() {
    let now = zoned(2026, 3, 12, 12, 0);
    let spec = parse_alarm_spec("13:30", parse_config(DateOrder::Dmy)).unwrap();

    let resolved = resolve_alarm_with_now(spec, &berlin(), now).unwrap();

    assert_eq!(resolved, instant(2026, 3, 12, 13, 30));
}

#[test]
fn time_only_past_rolls_to_tomorrow() {
    let now = zoned(2026, 3, 12, 14, 0);
    let spec = parse_alarm_spec("13:30", parse_config(DateOrder::Dmy)).unwrap();

    let resolved = resolve_alarm_with_now(spec, &berlin(), now).unwrap();

    assert_eq!(resolved, instant(2026, 3, 13, 13, 30));
}

#[test]
fn ambiguous_dst_local_datetime_is_rejected() {
    let now = zoned(2026, 10, 24, 12, 0);
    let spec = parse_alarm_spec("2026-10-25 02:30", parse_config(DateOrder::Dmy)).unwrap();

    let result = resolve_alarm_with_now(spec, &berlin(), now);

    assert!(result.is_err());
    assert_eq!(
        result.unwrap_err(),
        "local time 2026-10-25 02:30:00 is ambiguous in timezone Europe/Berlin due to DST; use a more explicit time"
    );
}

#[test]
fn nonexistent_time_today_rolls_to_valid_tomorrow() {
    let now = zoned(2026, 3, 29, 12, 0);
    let spec = parse_alarm_spec("02:30", parse_config(DateOrder::Dmy)).unwrap();

    let resolved = resolve_alarm_with_now(spec, &berlin(), now).unwrap();

    assert_eq!(resolved, instant(2026, 3, 30, 2, 30));
}

#[test]
fn ambiguous_time_today_rolls_to_valid_tomorrow() {
    let now = zoned(2026, 10, 25, 12, 0);
    let spec = parse_alarm_spec("02:30", parse_config(DateOrder::Dmy)).unwrap();

    let resolved = resolve_alarm_with_now(spec, &berlin(), now).unwrap();

    assert_eq!(resolved, instant(2026, 10, 26, 2, 30));
}

#[test]
fn explicit_local_absolute_value_round_trips() {
    let now = zoned(2026, 3, 11, 12, 0);
    let spec = AlarmSpec::Absolute(local(2026, 3, 12, 13, 30));

    let resolved = resolve_alarm_with_now(spec, &berlin(), now).unwrap();

    assert_eq!(berlin().at(resolved).local.unwrap().time, ClockTime::from_hms(13, 30, 0).unwrap());
    assert_eq!(berlin().at(resolved).local.unwrap(), local(2026, 3, 12, 13, 30));
}

#[test]
fn skipped_and_past_local_times_are_refused() {
    let now = zoned(2026, 3, 28, 12, 0);
    let skipped = AlarmSpec::Absolute(local(2026, 3, 29, 2, 30));
    assert_eq!(
        resolve_alarm_with_now(skipped, &berlin(), now).unwrap_err(),
        "local time 2026-03-29 02:30:00 does not exist in timezone Europe/Berlin due to DST"
    );
    let past = AlarmSpec::Absolute(local(2026, 3, 28, 12, 0));
    assert_eq!(
        resolve_alarm_with_now(past, &berlin(), now).unwrap_err(),
        "alarm time 2026-03-28T12:00:00+01:00 is already in the past"
    );
}

#[test]
fn times_of_day_that_come_on_neither_day_are_refused() {
    let spec = AlarmSpec::TimeOfDay(ClockTime::from_hms(2, 30, 0).unwrap());
    let before = zoned(2026, 3, 28, 12, 0);
    assert_eq!(
        resolve_alarm_with_now(spec, &berlin(), before).unwrap_err(),
        "local time 2026-03-29 02:30:00 does not exist in timezone Europe/Berlin due to DST"
    );
    let before = zoned(2026, 10, 24, 12, 0);
    assert_eq!(
        resolve_alarm_with_now(spec, &berlin(), before).unwrap_err(),
        "local time 2026-10-25 02:30:00 is ambiguous in timezone Europe/Berlin due to DST; use a full date/time"
    );
}

#[test]
fn explicit_times_must_be_still_to_come() {
    let now = zoned(2026, 3, 12, 12, 0);
    let at = |secs| {
        AlarmSpec::Explicit(ExplicitTime { instant: UtcTime { secs, nanos: 0 }, offset_seconds: 0 })
    };
    let next = now.instant.secs + 1;
    assert_eq!(resolve_alarm_with_now(at(next), &berlin(), now).unwrap().secs, next);
    assert_eq!(
        resolve_alarm_with_now(at(now.instant.secs), &berlin(), now).unwrap_err(),
        "alarm time 2026-03-12T12:00:00+01:00 is already in the past"
    );
}

#[test]
fn spans_are_added() {
    let now = zoned(2026, 3, 12, 12, 0);
    let spec = AlarmSpec::Duration(TimeSpan { secs: 90, nanos: 5 });
    let resolved = resolve_alarm_with_now(spec, &berlin(), now).unwrap();
    assert_eq!(resolved, UtcTime { secs: now.instant.secs + 90, nanos: 5 });
    let long = AlarmSpec::Duration(TimeSpan::from_secs(u64::MAX));
    assert_eq!(
        resolve_alarm_with_now(long, &berlin(), now).unwrap_err(),
        "duration is too large to schedule"
    );
    let edge = TimeSpan { secs: 9_223_372_036_854_775, nanos: 807_000_000 };
    assert!(!can_add(now.instant, edge));
    assert!(can_add(now.instant, TimeSpan { secs: edge.secs, nanos: 807_000_001 }));
    assert!(matches!(
        plan_alarm(AlarmSpec::Duration(edge), &berlin(), now.instant),
        Plan::Unrepresentable
    ));
    assert!(matches!(
        plan_alarm(long, &berlin(), now.instant),
        Plan::Refused(message) if message == "duration is too large to schedule"
    ));
    assert!(matches!(
        plan_alarm(spec, &berlin(), now.instant),
        Plan::Due(time) if time == resolved
    ));
}

#[test]
fn placements_and_occurrences_are_decided() {
    let (early, late) = (UtcTime { secs: 1, nanos: 0 }, UtcTime { secs: 1, nanos: 1 });
    assert_eq!(place(LocalInstants::Once(late), early), Placement::Due(late));
    assert_eq!(place(LocalInstants::Once(early), early), Placement::Past(early));
    assert_eq!(place(LocalInstants::Twice(early, late), early), Placement::Repeated);
    assert_eq!(place(LocalInstants::Skipped, early), Placement::Skipped);
    let past = Placement::Past(early);
    assert_eq!(next_occurrence(Placement::Due(late), None), Occurrence::At(late));
    assert_eq!(next_occurrence(past, None), Occurrence::NoNextDay);
    assert_eq!(next_occurrence(past, Some(Placement::Due(late))), Occurrence::At(late));
    assert_eq!(next_occurrence(past, Some(past)), Occurrence::AllPast);
    assert_eq!(
        next_occurrence(Placement::Skipped, Some(past)),
        Occurrence::Skipped { next_day: false }
    );
    assert_eq!(
        next_occurrence(Placement::Skipped, Some(Placement::Repeated)),
        Occurrence::Repeated { next_day: true }
    );
    assert_eq!(
        next_occurrence(Placement::Repeated, Some(past)),
        Occurrence::Repeated { next_day: false }
    );
    assert_eq!(
        next_occurrence(Placement::Repeated, Some(Placement::Skipped)),
        Occurrence::Skipped { next_day: true }
    );
}

#[test]
fn no_day_follows_the_last_one() {
    let utc = Timezone::from_name("UTC").unwrap();
    let now = utc.at(UtcTime { secs: MAX_SECS, nanos: 0 });
    assert_eq!(now.local.unwrap().date, CalendarDate { year: 262_142, month: 12, day: 31 });
    let spec = AlarmSpec::TimeOfDay(ClockTime::from_hms(0, 0, 0).unwrap());
    assert_eq!(
        resolve_alarm_with_now(spec, &utc, now).unwrap_err(),
        "failed to compute alarm date"
    );
    let first = utc.at(UtcTime { secs: MIN_SECS, nanos: 0 });
    assert_eq!(first.local.unwrap().date, CalendarDate { year: -262_143, month: 1, day: 1 });
    let east = Timezone::from_name("Asia/Tokyo").unwrap();
    assert!(east.at(UtcTime { secs: MAX_SECS, nanos: 0 }).local.is_none());
    assert_eq!(UtcTime::new(MAX_SECS + 1, 0), None);
    assert_eq!(UtcTime::new(MIN_SECS - 1, 0), None);
    assert_eq!(UtcTime::new(0, 2_000_000_000), None);
    assert_eq!(chrono::DateTime::<chrono::Utc>::MAX_UTC.timestamp(), MAX_SECS);
    assert_eq!(chrono::DateTime::<chrono::Utc>::MIN_UTC.timestamp(), MIN_SECS);
}

#[test]
fn the_date_of_today_matters_for_a_time_of_day_alone() {
    let east = Timezone::from_name("Asia/Tokyo").unwrap();
    let now = UtcTime { secs: MAX_SECS, nanos: 0 };
    let midnight = AlarmSpec::TimeOfDay(ClockTime::from_hms(0, 0, 0).unwrap());
    assert!(!is_plannable(midnight, east.at(now)));
    assert!(matches!(plan_alarm(midnight, &east, now), Plan::Unrepresentable));
    let day = AlarmSpec::Absolute(local(2026, 3, 12, 12, 0));
    assert!(matches!(
        plan_alarm(day, &east, now),
        Plan::Refused(message)
            if message == "alarm time 2026-03-12T12:00:00+09:00 is already in the past"
    ));
    let start = UtcTime { secs: 0, nanos: 0 };
    let past = AlarmSpec::Explicit(ExplicitTime { instant: start, offset_seconds: 0 });
    assert!(matches!(
        plan_alarm(past, &east, now),
        Plan::Refused(message)
            if message == "alarm time 1970-01-01T09:00:00+09:00 is already in the past"
    ));
    let at_once = AlarmSpec::Duration(TimeSpan { secs: 0, nanos: 5 });
    assert!(matches!(
        plan_alarm(at_once, &east, now),
        Plan::Due(time) if time == UtcTime { secs: MAX_SECS, nanos: 5 }
    ));
    let second = AlarmSpec::Duration(TimeSpan::from_secs(1));
    assert!(matches!(plan_alarm(second, &east, now), Plan::Unrepresentable));
}

#[test]
fn spans_from_a_leap_second_are_exact_within_the_day() {
    let utc = Timezone::from_name("UTC").unwrap();
    let span = TimeSpan { secs: 10, nanos: 0 };
    let due = |secs: i64| {
        let now = utc.at(UtcTime { secs, nanos: 1_500_000_000 });
        let due = resolve_alarm_with_now(AlarmSpec::Duration(span), &utc, now).unwrap();
        time_left(now.instant, due)
    };
    assert_eq!(due(59), span);
    assert_eq!(due(86_399), TimeSpan { secs: 9, nanos: 0 });
}

#[test]
fn days_roll_over_months_and_years() {
    let utc = Timezone::from_name("UTC").unwrap();
    let midnight = ClockTime::from_hms(0, 0, 0).unwrap();
    let mut day = NaiveDate::from_ymd_opt(1999, 12, 27).unwrap();
    while day < NaiveDate::from_ymd_opt(2001, 3, 5).unwrap() {
        let noon = day.and_hms_opt(12, 0, 0).unwrap().and_utc().timestamp();
        let now = utc.at(UtcTime { secs: noon, nanos: 0 });
        let due = resolve_alarm_with_now(AlarmSpec::TimeOfDay(midnight), &utc, now).unwrap();
        let next = day.succ_opt().unwrap();
        let shown = utc.at(due).local.unwrap().date;
        assert_eq!((shown.year, shown.month, shown.day), (next.year(), next.month(), next.day()));
        day = next;
    }
}

#[test]
fn additions_and_differences_follow_the_calendar_crate() {
    let times: Vec<UtcTime> = [
        (0, 0),
        (-1, 999_999_999),
        (59, 1_500_000_000),
        (59, 500_000_000),
        (60, 0),
        (86_399, 1_000_000_000),
        (86_400, 5),
        (1_773_318_600, 7),
    ]
    .iter()
    .map(|(secs, nanos)| UtcTime::new(*secs, *nanos).unwrap())
    .collect();
    let spans: Vec<TimeSpan> = [
        (0, 0),
        (0, 400_000_000),
        (0, 600_000_000),
        (0, 999_999_999),
        (1, 0),
        (1, 500_000_000),
        (86_400, 1),
    ]
    .iter()
    .map(|(secs, nanos)| TimeSpan { secs: *secs, nanos: *nanos })
    .collect();
    let outside = |time: &UtcTime| {
        let naive = chrono::DateTime::from_timestamp(time.secs, 0).unwrap().naive_utc();
        naive.with_nanosecond(time.nanos).unwrap().and_utc()
    };
    let utc = Timezone::from_name("UTC").unwrap();
    for time in &times {
        let now = utc.at(*time);
        for span in &spans {
            let spec = AlarmSpec::Duration(*span);
            let due = resolve_alarm_with_now(spec, &utc, now).unwrap();
            let delta = chrono::TimeDelta::new(span.secs as i64, span.nanos).unwrap();
            let expected = outside(time) + delta;
            assert_eq!(due.secs, expected.timestamp());
            assert_eq!(due.nanos, expected.timestamp_subsec_nanos());
            let nanos = if time.nanos >= 1_000_000_000
                && span.secs == 0
                && time.nanos + span.nanos < 2_000_000_000
            {
                (time.secs, time.nanos + span.nanos)
            } else {
                let sum = time.nanos % 1_000_000_000 + span.nanos;
                let carry = (sum / 1_000_000_000) as i64;
                (time.secs + span.secs as i64 + carry, sum % 1_000_000_000)
            };
            assert_eq!((due.secs, due.nanos), nanos);
        }
        for other in &times {
            let left = time_left(*time, *other);
            let expected = (outside(other) - outside(time)).to_std().unwrap_or_default();
            assert_eq!((left.secs, left.nanos), (expected.as_secs(), expected.subsec_nanos()));
            let mut difference = (other.secs - time.secs) * 1_000_000_000
                + (other.nanos as i64 - time.nanos as i64);
            let (from, to) = (time.secs.rem_euclid(86_400), other.secs.rem_euclid(86_400));
            if to > from && time.nanos >= 1_000_000_000 {
                difference += 1_000_000_000;
            } else if to < from && other.nanos >= 1_000_000_000 {
                difference -= 1_000_000_000;
            }
            assert_eq!(left.secs as i64 * 1_000_000_000 + left.nanos as i64, difference.max(0));
            assert_eq!(time.is_before(other), outside(time) < outside(other));
        }
    }
}

#[test]
fn times_are_shown_in_both_notations() {
    let time = instant(2026, 3, 12, 13, 30);
    assert_eq!(
        format_alarm_time(&berlin(), time, TimeNotation::H24),
        "2026-03-12 13:30:00 CET"
    );
    let mut out = "at ".to_string();
    write_alarm_time(&berlin(), time, TimeNotation::H12, &mut out);
    assert_eq!(out, "at 2026-03-12 01:30:00 PM CET");
}

#[test]
fn every_time_zone_keeps_its_name() {
    for zone in TZ_VARIANTS {
        let name = zone.name();
        let parsed: Tz = name.parse().unwrap();
        assert_eq!(parsed.to_string(), name);
        assert_eq!(Timezone::from_name(name).unwrap().name(), name);
    }
    assert_eq!(Timezone::utc().name(), "UTC");
    assert!(Timezone::from_name("Mars/Olympus").is_none());
}

#[test]
fn clocks_show_the_local_time_of_its_only_instant() {
    for name in ["Europe/Berlin", "America/New_York", "Australia/Lord_Howe", "Pacific/Apia"] {
        let zone = Timezone::from_name(name).unwrap();
        let tz: Tz = name.parse().unwrap();
        for day in [(2011, 12, 29), (2011, 12, 31), (2026, 3, 29), (2026, 4, 5), (2026, 11, 1)] {
            for half_hour in 0..48 {
                let at = local(day.0, day.1, day.2, half_hour / 2, half_hour % 2 * 30);
                let naive = NaiveDate::from_ymd_opt(day.0, day.1, day.2)
                    .unwrap()
                    .and_hms_opt(half_hour / 2, half_hour % 2 * 30, 0)
                    .unwrap();
                match (zone.instants(at), tz.from_local_datetime(&naive)) {
                    (LocalInstants::Once(time), chrono::LocalResult::Single(expected)) => {
                        assert_eq!(time.secs, expected.timestamp());
                        assert_eq!(zone.at(time).local.unwrap(), at);
                    }
                    (LocalInstants::Twice(a, b), chrono::LocalResult::Ambiguous(x, y)) => {
                        assert_eq!((a.secs, b.secs), (x.timestamp(), y.timestamp()));
                    }
                    (LocalInstants::Skipped, chrono::LocalResult::None) => {}
                    _ => panic!("the instants differ"),
                }
            }
        }
    }
}

#[test]
fn refusals_say_what_is_wrong() {
    assert_eq!(refuse_past("t"), "alarm time t is already in the past");
    assert_eq!(
        refuse_repeated("t", "z", "full date/time"),
        "local time t is ambiguous in timezone z due to DST; use a full date/time"
    );
    assert_eq!(
        refuse_skipped("t", "z"),
        "local time t does not exist in timezone z due to DST"
    );
}
