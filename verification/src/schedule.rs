//! When an alarm is due, and how that is shown.
use vstd::prelude::*;
use vstd::string::*;

use crate::calendar::{
    self, CalendarDate, ClockTime, ExplicitTime, LocalDateTime, TimeSpan, UtcTime,
};
use crate::text;
use crate::types::{self, AlarmSpec, AppResult, TimeNotation};
use crate::zone::{self, LocalInstants, Timezone, ZonedTime};

verus! {

/// Where a local time lies.
#[derive(Clone, Copy, Debug, PartialEq, Eq, Structural)]
pub enum Placement {
    /// At one instant, which is still to come.
    Due(UtcTime),
    /// At one instant, which has come.
    Past(UtcTime),
    /// At two instants.
    Repeated,
    /// At no instant.
    Skipped,
}

/// Where a local time lies that the clocks show at the given instants.
pub open spec fn placement(instants: LocalInstants, now: UtcTime) -> Placement {
    match instants {
        LocalInstants::Once(time) => if now.before(time) {
            Placement::Due(time)
        } else {
            Placement::Past(time)
        },
        LocalInstants::Twice(_, _) => Placement::Repeated,
        LocalInstants::Skipped => Placement::Skipped,
    }
}

/// Tells where a local time lies that the clocks show at the given instants.
pub fn place(instants: LocalInstants, now: UtcTime) -> (r: Placement)
    ensures
        r == placement(instants, now),
{
    match instants {
        LocalInstants::Once(time) => if now.is_before(&time) {
            Placement::Due(time)
        } else {
            Placement::Past(time)
        },
        LocalInstants::Twice(_, _) => Placement::Repeated,
        LocalInstants::Skipped => Placement::Skipped,
    }
}

/// When a time of day comes next.
#[derive(Clone, Copy, Debug, PartialEq, Eq, Structural)]
pub enum Occurrence {
    /// At an instant of this day or of the next.
    At(UtcTime),
    /// There is no next day.
    NoNextDay,
    /// On neither day, and on the last one that has not just passed the clocks show it twice.
    Repeated { next_day: bool },
    /// On neither day, and on the last one that has not just passed the clocks skip it.
    Skipped { next_day: bool },
    /// On neither day, since it has passed on both.
    AllPast,
}

/// When a time of day comes next that is placed so on this day and on the next, if there is one.
pub open spec fn occurrence(today: Placement, tomorrow: Option<Placement>) -> Occurrence {
    match (today, tomorrow) {
        (Placement::Due(time), _) => Occurrence::At(time),
        (_, None) => Occurrence::NoNextDay,
        (_, Some(Placement::Due(time))) => Occurrence::At(time),
        (_, Some(Placement::Repeated)) => Occurrence::Repeated { next_day: true },
        (_, Some(Placement::Skipped)) => Occurrence::Skipped { next_day: true },
        (Placement::Repeated, Some(Placement::Past(_))) => Occurrence::Repeated { next_day: false },
        (Placement::Skipped, Some(Placement::Past(_))) => Occurrence::Skipped { next_day: false },
        (Placement::Past(_), Some(Placement::Past(_))) => Occurrence::AllPast,
    }
}

/// Tells when a time of day comes next.
pub fn next_occurrence(today: Placement, tomorrow: Option<Placement>) -> (r: Occurrence)
    ensures
        r == occurrence(today, tomorrow),
{
    if let Placement::Due(time) = today {
        return Occurrence::At(time);
    }
    match tomorrow {
        None => Occurrence::NoNextDay,
        Some(Placement::Due(time)) => Occurrence::At(time),
        Some(Placement::Repeated) => Occurrence::Repeated { next_day: true },
        Some(Placement::Skipped) => Occurrence::Skipped { next_day: true },
        Some(Placement::Past(_)) => match today {
            Placement::Repeated => Occurrence::Repeated { next_day: false },
            Placement::Skipped => Occurrence::Skipped { next_day: false },
            _ => Occurrence::AllPast,
        },
    }
}

/// The refusal of an instant that has come, given as it is shown.
pub open spec fn past_refusal(shown: Seq<char>) -> Seq<char> {
    "alarm time "@ + shown + " is already in the past"@
}

/// Refuses an instant that has come.
pub fn refuse_past(shown: &str) -> (r: String)
    ensures
        r@ == past_refusal(shown@),
{
    text::concat3("alarm time ", shown, " is already in the past")
}

/// The refusal of a local time that the clocks show twice, given as it is shown.
pub open spec fn repeated_refusal(
    shown: Seq<char>,
    zone: Seq<char>,
    advice: Seq<char>,
) -> Seq<char> {
    "local time "@ + shown + " is ambiguous in timezone "@ + zone + " due to DST; use a "@ + advice
}

/// Refuses a local time that the clocks show twice.
pub fn refuse_repeated(shown: &str, zone: &str, advice: &str) -> (r: String)
    ensures
        r@ == repeated_refusal(shown@, zone@, advice@),
{
    let mut out = text::concat5(
        "local time ",
        shown,
        " is ambiguous in timezone ",
        zone,
        " due to DST; use a ",
    );
    out.append(advice);
    out
}

/// The refusal of a local time that the clocks skip, given as it is shown.
pub open spec fn skipped_refusal(shown: Seq<char>, zone: Seq<char>) -> Seq<char> {
    "local time "@ + shown + " does not exist in timezone "@ + zone + " due to DST"@
}

/// Refuses a local time that the clocks skip.
pub fn refuse_skipped(shown: &str, zone: &str) -> (r: String)
    ensures
        r@ == skipped_refusal(shown@, zone@),
{
    text::concat5("local time ", shown, " does not exist in timezone ", zone, " due to DST")
}

/// An instant as it is shown in a refusal: in RFC 3339, with the offset of the zone.
pub open spec fn stamp(zone: Seq<char>, time: UtcTime) -> Seq<char> {
    zone::zone_rfc3339(zone, time.secs as int, time.nanos as int)
}

/// The instant of a local date and time, which must be the only one and still to come.
pub open spec fn local_alarm(zone: Seq<char>, local: LocalDateTime, now: UtcTime) -> Result<
    UtcTime,
    Seq<char>,
> {
    match placement(zone::instants_of(zone, local), now) {
        Placement::Due(time) => Ok(time),
        Placement::Past(time) => Err(past_refusal(stamp(zone, time))),
        Placement::Repeated => Err(
            repeated_refusal(calendar::local_text_of(local), zone, "more explicit time"@),
        ),
        Placement::Skipped => Err(skipped_refusal(calendar::local_text_of(local), zone)),
    }
}

/// Finds the instant of a local date and time.
fn resolve_local_datetime(local: LocalDateTime, timezone: &Timezone, now: UtcTime) -> (r: AppResult<
    UtcTime,
>)
    requires
        local.wf(),
    ensures
        types::outcome(r) == local_alarm(timezone@, local, now),
        r matches Ok(time) ==> time.wf() && zone::local_at(timezone@, time) == Some(local),
{
    match place(timezone.instants(local), now) {
        Placement::Due(time) => Ok(time),
        Placement::Past(time) => Err(refuse_past(timezone.rfc3339(time).as_str())),
        Placement::Repeated => {
            let shown = calendar::write_local(local);
            Err(refuse_repeated(shown.as_str(), timezone.name(), "more explicit time"))
        },
        Placement::Skipped => {
            let shown = calendar::write_local(local);
            Err(refuse_skipped(shown.as_str(), timezone.name()))
        },
    }
}

/// Where a time of day of the given date lies.
pub open spec fn placed_on(
    zone: Seq<char>,
    date: CalendarDate,
    time: ClockTime,
    now: UtcTime,
) -> Placement {
    placement(zone::instants_of(zone, LocalDateTime { date, time }), now)
}

/// When a time of day comes next in a zone.
pub open spec fn occurrence_in(zone: Seq<char>, time: ClockTime, now: ZonedTime) -> Occurrence {
    occurrence(
        placed_on(zone, now.local->0.date, time, now.instant),
        match calendar::next_day(now.local->0.date) {
            Some(date) => Some(placed_on(zone, date, time, now.instant)),
            None => None,
        },
    )
}

/// A time of day on this day or on the next.
pub open spec fn on_day(time: ClockTime, now: ZonedTime, next_day: bool) -> LocalDateTime {
    LocalDateTime {
        date: if next_day {
            calendar::next_day(now.local->0.date)->0
        } else {
            now.local->0.date
        },
        time,
    }
}

/// The next instant of a time of day, on this day or on the next.
pub open spec fn time_of_day_alarm(zone: Seq<char>, time: ClockTime, now: ZonedTime) -> Result<
    UtcTime,
    Seq<char>,
> {
    match occurrence_in(zone, time, now) {
        Occurrence::At(instant) => Ok(instant),
        Occurrence::NoNextDay => Err("failed to compute alarm date"@),
        Occurrence::Repeated { next_day } => Err(
            repeated_refusal(
                calendar::local_text_of(on_day(time, now, next_day)),
                zone,
                "full date/time"@,
            ),
        ),
        Occurrence::Skipped { next_day } => Err(
            skipped_refusal(calendar::local_text_of(on_day(time, now, next_day)), zone),
        ),
        Occurrence::AllPast => Err("failed to schedule time-only alarm"@),
    }
}

/// Finds the next instant of a time of day.
fn resolve_time_of_day(time: ClockTime, timezone: &Timezone, now: ZonedTime) -> (r: AppResult<
    UtcTime,
>)
    requires
        time.wf(),
        now.wf(),
        now.local is Some,
    ensures
        types::outcome(r) == time_of_day_alarm(timezone@, time, now),
        r matches Ok(instant) ==> {
            &&& instant.wf()
            &&& {
                ||| zone::local_at(timezone@, instant) == Some(on_day(time, now, false))
                ||| zone::local_at(timezone@, instant) == Some(on_day(time, now, true))
            }
        },
{
    let shown = now.local.unwrap();
    let date = match calendar::date_after(shown.date, 0) {
        Some(date) => date,
        None => {
            return Err("failed to compute alarm date".to_string());
        },
    };
    let today = LocalDateTime { date, time };
    let first = place(timezone.instants(today), now.instant);
    let tomorrow = match calendar::date_after(shown.date, 1) {
        Some(date) => Some(LocalDateTime { date, time }),
        None => None,
    };
    let second = match tomorrow {
        Some(local) => Some(place(timezone.instants(local), now.instant)),
        None => None,
    };
    match next_occurrence(first, second) {
        Occurrence::At(instant) => Ok(instant),
        Occurrence::NoNextDay => Err("failed to compute alarm date".to_string()),
        Occurrence::Repeated { next_day } => {
            let local = if next_day {
                tomorrow.unwrap()
            } else {
                today
            };
            let shown = calendar::write_local(local);
            Err(refuse_repeated(shown.as_str(), timezone.name(), "full date/time"))
        },
        Occurrence::Skipped { next_day } => {
            let local = if next_day {
                tomorrow.unwrap()
            } else {
                today
            };
            let shown = calendar::write_local(local);
            Err(refuse_skipped(shown.as_str(), timezone.name()))
        },
        Occurrence::AllPast => Err("failed to schedule time-only alarm".to_string()),
    }
}

/// The instant at which a span from `now` on ends.
pub open spec fn span_alarm(span: TimeSpan, now: UtcTime) -> Result<UtcTime, Seq<char>> {
    if span.fits_delta() {
        let end = calendar::later(now, span);
        Ok(UtcTime { secs: end.0 as i64, nanos: end.1 as u32 })
    } else {
        Err("duration is too large to schedule"@)
    }
}

/// When an alarm is due.
pub open spec fn alarm_time(spec: AlarmSpec, zone: Seq<char>, now: ZonedTime) -> Result<
    UtcTime,
    Seq<char>,
> {
    match spec {
        AlarmSpec::Duration(span) => span_alarm(span, now.instant),
        AlarmSpec::Explicit(time) => if now.instant.before(time.instant) {
            Ok(time.instant)
        } else {
            Err(past_refusal(stamp(zone, time.instant)))
        },
        AlarmSpec::Absolute(local) => local_alarm(zone, local, now.instant),
        AlarmSpec::TimeOfDay(time) => time_of_day_alarm(zone, time, now),
    }
}

/// Whether what an alarm depends on can be represented: the end of a span, and for a time of day
/// the date of today.
pub open spec fn can_be_due(spec: AlarmSpec, now: ZonedTime) -> bool {
    match spec {
        AlarmSpec::Duration(span) => calendar::addition_is_defined(now.instant, span),
        AlarmSpec::TimeOfDay(_) => now.local is Some,
        AlarmSpec::Explicit(_) | AlarmSpec::Absolute(_) => true,
    }
}

/// Tells whether `can_be_due` holds.
pub fn is_plannable(spec: AlarmSpec, now: ZonedTime) -> (r: bool)
    requires
        spec.wf(),
        now.wf(),
    ensures
        r == can_be_due(spec, now),
{
    match spec {
        AlarmSpec::Duration(span) => calendar::can_add(now.instant, span),
        AlarmSpec::TimeOfDay(_) => now.local.is_some(),
        AlarmSpec::Explicit(_) | AlarmSpec::Absolute(_) => true,
    }
}

/// Finds when an alarm is due. An alarm at a local date and time is due when the clocks show it,
/// and one at a time of day when they show it on this day or on the next.
pub fn resolve_alarm_with_now(
    spec: AlarmSpec,
    timezone: &Timezone,
    now: ZonedTime,
) -> (r: AppResult<UtcTime>)
    requires
        spec.wf(),
        now.wf(),
        can_be_due(spec, now),
    ensures
        types::outcome(r) == alarm_time(spec, timezone@, now),
        r matches Ok(time) ==> time.wf(),
        spec matches AlarmSpec::Absolute(local) ==> (r matches Ok(time) ==> zone::local_at(
            timezone@,
            time,
        ) == Some(local)),
        spec matches AlarmSpec::TimeOfDay(clock) ==> (r matches Ok(time) ==> {
            ||| zone::local_at(timezone@, time) == Some(on_day(clock, now, false))
            ||| zone::local_at(timezone@, time) == Some(on_day(clock, now, true))
        }),
{
    match spec {
        AlarmSpec::Duration(span) => {
            if !calendar::delta_takes(span) {
                return Err("duration is too large to schedule".to_string());
            }
            match calendar::instant_after(now.instant, span) {
                Some(time) => Ok(time),
                None => Err("duration is too large to schedule".to_string()),
            }
        },
        AlarmSpec::Explicit(time) => {
            if now.instant.is_before(&time.instant) {
                Ok(time.instant)
            } else {
                Err(refuse_past(timezone.rfc3339(time.instant).as_str()))
            }
        },
        AlarmSpec::Absolute(local) => resolve_local_datetime(local, timezone, now.instant),
        AlarmSpec::TimeOfDay(time) => resolve_time_of_day(time, timezone, now),
    }
}

/// An alarm at a given instant, at a local date and time or at a time of day is due after now.
pub proof fn law_alarm_is_still_to_come(spec: AlarmSpec, zone: Seq<char>, now: ZonedTime)
    requires
        spec !is Duration,
    ensures
        alarm_time(spec, zone, now) matches Ok(time) ==> now.instant.before(time),
{
}

/// An alarm after a span is due when exactly that span is over. The one exception is a span from
/// inside a leap second to a time of a later day that is no later in its day: such a leap second
/// is not counted in the time between the two.
pub proof fn law_span_alarm_is_exact(span: TimeSpan, zone: Seq<char>, now: ZonedTime)
    requires
        span.wf(),
        now.wf(),
        can_be_due(AlarmSpec::Duration(span), now),
    ensures
        alarm_time(AlarmSpec::Duration(span), zone, now) matches Ok(time) ==> (calendar::remaining(
            now.instant,
            time,
        ) == span.total() <==> {
            ||| now.instant.nanos < calendar::NANOS_PER_SEC
            ||| time.nanos >= calendar::NANOS_PER_SEC
            ||| calendar::second_of_day(now.instant) < calendar::second_of_day(time)
        }),
{
}

/// An alarm after a span is not due before now, and is due after now if the span is not empty.
pub proof fn law_span_alarm_is_not_past(span: TimeSpan, zone: Seq<char>, now: ZonedTime)
    requires
        span.wf(),
        now.wf(),
        can_be_due(AlarmSpec::Duration(span), now),
    ensures
        alarm_time(AlarmSpec::Duration(span), zone, now) matches Ok(time) ==> {
            &&& !time.before(now.instant)
            &&& span.total() > 0 ==> now.instant.before(time)
        },
{
}

/// An alarm at a time of day is due today if that is still to come, and otherwise tomorrow,
/// wherever the clocks show the time once on the day in question.
pub proof fn law_time_of_day_today_or_tomorrow(zone: Seq<char>, time: ClockTime, now: ZonedTime)
    requires
        now.local is Some,
    ensures
        placed_on(zone, now.local->0.date, time, now.instant) matches Placement::Due(today)
            ==> alarm_time(AlarmSpec::TimeOfDay(time), zone, now) == Ok::<UtcTime, Seq<char>>(
            today,
        ),
        placed_on(zone, now.local->0.date, time, now.instant) !is Due ==> (calendar::next_day(
            now.local->0.date,
        ) matches Some(date) ==> (placed_on(zone, date, time, now.instant) matches Placement::Due(
            tomorrow,
        ) ==> alarm_time(AlarmSpec::TimeOfDay(time), zone, now) == Ok::<UtcTime, Seq<char>>(
            tomorrow,
        ))),
{
}

/// How an instant is shown in a zone.
pub open spec fn shown(zone: Seq<char>, time: UtcTime, notation: TimeNotation) -> Seq<char> {
    zone::zone_format(
        zone,
        time.secs as int,
        time.nanos as int,
        match notation {
            TimeNotation::H24 => zone::PATTERN_24H@,
            TimeNotation::H12 => zone::PATTERN_12H@,
        },
    )
}

/// Appends an instant as it is shown in a zone.
pub fn write_alarm_time(
    timezone: &Timezone,
    time: UtcTime,
    notation: TimeNotation,
    out: &mut String,
)
    requires
        time.wf(),
    ensures
        final(out)@ == old(out)@ + shown(timezone@, time, notation),
{
    let face = match notation {
        TimeNotation::H24 => timezone.clock_face(time, false),
        TimeNotation::H12 => timezone.clock_face(time, true),
    };
    out.append(face.as_str());
}

/// Writes an instant as it is shown in a zone.
pub fn format_alarm_time(timezone: &Timezone, time: UtcTime, notation: TimeNotation) -> (r: String)
    requires
        time.wf(),
    ensures
        r@ == shown(timezone@, time, notation),
{
    let mut rendered = String::new();
    write_alarm_time(timezone, time, notation, &mut rendered);
    assert(rendered@ =~= shown(timezone@, time, notation));
    rendered
}

/// Whether one instant comes after another: in a later second, or later in the same second.
pub open spec fn comes_after(time: UtcTime, now: UtcTime) -> bool {
    time.secs > now.secs || (time.secs == now.secs && time.nanos > now.nanos)
}

/// An alarm at an instant that was written with its offset is due at that very instant, whatever the
/// offset, the time zone and the clocks, and is refused exactly if that instant is not after now.
pub proof fn law_written_instant_is_kept(
    time: ExplicitTime,
    offset_seconds: i32,
    zone: Seq<char>,
    now: ZonedTime,
)
    ensures
        match alarm_time(AlarmSpec::Explicit(time), zone, now) {
            Ok(due) => due == time.instant && comes_after(time.instant, now.instant),
            Err(_) => !comes_after(time.instant, now.instant),
        },
        alarm_time(
            AlarmSpec::Explicit(ExplicitTime { instant: time.instant, offset_seconds }),
            zone,
            now,
        ) == alarm_time(AlarmSpec::Explicit(time), zone, now),
{
}

/// What the clocks of a zone give for a date and a time of day.
pub open spec fn shown_at(zone: Seq<char>, date: CalendarDate, time: ClockTime) -> LocalInstants {
    zone::zone_instants(
        zone,
        date.year as int,
        date.month as int,
        date.day as int,
        time.second as int,
        time.nanos as int,
    )
}

/// An alarm at a local date and time is due at the one instant at which the clocks show it, if that
/// is after now, and is refused where it is not, where the clocks show it twice and where they skip
/// it.
pub proof fn law_local_alarm_is_due_once(local: LocalDateTime, zone: Seq<char>, now: ZonedTime)
    ensures
        match (
            shown_at(zone, local.date, local.time),
            alarm_time(AlarmSpec::Absolute(local), zone, now),
        ) {
            (LocalInstants::Once(time), Ok(due)) => due == time && comes_after(time, now.instant),
            (LocalInstants::Once(time), Err(_)) => !comes_after(time, now.instant),
            (LocalInstants::Twice(_, _), answer) => answer is Err,
            (LocalInstants::Skipped, answer) => answer is Err,
        },
{
}

/// An alarm at a time of day is due today if the clocks show it once today and that is after now,
/// or else tomorrow if they show it once tomorrow and that is after now, and is refused otherwise.
pub proof fn law_time_of_day_is_due_next(
    time: ClockTime,
    zone: Seq<char>,
    now: ZonedTime,
    today: CalendarDate,
    tomorrow: CalendarDate,
)
    requires
        now.local matches Some(shown) && shown.date == today,
        calendar::next_day(today) == Some(tomorrow),
    ensures
        ({
            let answer = alarm_time(AlarmSpec::TimeOfDay(time), zone, now);
            match shown_at(zone, today, time) {
                LocalInstants::Once(first) if comes_after(first, now.instant) => answer == Ok::<
                    UtcTime,
                    Seq<char>,
                >(first),
                _ => match shown_at(zone, tomorrow, time) {
                    LocalInstants::Once(second) if comes_after(second, now.instant) => answer
                        == Ok::<UtcTime, Seq<char>>(second),
                    _ => answer is Err,
                },
            }
        }),
{
}

/// Without a next day an alarm at a time of day is due today or refused.
pub proof fn law_time_of_day_on_the_last_day(
    time: ClockTime,
    zone: Seq<char>,
    now: ZonedTime,
    today: CalendarDate,
)
    requires
        now.local matches Some(shown) && shown.date == today,
        calendar::next_day(today) is None,
    ensures
        match shown_at(zone, today, time) {
            LocalInstants::Once(first) if comes_after(first, now.instant) => alarm_time(
                AlarmSpec::TimeOfDay(time),
                zone,
                now,
            ) == Ok::<UtcTime, Seq<char>>(first),
            _ => alarm_time(AlarmSpec::TimeOfDay(time), zone, now) is Err,
        },
{
}

/// Outside of leap seconds an alarm after a span is due that many nanoseconds after now, and only a
/// span of more than `i64::MAX` milliseconds is refused. The zone and its clocks play no part.
pub proof fn law_span_is_added(span: TimeSpan, zone: Seq<char>, now: ZonedTime)
    requires
        span.wf(),
        now.instant.wf(),
        now.instant.nanos < 1_000_000_000,
        now.instant.secs + span.secs < 8_210_266_876_799,
    ensures
        alarm_time(AlarmSpec::Duration(span), zone, now) matches Ok(due)
            && due.nanos < 1_000_000_000 && due.secs * 1_000_000_000 + due.nanos
            == now.instant.secs * 1_000_000_000 + now.instant.nanos + span.secs * 1_000_000_000
            + span.nanos,
{
}

/// A span of more than `i64::MAX` milliseconds is refused.
pub proof fn law_long_span_is_refused(span: TimeSpan, zone: Seq<char>, now: ZonedTime)
    ensures
        span.secs * 1_000_000_000 + span.nanos > 9_223_372_036_854_775_807 * 1_000_000
            <==> alarm_time(AlarmSpec::Duration(span), zone, now) is Err,
{
}

/// Only a span can lead past what can be represented, and only a time of day needs the date of
/// today.
pub proof fn law_what_can_be_due(spec: AlarmSpec, now: ZonedTime)
    ensures
        spec is Explicit || spec is Absolute ==> can_be_due(spec, now),
        spec is TimeOfDay ==> (can_be_due(spec, now) <==> now.local is Some),
        spec matches AlarmSpec::Duration(span) ==> (span.wf() && now.instant.wf()
            && now.instant.nanos < 1_000_000_000 && span.secs * 1_000_000_000 + span.nanos
            <= 9_223_372_036_854_775_807 * 1_000_000 ==> (can_be_due(spec, now) <==> now.instant.secs
            * 1_000_000_000 + now.instant.nanos + span.secs * 1_000_000_000 + span.nanos
            < 8_210_266_876_800 * 1_000_000_000)),
{
}

/// The refusal of an instant that has come shows that instant, and the refusal of a local time that
/// the clocks skip or repeat shows that time.
pub proof fn law_refusals_show_the_time(
    time: ExplicitTime,
    local: LocalDateTime,
    zone: Seq<char>,
    now: ZonedTime,
)
    ensures
        alarm_time(AlarmSpec::Explicit(time), zone, now) matches Err(refusal) ==> refusal
            == "alarm time "@ + zone::zone_rfc3339(
            zone,
            time.instant.secs as int,
            time.instant.nanos as int,
        ) + " is already in the past"@,
        alarm_time(AlarmSpec::Absolute(local), zone, now) matches Err(refusal) ==> match shown_at(
            zone,
            local.date,
            local.time,
        ) {
            LocalInstants::Once(past) => refusal == "alarm time "@ + zone::zone_rfc3339(
                zone,
                past.secs as int,
                past.nanos as int,
            ) + " is already in the past"@,
            LocalInstants::Twice(_, _) => refusal == "local time "@ + calendar::local_text_of(local)
                + " is ambiguous in timezone "@ + zone + " due to DST; use a "@
                + "more explicit time"@,
            LocalInstants::Skipped => refusal == "local time "@ + calendar::local_text_of(local)
                + " does not exist in timezone "@ + zone + " due to DST"@,
        },
{
}

/// An instant is shown by its date and its time of day on the clocks of the zone, with twelve hours
/// and the half of the day in one notation and with 24 hours in the other.
pub proof fn law_shown_by_notation(zone: Seq<char>, time: UtcTime)
    ensures
        shown(zone, time, TimeNotation::H24) == zone::zone_format(
            zone,
            time.secs as int,
            time.nanos as int,
            "%Y-%m-%d %H:%M:%S %Z"@,
        ),
        shown(zone, time, TimeNotation::H12) == zone::zone_format(
            zone,
            time.secs as int,
            time.nanos as int,
            "%Y-%m-%d %I:%M:%S %p %Z"@,
        ),
{
}

/// An alarm at a time of day that is due on neither day is refused for what is in its way: that the
/// clocks skip it or show it twice on the next day, or else on this day, or else that it has passed
/// on both.
pub proof fn law_time_of_day_refusals(
    time: ClockTime,
    zone: Seq<char>,
    now: ZonedTime,
    today: CalendarDate,
    tomorrow: CalendarDate,
)
    requires
        now.local matches Some(shown) && shown.date == today,
        calendar::next_day(today) == Some(tomorrow),
    ensures
        alarm_time(AlarmSpec::TimeOfDay(time), zone, now) matches Err(refusal) ==> {
            let twice = |date: CalendarDate|
                "local time "@ + calendar::local_text_of(LocalDateTime { date, time })
                    + " is ambiguous in timezone "@ + zone + " due to DST; use a "@
                    + "full date/time"@;
            let never = |date: CalendarDate|
                "local time "@ + calendar::local_text_of(LocalDateTime { date, time })
                    + " does not exist in timezone "@ + zone + " due to DST"@;
            match (shown_at(zone, today, time), shown_at(zone, tomorrow, time)) {
                (_, LocalInstants::Twice(_, _)) => refusal == twice(tomorrow),
                (_, LocalInstants::Skipped) => refusal == never(tomorrow),
                (LocalInstants::Twice(_, _), _) => refusal == twice(today),
                (LocalInstants::Skipped, _) => refusal == never(today),
                (LocalInstants::Once(_), LocalInstants::Once(_)) => refusal
                    == "failed to schedule time-only alarm"@,
            }
        },
{
}

} // verus!
