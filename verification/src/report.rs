//! What the program prints, and what it decides to do with an alarm that is asked for or that is to
//! be stopped.
use vstd::prelude::*;
use vstd::string::*;

use crate::calendar::{self, ExplicitTime, TimeSpan, UtcTime};
use crate::display::{self, format_remaining_human_into};
use crate::parse;
use crate::paths;
use crate::schedule::{self, format_alarm_time, is_plannable, resolve_alarm_with_now};
use crate::state::{self, parse_state_target_utc, resolve_alarm_selector};
use crate::text;
use crate::types::{
    self, ActiveAlarmState, AlarmNotificationConfig, AlarmSpec, AlarmStateView, AppResult, Config,
    ConfigView, DateParseConfig, RunMode, TimeNotation,
};
use crate::zone::{self, Timezone};

verus! {

/// The width of the heading of a section, in bytes.
pub const SECTION_WIDTH: usize = 56;

/// A text of hyphens.
pub open spec fn hyphens(count: nat) -> Seq<char> {
    Seq::new(count, |i: int| '-')
}

/// The heading of a section: its title, filled up with hyphens to the width, and with four of them
/// at least.
pub open spec fn section(title: Seq<char>) -> Seq<char> {
    let prefix = "== "@ + title + " "@;
    let missing = SECTION_WIDTH - paths::bytes_of(prefix).len();
    prefix + hyphens(if missing > 4 {
        missing as nat
    } else {
        4
    })
}

/// Writes the heading of a section.
pub fn section_line(title: &str) -> (r: String)
    ensures
        r@ == section(title@),
{
    let mut out = text::concat3("== ", title, " ");
    let ghost prefix = out@;
    let width = out.as_str().as_bytes().len();
    let count: usize = if width < SECTION_WIDTH && SECTION_WIDTH - width > 4 {
        SECTION_WIDTH - width
    } else {
        4
    };
    let mut i: usize = 0;
    assert(out@ =~= prefix + hyphens(0));
    while i < count
        invariant
            i <= count,
            out@ == prefix + hyphens(i as nat),
        decreases count - i,
    {
        out.append("-");
        proof {
            reveal_strlit("-");
            assert(out@ =~= prefix + hyphens((i + 1) as nat));
        }
        i = i + 1;
    }
    out
}

/// The heading of a part of a section.
pub fn subsection_line(title: &str) -> (r: String)
    ensures
        r@ == "-- "@ + title@,
{
    text::concat2("-- ", title)
}

/// A text filled up with spaces to a width, in characters.
pub open spec fn padded(s: Seq<char>, width: nat) -> Seq<char> {
    if s.len() < width {
        s + Seq::new((width - s.len()) as nat, |i: int| ' ')
    } else {
        s
    }
}

/// A line that gives a value to a label.
pub open spec fn detail(label: Seq<char>, value: Seq<char>) -> Seq<char> {
    "  "@ + padded(label + ":"@, 12) + " "@ + value
}

fn push_padded(out: &mut String, s: &str, width: usize)
    ensures
        final(out)@ == old(out)@ + padded(s@, width as nat),
{
    let ghost before = out@;
    out.append(s);
    let mut length = s.unicode_len();
    let ghost first = length as int;
    assert(out@ =~= before + (s@ + Seq::new(0, |i: int| ' ')));
    while length < width
        invariant
            first == s@.len(),
            first <= length,
            first < width ==> length <= width,
            first >= width ==> length == first,
            out@ == before + (s@ + Seq::new((length - first) as nat, |i: int| ' ')),
        decreases width - length,
    {
        out.append(" ");
        proof {
            reveal_strlit(" ");
            assert(out@ =~= before + (s@ + Seq::new((length + 1 - first) as nat, |i: int| ' ')));
        }
        length = length + 1;
    }
    assert(out@ =~= before + padded(s@, width as nat));
}

/// Writes a line that gives a value to a label.
pub fn detail_line(label: &str, value: &str) -> (r: String)
    ensures
        r@ == detail(label@, value@),
{
    let mut out = "  ".to_string();
    let name = text::concat2(label, ":");
    push_padded(&mut out, name.as_str(), 12);
    out.append(" ");
    out.append(value);
    out
}

/// The word for a mode.
pub fn mode_label(mode: RunMode) -> (r: &'static str)
    ensures
        r@ == types::run_mode_word(mode),
{
    match mode {
        RunMode::Background => "background",
        RunMode::Foreground => "foreground",
    }
}

/// The whole seconds nearest to a span, up to the largest that fits.
pub open spec fn rounded_seconds(span: TimeSpan) -> int {
    if span.nanos >= 500_000_000 && span.secs < u64::MAX {
        span.secs + 1
    } else {
        span.secs as int
    }
}

/// A span in words, to the nearest second.
pub open spec fn pretty_span(span: TimeSpan) -> Seq<char> {
    if rounded_seconds(span) == 0 {
        if span.total() > 0 {
            "less than 1s"@
        } else {
            "0s"@
        }
    } else {
        display::human_after(Seq::empty(), rounded_seconds(span))
    }
}

/// Writes a span in words.
pub fn format_pretty_duration(span: TimeSpan) -> (r: String)
    ensures
        r@ == pretty_span(span),
{
    let seconds: u64 = if span.nanos >= 500_000_000 && span.secs < u64::MAX {
        span.secs + 1
    } else {
        span.secs
    };
    if seconds == 0 {
        if span.secs > 0 || span.nanos > 0 {
            return "less than 1s".to_string();
        }
        return "0s".to_string();
    }
    let mut rendered = String::new();
    assert(rendered@ =~= Seq::<char>::empty());
    format_remaining_human_into(seconds, &mut rendered);
    rendered
}

fn push_line(lines: &mut Vec<String>, line: String)
    ensures
        text::texts(final(lines)@) == text::texts(old(lines)@).push(line@),
{
    let ghost before = text::texts(lines@);
    lines.push(line);
    assert(text::texts(lines@) =~= before.push(line@));
}

fn no_lines() -> (r: Vec<String>)
    ensures
        text::texts(r@) == Seq::<Seq<char>>::empty(),
{
    let lines: Vec<String> = Vec::new();
    assert(text::texts(lines@) =~= Seq::<Seq<char>>::empty());
    lines
}

/// When an alarm is due, or why it is not.
#[derive(Debug)]
pub enum Plan {
    Due(UtcTime),
    Refused(String),
    /// What the alarm depends on cannot be represented: the end of a span, or for a time of day the
    /// date of today.
    Unrepresentable,
}

/// The view of a `Plan`.
#[verifier::ext_equal]
pub enum PlanView {
    Due(UtcTime),
    Refused(Seq<char>),
    Unrepresentable,
}

impl View for Plan {
    type V = PlanView;

    open spec fn view(&self) -> PlanView {
        match *self {
            Plan::Due(time) => PlanView::Due(time),
            Plan::Refused(refusal) => PlanView::Refused(refusal@),
            Plan::Unrepresentable => PlanView::Unrepresentable,
        }
    }
}

/// When an alarm is due that is asked for at an instant, by what the clocks of the zone show then.
pub open spec fn plan_at(spec: AlarmSpec, zone: Seq<char>, now: UtcTime) -> PlanView {
    let zoned = zone::on_clocks(zone, now);
    if schedule::can_be_due(spec, zoned) {
        match schedule::alarm_time(spec, zone, zoned) {
            Ok(time) => PlanView::Due(time),
            Err(refusal) => PlanView::Refused(refusal),
        }
    } else {
        PlanView::Unrepresentable
    }
}

/// Finds when an alarm is due that is asked for at an instant.
pub fn plan_alarm(spec: AlarmSpec, timezone: &Timezone, now: UtcTime) -> (r: Plan)
    requires
        spec.wf(),
        now.wf(),
    ensures
        r@ == plan_at(spec, timezone@, now),
        r matches Plan::Due(time) ==> time.wf(),
{
    let zoned = timezone.at(now);
    if !is_plannable(spec, zoned) {
        return Plan::Unrepresentable;
    }
    match resolve_alarm_with_now(spec, timezone, zoned) {
        Ok(time) => Plan::Due(time),
        Err(refusal) => Plan::Refused(refusal),
    }
}

/// What is done with an alarm that is asked for.
#[derive(Clone, Copy, Debug, PartialEq, Eq, Structural)]
pub enum Course {
    /// It is shown and not started.
    Preview,
    Foreground,
    Background,
}

/// What is done with an alarm that is asked for: the mode on the command line goes before the one
/// that is set.
pub open spec fn course_for(
    dry_run: bool,
    mode_override: Option<RunMode>,
    configured: RunMode,
) -> Course {
    if dry_run {
        Course::Preview
    } else {
        match types::mode_in_effect(mode_override, configured) {
            RunMode::Foreground => Course::Foreground,
            RunMode::Background => Course::Background,
        }
    }
}

/// Decides what is done with an alarm that is asked for.
pub fn choose_course(
    dry_run: bool,
    mode_override: Option<RunMode>,
    configured: RunMode,
) -> (r: Course)
    ensures
        r == course_for(dry_run, mode_override, configured),
{
    if dry_run {
        return Course::Preview;
    }
    match RunMode::resolve(mode_override, configured) {
        RunMode::Foreground => Course::Foreground,
        RunMode::Background => Course::Background,
    }
}

/// What is printed of an alarm that is asked for, line by line, before it is started.
pub open spec fn alarm_lines(
    course: Course,
    spec_text: Seq<char>,
    target: Seq<char>,
    remaining: TimeSpan,
    mode: RunMode,
) -> Seq<Seq<char>> {
    let title = if course == Course::Preview {
        "Alarm Preview"@
    } else {
        "Alarm Ready"@
    };
    let lines = seq![
        section(title),
        detail("Input"@, spec_text),
        detail("Target"@, target),
        detail("Remaining"@, pretty_span(remaining)),
        detail("Mode"@, types::run_mode_word(mode)),
    ];
    match course {
        Course::Preview => lines + seq![Seq::empty(), "Preview only. No alarm started."@],
        Course::Foreground => lines + seq![
            Seq::empty(),
            "Foreground mode. Press Ctrl-C to cancel or stop the ringing alarm."@,
        ],
        Course::Background => lines,
    }
}

/// Writes what is printed of an alarm that is asked for.
pub fn alarm_report(
    course: Course,
    spec_text: &str,
    target: &str,
    remaining: TimeSpan,
    mode: RunMode,
) -> (r: Vec<String>)
    ensures
        text::texts(r@) == alarm_lines(course, spec_text@, target@, remaining, mode),
{
    let mut lines = no_lines();
    let title = match course {
        Course::Preview => "Alarm Preview",
        _ => "Alarm Ready",
    };
    push_line(&mut lines, section_line(title));
    push_line(&mut lines, detail_line("Input", spec_text));
    push_line(&mut lines, detail_line("Target", target));
    let left = format_pretty_duration(remaining);
    push_line(&mut lines, detail_line("Remaining", left.as_str()));
    push_line(&mut lines, detail_line("Mode", mode_label(mode)));
    match course {
        Course::Preview => {
            push_line(&mut lines, String::new());
            push_line(&mut lines, "Preview only. No alarm started.".to_string());
        },
        Course::Foreground => {
            push_line(&mut lines, String::new());
            push_line(
                &mut lines,
                "Foreground mode. Press Ctrl-C to cancel or stop the ringing alarm.".to_string(),
            );
        },
        Course::Background => {},
    }
    assert(text::texts(lines@) =~~= alarm_lines(course, spec_text@, target@, remaining, mode));
    lines
}

/// What is to be done for an alarm that is asked for.
#[derive(Debug)]
pub struct AlarmOrder {
    pub course: Course,
    pub target: UtcTime,
    pub notifications: AlarmNotificationConfig,
    /// What is printed before it is started.
    pub report: Vec<String>,
}

/// The view of an `AlarmOrder`.
pub struct OrderView {
    pub course: Course,
    pub target: UtcTime,
    pub notifications: AlarmNotificationConfig,
    pub report: Seq<Seq<char>>,
}

impl View for AlarmOrder {
    type V = OrderView;

    open spec fn view(&self) -> OrderView {
        OrderView {
            course: self.course,
            target: self.target,
            notifications: self.notifications,
            report: text::texts(self.report@),
        }
    }
}

/// What is to be done for an alarm with the given target, by the settings and the command line. The
/// time that is left is the one at the instant of the report.
pub open spec fn order_for(
    config: ConfigView,
    zone: Seq<char>,
    spec_text: Seq<char>,
    target: UtcTime,
    dry_run: bool,
    mode_override: Option<RunMode>,
    reported_at: UtcTime,
) -> OrderView {
    let course = course_for(dry_run, mode_override, config.default_mode);
    OrderView {
        course,
        target,
        notifications: types::alarm_notifications(config.notifications),
        report: alarm_lines(
            course,
            spec_text,
            schedule::shown(zone, target, config.time_notation),
            span_of(calendar::remaining(reported_at, target)),
            types::mode_in_effect(mode_override, config.default_mode),
        ),
    }
}

/// The time left until a target, as it is reported.
fn span_left(now: UtcTime, target: UtcTime) -> (r: TimeSpan)
    requires
        now.wf(),
        target.wf(),
    ensures
        r == span_of(calendar::remaining(now, target)),
{
    let left = calendar::time_left(now, target);
    assert(left == span_of(left.total()));
    left
}

/// Decides what is to be done for an alarm with the given target, shown in the given time zone.
pub fn order_alarm(
    config: &Config,
    timezone: &Timezone,
    spec_text: &str,
    target: UtcTime,
    dry_run: bool,
    mode_override: Option<RunMode>,
    reported_at: UtcTime,
) -> (r: AlarmOrder)
    requires
        target.wf(),
        reported_at.wf(),
    ensures
        r@ == order_for(
            config@,
            timezone@,
            spec_text@,
            target,
            dry_run,
            mode_override,
            reported_at,
        ),
{
    let remaining = span_left(reported_at, target);
    let course = choose_course(dry_run, mode_override, config.default_mode);
    let mode = RunMode::resolve(mode_override, config.default_mode);
    let shown = format_alarm_time(timezone, target, config.time_notation);
    AlarmOrder {
        course,
        target,
        notifications: AlarmNotificationConfig::from(config.notifications),
        report: alarm_report(course, spec_text, shown.as_str(), remaining, mode),
    }
}

/// What is printed of a background alarm that was started, line by line.
pub open spec fn background_lines(id: Seq<char>, pid: u32) -> Seq<Seq<char>> {
    seq![
        Seq::empty(),
        section("Background Worker"@),
        detail("ID"@, id),
        detail("PID"@, text::decimal(pid as int)),
        detail("Stop"@, "tix stop "@ + id),
    ]
}

/// Writes what is printed of a background alarm that was started.
pub fn background_report(id: &str, pid: u32) -> (r: Vec<String>)
    ensures
        text::texts(r@) == background_lines(id@, pid),
{
    let mut lines = no_lines();
    push_line(&mut lines, String::new());
    push_line(&mut lines, section_line("Background Worker"));
    push_line(&mut lines, detail_line("ID", id));
    let number = text::decimal_text(pid as u64);
    push_line(&mut lines, detail_line("PID", number.as_str()));
    let command = text::concat2("tix stop ", id);
    push_line(&mut lines, detail_line("Stop", command.as_str()));
    assert(text::texts(lines@) =~~= background_lines(id@, pid));
    lines
}

/// What is printed where there is no alarm.
pub const NO_ALARMS: &'static str = "No active alarms.";

/// The lines for one alarm that is under way, which is the given one in the list, with its target as
/// it is shown and the time that is left.
pub open spec fn status_entry(
    index: int,
    state: AlarmStateView,
    target: Seq<char>,
    left: TimeSpan,
) -> Seq<Seq<char>> {
    seq![
        Seq::empty(),
        "-- "@ + ("["@ + text::decimal(index + 1) + "] "@ + state.id),
        detail("PID"@, text::decimal(state.pid as int)),
        detail("Input"@, state.spec_text),
        detail("Target"@, target),
        detail("Remaining"@, pretty_span(left)),
        detail("Created"@, state.created_at_utc),
    ]
}

/// The span of a number of nanoseconds.
pub open spec fn span_of(nanos: int) -> TimeSpan {
    TimeSpan { secs: (nanos / 1_000_000_000) as u64, nanos: (nanos % 1_000_000_000) as u32 }
}

/// What is printed of the alarms from `index` on, and what is answered: a record whose target
/// cannot be read ends it.
pub open spec fn status_from(
    states: Seq<AlarmStateView>,
    index: int,
    zone: Seq<char>,
    notation: TimeNotation,
    now: UtcTime,
) -> (Seq<Seq<char>>, Result<(), Seq<char>>)
    decreases states.len() - index,
{
    if index >= states.len() {
        (Seq::empty(), Ok(()))
    } else {
        match state::state_target(states[index]) {
            Ok(target) => {
                let more = status_from(states, index + 1, zone, notation, now);
                (
                    status_entry(
                        index,
                        states[index],
                        schedule::shown(zone, target, notation),
                        span_of(calendar::remaining(now, target)),
                    ) + more.0,
                    more.1,
                )
            },
            Err(refusal) => (Seq::empty(), Err(refusal)),
        }
    }
}

/// What is printed of the alarms that are under way, line by line, and what is answered.
pub open spec fn status_lines(
    states: Seq<AlarmStateView>,
    zone: Seq<char>,
    notation: TimeNotation,
    now: UtcTime,
) -> (Seq<Seq<char>>, Result<(), Seq<char>>) {
    let rest = status_from(states, 0, zone, notation, now);
    (
        seq![section("Active Alarms"@), detail("Count"@, text::decimal(states.len() as int))]
            + rest.0,
        rest.1,
    )
}

/// Appends the lines for one alarm that is under way.
pub fn push_status_entry(
    lines: &mut Vec<String>,
    index: usize,
    state: &ActiveAlarmState,
    target: &str,
    left: TimeSpan,
)
    requires
        index < usize::MAX,
    ensures
        text::texts(final(lines)@) == text::texts(old(lines)@) + status_entry(
            index as int,
            state@,
            target@,
            left,
        ),
{
    let ghost before = text::texts(lines@);
    push_line(lines, String::new());
    let mut title = "[".to_string();
    text::push_decimal(&mut title, (index + 1) as u64);
    title.append("] ");
    title.append(state.id.as_str());
    push_line(lines, subsection_line(title.as_str()));
    let pid = text::decimal_text(state.pid as u64);
    push_line(lines, detail_line("PID", pid.as_str()));
    push_line(lines, detail_line("Input", state.spec_text.as_str()));
    push_line(lines, detail_line("Target", target));
    let remaining = format_pretty_duration(left);
    push_line(lines, detail_line("Remaining", remaining.as_str()));
    push_line(lines, detail_line("Created", state.created_at_utc.as_str()));
    assert(text::texts(lines@) =~~= before + status_entry(index as int, state@, target@, left));
}

/// Writes what is printed of the alarms that are under way, and gives what is answered.
pub fn status_report(
    states: &[ActiveAlarmState],
    timezone: &Timezone,
    notation: TimeNotation,
    now: UtcTime,
) -> (r: (Vec<String>, AppResult<()>))
    requires
        now.wf(),
    ensures
        (text::texts(r.0@), types::outcome(r.1)) == status_lines(
            state::records(states@),
            timezone@,
            notation,
            now,
        ),
{
    let ghost all = state::records(states@);
    let mut lines = no_lines();
    push_line(&mut lines, section_line("Active Alarms"));
    let count = text::decimal_text(states.len() as u64);
    push_line(&mut lines, detail_line("Count", count.as_str()));
    let ghost head = seq![
        section("Active Alarms"@),
        detail("Count"@, text::decimal(all.len() as int)),
    ];
    let ghost answer = status_from(all, 0, timezone@, notation, now);
    proof {
        assert(text::texts(lines@) =~= head);
        assert(head + answer.0 =~= text::texts(lines@) + status_from(
            all,
            0,
            timezone@,
            notation,
            now,
        ).0);
    }
    let mut i: usize = 0;
    while i < states.len()
        invariant
            all == state::records(states@),
            now.wf(),
            i <= states@.len(),
            head == seq![
                section("Active Alarms"@),
                detail("Count"@, text::decimal(all.len() as int)),
            ],
            answer == status_from(all, 0, timezone@, notation, now),
            head + answer.0 == text::texts(lines@) + status_from(
                all,
                i as int,
                timezone@,
                notation,
                now,
            ).0,
            answer.1 == status_from(all, i as int, timezone@, notation, now).1,
        decreases states@.len() - i,
    {
        assert(all[i as int] == states@[i as int]@);
        let ghost before = text::texts(lines@);
        match parse_state_target_utc(&states[i]) {
            Ok(target) => {
                let shown = format_alarm_time(timezone, target, notation);
                let left = span_left(now, target);
                push_status_entry(&mut lines, i, &states[i], shown.as_str(), left);
                proof {
                    let entry = status_entry(i as int, all[i as int], shown@, left);
                    let more = status_from(all, i + 1, timezone@, notation, now).0;
                    assert(before + (entry + more) =~= before + entry + more);
                }
            },
            Err(refusal) => {
                assert(text::texts(lines@) + Seq::<Seq<char>>::empty() =~= text::texts(lines@));
                return (lines, Err(refusal));
            },
        }
        i = i + 1;
    }
    assert(text::texts(lines@) + Seq::<Seq<char>>::empty() =~= text::texts(lines@));
    (lines, Ok(()))
}

/// Which alarms are to be stopped.
#[derive(Debug)]
pub enum StopPlan {
    /// There is none.
    Nothing,
    /// All of them.
    All,
    /// One of them.
    One(ActiveAlarmState),
}

/// The view of a `StopPlan`.
#[verifier::ext_equal]
pub enum StopPlanView {
    Nothing,
    All,
    One(AlarmStateView),
}

impl View for StopPlan {
    type V = StopPlanView;

    open spec fn view(&self) -> StopPlanView {
        match *self {
            StopPlan::Nothing => StopPlanView::Nothing,
            StopPlan::All => StopPlanView::All,
            StopPlan::One(state) => StopPlanView::One(state@),
        }
    }
}

/// The identifiers of the records.
pub open spec fn ids_of(states: Seq<AlarmStateView>) -> Seq<Seq<char>> {
    states.map_values(|state: AlarmStateView| state.id)
}

/// Which alarms are to be stopped: all of them, or the one that is selected, or the only one.
pub open spec fn stop_plan(
    states: Seq<AlarmStateView>,
    selector: Option<Seq<char>>,
    all: bool,
) -> Result<StopPlanView, Seq<char>> {
    if states.len() == 0 {
        Ok(StopPlanView::Nothing)
    } else if all {
        Ok(StopPlanView::All)
    } else {
        match selector {
            Some(selector) => match state::selected(states, selector) {
                Ok(state) => Ok(StopPlanView::One(state)),
                Err(refusal) => Err(refusal),
            },
            None => if states.len() == 1 {
                Ok(StopPlanView::One(states[0]))
            } else {
                Err(
                    "multiple active alarms found; use `tix stop <id>` or `tix stop --all`\nactive ids: "@
                        + text::joined(ids_of(states), ", "@),
                )
            },
        }
    }
}

/// Decides which alarms are to be stopped.
pub fn plan_stop(states: &[ActiveAlarmState], selector: Option<String>, all: bool) -> (r: AppResult<
    StopPlan,
>)
    ensures
        types::outcome_view(r) == stop_plan(
            state::records(states@),
            text::optional_text(selector),
            all,
        ),
{
    let ghost views = state::records(states@);
    assert(views.len() == states@.len());
    if states.len() == 0 {
        return Ok(StopPlan::Nothing);
    }
    if all {
        return Ok(StopPlan::All);
    }
    match selector {
        Some(selector) => match resolve_alarm_selector(states, selector.as_str()) {
            Ok(state) => Ok(StopPlan::One(state)),
            Err(refusal) => Err(refusal),
        },
        None => {
            if states.len() == 1 {
                assert(views[0] == states@[0]@);
                return Ok(StopPlan::One(state::copy_state(&states[0])));
            }
            let mut ids = no_lines();
            let mut i: usize = 0;
            assert(text::texts(ids@) =~= ids_of(views.take(0)));
            while i < states.len()
                invariant
                    views == state::records(states@),
                    i <= states@.len(),
                    text::texts(ids@) == ids_of(views.take(i as int)),
                decreases states@.len() - i,
            {
                let ghost before = text::texts(ids@);
                push_line(&mut ids, states[i].id.clone());
                assert(ids_of(views.take(i + 1)) =~= before.push(views[i as int].id));
                i = i + 1;
            }
            assert(views.take(i as int) =~= views);
            let list = text::join(ids.as_slice(), ", ");
            Err(
                text::concat2(
                    "multiple active alarms found; use `tix stop <id>` or `tix stop --all`\nactive ids: ",
                    list.as_str(),
                ),
            )
        },
    }
}

/// Writes what is printed after all of a number of alarms were stopped.
pub fn all_stopped_report(count: usize) -> (r: Vec<String>)
    ensures
        text::texts(r@) == seq![
            section("Alarms Stopped"@),
            detail("Count"@, text::decimal(count as int)),
        ],
{
    let mut lines = no_lines();
    push_line(&mut lines, section_line("Alarms Stopped"));
    let number = text::decimal_text(count as u64);
    push_line(&mut lines, detail_line("Count", number.as_str()));
    assert(text::texts(lines@) =~~= seq![
        section("Alarms Stopped"@),
        detail("Count"@, text::decimal(count as int)),
    ]);
    lines
}

/// Writes what is printed after one alarm was stopped.
pub fn stopped_report(id: &str, pid: u32) -> (r: Vec<String>)
    ensures
        text::texts(r@) == seq![
            section("Alarm Stopped"@),
            detail("ID"@, id@),
            detail("PID"@, text::decimal(pid as int)),
        ],
{
    let mut lines = no_lines();
    push_line(&mut lines, section_line("Alarm Stopped"));
    push_line(&mut lines, detail_line("ID", id));
    let number = text::decimal_text(pid as u64);
    push_line(&mut lines, detail_line("PID", number.as_str()));
    assert(text::texts(lines@) =~~= seq![
        section("Alarm Stopped"@),
        detail("ID"@, id@),
        detail("PID"@, text::decimal(pid as int)),
    ]);
    lines
}

/// Writes what is printed in front of the settings: where they are, under a title, and an empty
/// line.
pub fn config_report(title: &str, path: &str) -> (r: Vec<String>)
    ensures
        text::texts(r@) == seq![section(title@), detail("Path"@, path@), Seq::empty()],
{
    let mut lines = no_lines();
    push_line(&mut lines, section_line(title));
    push_line(&mut lines, detail_line("Path", path));
    push_line(&mut lines, String::new());
    assert(text::texts(lines@) =~~= seq![section(title@), detail("Path"@, path@), Seq::empty()]);
    lines
}

/// Writes what is printed in front of the settings after one of them was changed.
pub fn config_update_report(path: &str, key: &str, value: &str) -> (r: Vec<String>)
    ensures
        text::texts(r@) == seq![
            section("Config Updated"@),
            detail("Path"@, path@),
            detail("Key"@, key@),
            detail("Value"@, value@),
            Seq::empty(),
        ],
{
    let mut lines = no_lines();
    push_line(&mut lines, section_line("Config Updated"));
    push_line(&mut lines, detail_line("Path", path));
    push_line(&mut lines, detail_line("Key", key));
    push_line(&mut lines, detail_line("Value", value));
    push_line(&mut lines, String::new());
    assert(text::texts(lines@) =~~= seq![
        section("Config Updated"@),
        detail("Path"@, path@),
        detail("Key"@, key@),
        detail("Value"@, value@),
        Seq::empty(),
    ]);
    lines
}

/// Writes what is printed after the volume was set, which is shown as the given text.
pub fn volume_report(volume: &str) -> (r: Vec<String>)
    ensures
        text::texts(r@) == seq![section("Volume Updated"@), detail("Value"@, volume@)],
{
    let mut lines = no_lines();
    push_line(&mut lines, section_line("Volume Updated"));
    push_line(&mut lines, detail_line("Value", volume));
    assert(text::texts(lines@) =~~= seq![section("Volume Updated"@), detail("Value"@, volume@)]);
    lines
}

/// Writes what is printed before a test of the volume, which is shown as the given text.
pub fn volume_test_report(volume: &str, sound_file: &Option<String>) -> (r: Vec<String>)
    ensures
        text::texts(r@) == seq![
            section("Volume Test"@),
            detail("Volume"@, volume@),
            detail(
                "Sound"@,
                match text::optional_text(*sound_file) {
                    Some(path) => path,
                    None => "built-in tone fallback"@,
                },
            ),
            Seq::empty(),
        ],
{
    let mut lines = no_lines();
    push_line(&mut lines, section_line("Volume Test"));
    push_line(&mut lines, detail_line("Volume", volume));
    let sound = match sound_file {
        Some(path) => detail_line("Sound", path.as_str()),
        None => detail_line("Sound", "built-in tone fallback"),
    };
    let ghost shown = sound@;
    push_line(&mut lines, sound);
    push_line(&mut lines, String::new());
    assert(text::texts(lines@) =~~= seq![
        section("Volume Test"@),
        detail("Volume"@, volume@),
        shown,
        Seq::empty(),
    ]);
    lines
}

/// The status shows every alarm if the target of each can be read: two lines in front, and seven
/// for each alarm.
pub proof fn law_status_shows_every_alarm(
    states: Seq<AlarmStateView>,
    zone: Seq<char>,
    notation: TimeNotation,
    now: UtcTime,
)
    requires
        forall|i: int| 0 <= i < states.len() ==> state::state_target(#[trigger] states[i]) is Ok,
    ensures
        status_lines(states, zone, notation, now).1 is Ok,
        status_lines(states, zone, notation, now).0.len() == 2 + 7 * states.len(),
{
    lemma_status_from(states, 0, zone, notation, now);
}

proof fn lemma_status_from(
    states: Seq<AlarmStateView>,
    index: int,
    zone: Seq<char>,
    notation: TimeNotation,
    now: UtcTime,
)
    requires
        0 <= index <= states.len(),
        forall|i: int| 0 <= i < states.len() ==> state::state_target(#[trigger] states[i]) is Ok,
    ensures
        status_from(states, index, zone, notation, now).1 is Ok,
        status_from(states, index, zone, notation, now).0.len() == 7 * (states.len() - index),
    decreases states.len() - index,
{
    if index < states.len() {
        lemma_status_from(states, index + 1, zone, notation, now);
        assert(state::state_target(states[index]) is Ok);
    }
}

/// An alarm that is asked for at an instant is due when it is due by what the clocks of the zone
/// show at that instant, and is refused as it is refused then.
pub proof fn law_planned_by_the_clocks(spec: AlarmSpec, zone: Seq<char>, now: UtcTime)
    ensures
        ({
            let clocks = zone::ZonedTime {
                instant: now,
                local: zone::zone_local(zone, now.secs as int, now.nanos as int),
            };
            match plan_at(spec, zone, now) {
                PlanView::Due(time) => schedule::alarm_time(spec, zone, clocks) == Ok::<
                    UtcTime,
                    Seq<char>,
                >(time) && schedule::can_be_due(spec, clocks),
                PlanView::Refused(refusal) => schedule::alarm_time(spec, zone, clocks) == Err::<
                    UtcTime,
                    Seq<char>,
                >(refusal) && schedule::can_be_due(spec, clocks),
                PlanView::Unrepresentable => !schedule::can_be_due(spec, clocks),
            }
        }),
{
}

/// A wording that gives an instant with its offset is planned for that very instant, in every time
/// zone, and refused if that instant is not after now.
pub proof fn law_written_instant_is_planned(
    wording: Seq<char>,
    time: ExplicitTime,
    zone: Seq<char>,
    now: UtcTime,
    date_config: DateParseConfig,
)
    requires
        wording.len() > 0,
        calendar::rfc3339_reading(wording) == Ok::<(int, int, int), Seq<char>>(
            (time.instant.secs as int, time.instant.nanos as int, time.offset_seconds as int),
        ),
    ensures
        parse::wording_reading(wording, None, date_config) matches Ok(spec)
            && if schedule::comes_after(time.instant, now) {
            plan_at(spec, zone, now) == PlanView::Due(time.instant)
        } else {
            plan_at(spec, zone, now) is Refused
        },
{
}

/// A span is rounded to the nearest second, and up from a half on, as far as there is a next one.
pub proof fn law_rounded_seconds(span: TimeSpan)
    requires
        span.nanos < 1_000_000_000,
    ensures
        span.secs == u64::MAX ==> rounded_seconds(span) == u64::MAX,
        span.secs < u64::MAX ==> rounded_seconds(span) == (span.secs * 1_000_000_000 + span.nanos
            + 500_000_000) / 1_000_000_000,
{
}

/// A span in words is that of its nearest second, and one that is not empty is never shown as empty.
pub proof fn law_spans_in_words(span: TimeSpan)
    requires
        span.nanos < 1_000_000_000,
        span.secs < u64::MAX,
    ensures
        span.secs == 0 && span.nanos == 0 ==> pretty_span(span) == "0s"@,
        span.secs == 0 && 0 < span.nanos < 500_000_000 ==> pretty_span(span) == "less than 1s"@,
        span.secs > 0 || span.nanos >= 500_000_000 ==> pretty_span(span) == display::human_after(
            Seq::empty(),
            (span.secs * 1_000_000_000 + span.nanos + 500_000_000) / 1_000_000_000,
        ),
{
    law_rounded_seconds(span);
}

/// A number of nanoseconds is a span of that length.
pub proof fn law_span_of(nanos: int)
    requires
        0 <= nanos,
        nanos / 1_000_000_000 <= u64::MAX,
    ensures
        span_of(nanos).secs * 1_000_000_000 + span_of(nanos).nanos == nanos,
        span_of(nanos).nanos < 1_000_000_000,
{
}

/// A heading is its title behind two equals signs, filled up with hyphens to 56 bytes, and with four
/// of them at least.
pub proof fn law_headings(title: Seq<char>)
    ensures
        ({
            let front = "== "@ + title + " "@;
            let (line, width) = (section(title), paths::bytes_of(front).len());
            &&& line.take(front.len() as int) == front
            &&& forall|i: int| front.len() <= i < line.len() ==> #[trigger] line[i] == '-'
            &&& width <= 52 ==> line.len() - front.len() == 56 - width
            &&& width > 52 ==> line.len() - front.len() == 4
        }),
{
    let front = "== "@ + title + " "@;
    assert(section(title).take(front.len() as int) =~= front);
}

/// A line gives its value behind its label, with the label and its colon filled up to twelve
/// characters and two spaces in front.
pub proof fn law_details(label: Seq<char>, value: Seq<char>)
    ensures
        ({
            let (line, length) = (detail(label, value), label.len() as int);
            let width: int = if length < 11 {
                12
            } else {
                length + 1
            };
            &&& line.len() == 2 + width + 1 + value.len()
            &&& line.skip(2 + width + 1) == value
            &&& line.subrange(2, 2 + length) == label
            &&& line[2 + length] == ':'
            &&& line[0] == ' ' && line[1] == ' '
            &&& forall|i: int| 3 + length <= i < 3 + width ==> #[trigger] line[i] == ' '
        }),
{
    reveal_strlit("  ");
    reveal_strlit(":");
    reveal_strlit(" ");
    let (line, length) = (detail(label, value), label.len() as int);
    let width: int = if length < 11 {
        12
    } else {
        length + 1
    };
    assert(padded(label + ":"@, 12).len() == width);
    assert(line.skip(2 + width + 1) =~= value);
    assert(line.subrange(2, 2 + length) =~= label);
}

/// The lines for an alarm stand in the status at the place of the alarm in the list: its number and
/// its identifier, its process, its input, its target, the time that is left and when it was made.
pub proof fn law_status_of_each_alarm(
    states: Seq<AlarmStateView>,
    zone: Seq<char>,
    notation: TimeNotation,
    now: UtcTime,
    at: int,
    target: UtcTime,
)
    requires
        0 <= at < states.len(),
        forall|i: int| 0 <= i < states.len() ==> state::state_target(#[trigger] states[i]) is Ok,
        state::state_target(states[at]) == Ok::<UtcTime, Seq<char>>(target),
    ensures
        ({
            let lines = status_lines(states, zone, notation, now).0;
            let from = 2 + 7 * at;
            let state = states[at];
            &&& lines.len() == 2 + 7 * states.len()
            &&& lines[0] == section("Active Alarms"@)
            &&& lines[1] == detail("Count"@, text::decimal(states.len() as int))
            &&& lines[from] == Seq::<char>::empty()
            &&& lines[from + 1] == "-- "@ + ("["@ + text::decimal(at + 1) + "] "@ + state.id)
            &&& lines[from + 2] == detail("PID"@, text::decimal(state.pid as int))
            &&& lines[from + 3] == detail("Input"@, state.spec_text)
            &&& lines[from + 4] == detail("Target"@, schedule::shown(zone, target, notation))
            &&& lines[from + 5] == detail(
                "Remaining"@,
                pretty_span(span_of(calendar::remaining(now, target))),
            )
            &&& lines[from + 6] == detail("Created"@, state.created_at_utc)
        }),
{
    lemma_status_from(states, 0, zone, notation, now);
    lemma_status_at(states, 0, zone, notation, now, at);
    let rest = status_from(states, 0, zone, notation, now).0;
    let lines = status_lines(states, zone, notation, now).0;
    let entry = status_entry(
        at,
        states[at],
        schedule::shown(zone, target, notation),
        span_of(calendar::remaining(now, target)),
    );
    assert forall|k: int| 0 <= k < 7 implies lines[2 + 7 * at + k] == #[trigger] entry[k] by {
        assert(rest.subrange(7 * at, 7 * at + 7)[k] == rest[7 * at + k]);
    }
    assert(lines[2 + 7 * at + 0] == entry[0]);
    assert(lines[2 + 7 * at + 1] == entry[1]);
    assert(lines[2 + 7 * at + 2] == entry[2]);
    assert(lines[2 + 7 * at + 3] == entry[3]);
    assert(lines[2 + 7 * at + 4] == entry[4]);
    assert(lines[2 + 7 * at + 5] == entry[5]);
    assert(lines[2 + 7 * at + 6] == entry[6]);
}

proof fn lemma_status_at(
    states: Seq<AlarmStateView>,
    index: int,
    zone: Seq<char>,
    notation: TimeNotation,
    now: UtcTime,
    at: int,
)
    requires
        0 <= index <= at < states.len(),
        forall|i: int| 0 <= i < states.len() ==> state::state_target(#[trigger] states[i]) is Ok,
    ensures
        status_from(states, index, zone, notation, now).0.len() == 7 * (states.len() - index),
        status_from(states, index, zone, notation, now).0.subrange(
            7 * (at - index),
            7 * (at - index) + 7,
        ) == status_entry(
            at,
            states[at],
            schedule::shown(zone, state::state_target(states[at])->Ok_0, notation),
            span_of(calendar::remaining(now, state::state_target(states[at])->Ok_0)),
        ),
    decreases at - index,
{
    lemma_status_from(states, index, zone, notation, now);
    lemma_status_from(states, index + 1, zone, notation, now);
    assert(state::state_target(states[index]) is Ok);
    let lines = status_from(states, index, zone, notation, now).0;
    let more = status_from(states, index + 1, zone, notation, now).0;
    let first = status_entry(
        index,
        states[index],
        schedule::shown(zone, state::state_target(states[index])->Ok_0, notation),
        span_of(calendar::remaining(now, state::state_target(states[index])->Ok_0)),
    );
    assert(lines == first + more);
    if index == at {
        assert(lines.subrange(0, 7) =~= first);
    } else {
        lemma_status_at(states, index + 1, zone, notation, now, at);
        assert(lines.subrange(7 * (at - index), 7 * (at - index) + 7) =~= more.subrange(
            7 * (at - index - 1),
            7 * (at - index - 1) + 7,
        ));
    }
}

/// A record whose target cannot be read ends the status: those in front of it are shown, and its
/// refusal is what is answered.
pub proof fn law_unreadable_record_ends_the_status(
    states: Seq<AlarmStateView>,
    zone: Seq<char>,
    notation: TimeNotation,
    now: UtcTime,
    at: int,
    refusal: Seq<char>,
)
    requires
        0 <= at < states.len(),
        forall|i: int| 0 <= i < at ==> state::state_target(#[trigger] states[i]) is Ok,
        state::state_target(states[at]) == Err::<UtcTime, Seq<char>>(refusal),
    ensures
        status_lines(states, zone, notation, now).1 == Err::<(), Seq<char>>(refusal),
        status_lines(states, zone, notation, now).0.len() == 2 + 7 * at,
{
    lemma_status_up_to(states, 0, zone, notation, now, at, refusal);
}

proof fn lemma_status_up_to(
    states: Seq<AlarmStateView>,
    index: int,
    zone: Seq<char>,
    notation: TimeNotation,
    now: UtcTime,
    at: int,
    refusal: Seq<char>,
)
    requires
        0 <= index <= at < states.len(),
        forall|i: int| 0 <= i < at ==> state::state_target(#[trigger] states[i]) is Ok,
        state::state_target(states[at]) == Err::<UtcTime, Seq<char>>(refusal),
    ensures
        status_from(states, index, zone, notation, now).1 == Err::<(), Seq<char>>(refusal),
        status_from(states, index, zone, notation, now).0.len() == 7 * (at - index),
    decreases at - index,
{
    if index < at {
        lemma_status_up_to(states, index + 1, zone, notation, now, at, refusal);
        assert(state::state_target(states[index]) is Ok);
    }
}

/// Where there is no alarm none is stopped, whatever is asked. All are stopped where that is asked.
/// A selector stops the one that it selects, or none. Without one, the only alarm is stopped, and
/// none of several is.
pub proof fn law_stop_plans(
    states: Seq<AlarmStateView>,
    selector: Seq<char>,
    other: Option<Seq<char>>,
)
    ensures
        states.len() == 0 ==> stop_plan(states, other, true) == Ok::<StopPlanView, Seq<char>>(
            StopPlanView::Nothing,
        ) && stop_plan(states, other, false) == Ok::<StopPlanView, Seq<char>>(
            StopPlanView::Nothing,
        ),
        states.len() > 0 ==> {
            &&& stop_plan(states, other, true) == Ok::<StopPlanView, Seq<char>>(StopPlanView::All)
            &&& match state::selected(states, selector) {
                Ok(state) => stop_plan(states, Some(selector), false) == Ok::<
                    StopPlanView,
                    Seq<char>,
                >(StopPlanView::One(state)),
                Err(refusal) => stop_plan(states, Some(selector), false) == Err::<
                    StopPlanView,
                    Seq<char>,
                >(refusal),
            }
        },
        states.len() == 1 ==> stop_plan(states, None, false) == Ok::<StopPlanView, Seq<char>>(
            StopPlanView::One(states[0]),
        ),
        states.len() > 1 ==> stop_plan(states, None, false) == Err::<StopPlanView, Seq<char>>(
            "multiple active alarms found; use `tix stop <id>` or `tix stop --all`\nactive ids: "@
                + text::joined(
                Seq::new(states.len(), |i: int| states[i].id),
                ", "@,
            ),
        ),
{
    assert(ids_of(states) =~= Seq::new(states.len(), |i: int| states[i].id));
}

/// An alarm that is asked for is only shown for a preview, and otherwise runs in the mode on the
/// command line, or without one in the mode that is set.
pub proof fn law_courses(mode: RunMode, configured: RunMode, asked: Option<RunMode>)
    ensures
        course_for(true, asked, configured) == Course::Preview,
        course_for(false, Some(mode), configured) == match mode {
            RunMode::Foreground => Course::Foreground,
            RunMode::Background => Course::Background,
        },
        course_for(false, None, configured) == match configured {
            RunMode::Foreground => Course::Foreground,
            RunMode::Background => Course::Background,
        },
{
}

/// An order keeps the target, notifies as is set, and reports the input, the target as it is shown,
/// the time that is left at the report, and the mode, under a heading that tells a preview from an
/// alarm that is started.
pub proof fn law_orders(
    config: ConfigView,
    zone: Seq<char>,
    spec_text: Seq<char>,
    target: UtcTime,
    dry_run: bool,
    mode_override: Option<RunMode>,
    reported_at: UtcTime,
)
    ensures
        ({
            let order = order_for(
                config,
                zone,
                spec_text,
                target,
                dry_run,
                mode_override,
                reported_at,
            );
            let mode = match mode_override {
                Some(mode) => mode,
                None => config.default_mode,
            };
            &&& order.target == target
            &&& order.course == course_for(dry_run, mode_override, config.default_mode)
            &&& order.notifications.enabled == config.notifications.enabled
            &&& order.notifications.clickable == config.notifications.clickable
            &&& order.notifications.timeout_ms == config.notifications.timeout_ms
            &&& order.notifications.show_stop_button == config.notifications.show_stop_button
            &&& order.report.len() == if order.course == Course::Background {
                5int
            } else {
                7int
            }
            &&& order.report[0] == section(
                if dry_run {
                    "Alarm Preview"@
                } else {
                    "Alarm Ready"@
                },
            )
            &&& order.report[1] == detail("Input"@, spec_text)
            &&& order.report[2] == detail(
                "Target"@,
                schedule::shown(zone, target, config.time_notation),
            )
            &&& order.report[3] == detail(
                "Remaining"@,
                pretty_span(span_of(calendar::remaining(reported_at, target))),
            )
            &&& order.report[4] == detail("Mode"@, types::run_mode_word(mode))
            &&& order.course == Course::Preview ==> order.report[6]
                == "Preview only. No alarm started."@
            &&& order.course == Course::Foreground ==> order.report[6]
                == "Foreground mode. Press Ctrl-C to cancel or stop the ringing alarm."@
        }),
{
}

/// A background alarm that was started is reported with its identifier, its process and the command
/// that stops it.
pub proof fn law_background_report(id: Seq<char>, pid: u32)
    ensures
        background_lines(id, pid) == seq![
            Seq::empty(),
            section("Background Worker"@),
            detail("ID"@, id),
            detail("PID"@, text::decimal(pid as int)),
            detail("Stop"@, "tix stop "@ + id),
        ],
{
}

/// The views of a plan, of what is to be stopped and of an order show all of them.
pub proof fn law_report_views(
    time: UtcTime,
    refusal: String,
    state: ActiveAlarmState,
    order: AlarmOrder,
)
    ensures
        Plan::Due(time)@ == PlanView::Due(time),
        Plan::Refused(refusal)@ == PlanView::Refused(refusal@),
        Plan::Unrepresentable@ is Unrepresentable,
        StopPlan::Nothing@ is Nothing,
        StopPlan::All@ is All,
        StopPlan::One(state)@ == StopPlanView::One(state@),
        order@.course == order.course,
        order@.target == order.target,
        order@.notifications == order.notifications,
        order@.report.len() == order.report@.len(),
        forall|i: int|
            0 <= i < order.report@.len() ==> #[trigger] order@.report[i] == order.report@[i]@,
{
}

} // verus!
