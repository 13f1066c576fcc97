//! The foreground display: a few lines that are drawn over themselves.
use vstd::prelude::*;
use vstd::string::*;

use crate::calendar::{self, TimeSpan, UtcTime};
use crate::schedule::{self, format_alarm_time};
use crate::text;
use crate::types::{ForegroundConfig, TimeNotation, TimerStyle};
use crate::zone::Timezone;

verus! {

/// The whole days in a number of seconds.
pub open spec fn days_in(seconds: int) -> int {
    seconds / 86_400
}

/// The whole hours past the days.
pub open spec fn hours_in(seconds: int) -> int {
    (seconds % 86_400) / 3_600
}

/// The whole minutes past the hours.
pub open spec fn minutes_in(seconds: int) -> int {
    (seconds % 3_600) / 60
}

/// The seconds past the minutes.
pub open spec fn seconds_in(seconds: int) -> int {
    seconds % 60
}

/// Days, hours, minutes and seconds make up the number of seconds, and each of the smaller ones is
/// less than one of the next.
pub proof fn law_units_add_up(seconds: int)
    requires
        seconds >= 0,
    ensures
        days_in(seconds) * 86_400 + hours_in(seconds) * 3_600 + minutes_in(seconds) * 60
            + seconds_in(seconds) == seconds,
        0 <= hours_in(seconds) < 24,
        0 <= minutes_in(seconds) < 60,
        0 <= seconds_in(seconds) < 60,
{
    let (days, day) = (seconds / 86_400, seconds % 86_400);
    let (hours, hour) = (day / 3_600, day % 3_600);
    let (minutes, minute) = (hour / 60, hour % 60);
    assert(seconds == (24 * days + hours) * 3_600 + hour);
    vstd::arithmetic::div_mod::lemma_fundamental_div_mod_converse(
        seconds,
        3_600,
        24 * days + hours,
        hour,
    );
    assert(seconds == (1_440 * days + 60 * hours + minutes) * 60 + minute);
    vstd::arithmetic::div_mod::lemma_fundamental_div_mod_converse(
        seconds,
        60,
        1_440 * days + 60 * hours + minutes,
        minute,
    );
}

/// The hours, minutes and seconds that are shown have two digits at most.
proof fn lemma_unit_ranges(seconds: int)
    requires
        seconds >= 0,
    ensures
        0 <= hours_in(seconds) < 100,
        0 <= minutes_in(seconds) < 100,
        0 <= seconds_in(seconds) < 100,
{
}

/// A time as on a digital clock, with the days in front if there are any.
pub open spec fn digital(seconds: int) -> Seq<char> {
    (if days_in(seconds) > 0 {
        text::decimal(days_in(seconds)) + "d "@
    } else {
        Seq::empty()
    }) + text::two_digits(hours_in(seconds)) + ":"@ + text::two_digits(minutes_in(seconds)) + ":"@
        + text::two_digits(seconds_in(seconds))
}

/// `front` with a number and its unit, and with a space between them if `front` is not empty.
pub open spec fn with_unit(front: Seq<char>, number: int, unit: Seq<char>) -> Seq<char> {
    (if front.len() > 0 {
        front + " "@
    } else {
        front
    }) + text::decimal(number) + unit
}

/// `front` with a number and its unit if there is anything to say or something was said before.
pub open spec fn with_unit_from(front: Seq<char>, number: int, unit: Seq<char>) -> Seq<char> {
    if number > 0 || front.len() > 0 {
        with_unit(front, number, unit)
    } else {
        front
    }
}

/// `front` followed by a time in days, hours, minutes and seconds, from the first of them that is
/// not zero on. Text in `front` counts as said before.
pub open spec fn human_after(front: Seq<char>, seconds: int) -> Seq<char> {
    let days = if days_in(seconds) > 0 {
        front + text::decimal(days_in(seconds)) + "d"@
    } else {
        front
    };
    let hours = with_unit_from(days, hours_in(seconds), "h"@);
    let minutes = with_unit_from(hours, minutes_in(seconds), "m"@);
    with_unit(minutes, seconds_in(seconds), "s"@)
}

/// `front` followed by a time in the given style.
pub open spec fn remaining_after(front: Seq<char>, seconds: int, style: TimerStyle) -> Seq<char> {
    match style {
        TimerStyle::Digital => front + digital(seconds),
        TimerStyle::Human => human_after(front, seconds),
    }
}

fn format_remaining_digital_into(seconds: u64, out: &mut String)
    ensures
        final(out)@ == old(out)@ + digital(seconds as int),
{
    let ghost before = out@;
    let days = seconds / 86_400;
    if days > 0 {
        text::push_decimal(out, days);
        out.append("d ");
    }
    text::push_two_digits(out, (seconds % 86_400) / 3_600);
    out.append(":");
    text::push_two_digits(out, (seconds % 3_600) / 60);
    out.append(":");
    text::push_two_digits(out, seconds % 60);
    assert(out@ =~= before + digital(seconds as int));
}

fn push_unit(out: &mut String, number: u64, unit: &str)
    ensures
        final(out)@ == with_unit(old(out)@, number as int, unit@),
{
    if !out.as_str().is_empty() {
        out.append(" ");
    }
    text::push_decimal(out, number);
    out.append(unit);
}

fn push_unit_from(out: &mut String, number: u64, unit: &str)
    ensures
        final(out)@ == with_unit_from(old(out)@, number as int, unit@),
{
    if number > 0 || !out.as_str().is_empty() {
        push_unit(out, number, unit);
    }
}

/// Appends a time in days, hours, minutes and seconds.
pub fn format_remaining_human_into(seconds: u64, out: &mut String)
    ensures
        final(out)@ == human_after(old(out)@, seconds as int),
{
    let days = seconds / 86_400;
    if days > 0 {
        text::push_decimal(out, days);
        out.append("d");
    }
    push_unit_from(out, (seconds % 86_400) / 3_600, "h");
    push_unit_from(out, (seconds % 3_600) / 60, "m");
    push_unit(out, seconds % 60, "s");
}

/// Appends a time that is left in the given style.
pub fn format_remaining_into(remaining: TimeSpan, timer_style: TimerStyle, out: &mut String)
    ensures
        final(out)@ == remaining_after(old(out)@, remaining.secs as int, timer_style),
{
    match timer_style {
        TimerStyle::Digital => format_remaining_digital_into(remaining.secs, out),
        TimerStyle::Human => format_remaining_human_into(remaining.secs, out),
    }
}

/// A time that is left in the given style.
pub fn format_remaining(remaining: TimeSpan, timer_style: TimerStyle) -> (r: String)
    ensures
        r@ == remaining_after(Seq::empty(), remaining.secs as int, timer_style),
{
    let mut rendered = String::new();
    assert(rendered@ =~= Seq::<char>::empty());
    format_remaining_into(remaining, timer_style, &mut rendered);
    rendered
}

/// The foreground display.
pub struct ForegroundRenderer {
    enabled: bool,
    settings: ForegroundConfig,
    timezone: Timezone,
    time_notation: TimeNotation,
    target: UtcTime,
    spec_text: String,
    rendered_lines: usize,
}

/// The view of a `ForegroundRenderer`.
pub struct RendererView {
    pub enabled: bool,
    pub settings: ForegroundConfig,
    pub timezone: Seq<char>,
    pub time_notation: TimeNotation,
    pub target: UtcTime,
    pub spec_text: Seq<char>,
    pub rendered_lines: int,
}

impl View for ForegroundRenderer {
    type V = RendererView;

    closed spec fn view(&self) -> RendererView {
        RendererView {
            enabled: self.enabled,
            settings: self.settings,
            timezone: self.timezone@,
            time_notation: self.time_notation,
            target: self.target,
            spec_text: self.spec_text@,
            rendered_lines: self.rendered_lines as int,
        }
    }
}

/// The lines of the display: the title, and the input, the current time, the target and the seconds
/// that are left where they are to be shown.
pub open spec fn lines_of(
    view: RendererView,
    current: Seq<char>,
    target: Seq<char>,
    seconds: int,
) -> Seq<Seq<char>> {
    let title = seq!["tix | foreground"@];
    let with_input = if view.settings.show_input {
        title.push("input: "@ + view.spec_text)
    } else {
        title
    };
    let with_current = if view.settings.show_current_datetime {
        with_input.push("current: "@ + current)
    } else {
        with_input
    };
    let with_target = if view.settings.show_target_datetime {
        with_current.push("target: "@ + target)
    } else {
        with_current
    };
    if view.settings.show_remaining {
        with_target.push(remaining_after("remaining: "@, seconds, view.settings.timer_style))
    } else {
        with_target
    }
}

/// The lines of the display at an instant.
pub open spec fn lines_at(view: RendererView, now: UtcTime) -> Seq<Seq<char>> {
    lines_of(
        view,
        schedule::shown(view.timezone, now, view.time_notation),
        schedule::shown(view.timezone, view.target, view.time_notation),
        calendar::remaining(now, view.target) / 1_000_000_000,
    )
}

/// What takes a number of lines off the screen: a return to the start of the first of them and the
/// erasure of everything from there on.
pub open spec fn erasure(lines: int) -> Seq<char> {
    if lines == 0 {
        Seq::empty()
    } else if lines > 1 {
        "\r"@ + "\x1b["@ + text::decimal(lines - 1) + "A"@ + "\x1b[J"@
    } else {
        "\r"@ + "\x1b[J"@
    }
}

fn erase(lines: usize) -> (r: String)
    ensures
        r@ == erasure(lines as int),
{
    if lines == 0 {
        let out = String::new();
        assert(out@ =~= erasure(0));
        return out;
    }
    let mut out = "\r".to_string();
    if lines > 1 {
        out.append("\x1b[");
        text::push_decimal(&mut out, (lines - 1) as u64);
        out.append("A");
    }
    out.append("\x1b[J");
    out
}

impl ForegroundRenderer {
    #[verifier::type_invariant]
    spec fn has_target(self) -> bool {
        self.target.wf()
    }

    /// A display on which nothing is drawn yet. It is enabled on a terminal.
    pub fn new(
        enabled: bool,
        settings: ForegroundConfig,
        timezone: Timezone,
        time_notation: TimeNotation,
        target: UtcTime,
        spec_text: &str,
    ) -> (r: ForegroundRenderer)
        requires
            target.wf(),
        ensures
            r@ == (RendererView {
                enabled,
                settings,
                timezone: timezone@,
                time_notation,
                target,
                spec_text: spec_text@,
                rendered_lines: 0,
            }),
    {
        ForegroundRenderer {
            enabled,
            settings,
            timezone,
            time_notation,
            target,
            spec_text: spec_text.to_string(),
            rendered_lines: 0,
        }
    }

    /// Whether the display is drawn at all.
    pub fn enabled(&self) -> (r: bool)
        ensures
            r == self@.enabled,
    {
        self.enabled
    }

    /// The time between two drawings.
    pub fn refresh_interval(&self) -> (r: TimeSpan)
        ensures
            r.wf(),
            r.total() == 1_000_000 * if self@.settings.refresh_interval_ms > 100 {
                self@.settings.refresh_interval_ms as int
            } else {
                100
            },
    {
        TimeSpan::from_millis(self.settings.effective_refresh_interval_ms())
    }

    fn lines(&self, current: &str, target: &str, remaining: TimeSpan) -> (r: Vec<String>)
        ensures
            text::texts(r@) == lines_of(self@, current@, target@, remaining.secs as int),
            r@.len() <= 5,
    {
        let mut lines: Vec<String> = Vec::new();
        lines.push("tix | foreground".to_string());
        assert(text::texts(lines@) =~= seq!["tix | foreground"@]);
        if self.settings.show_input {
            let ghost before = text::texts(lines@);
            let line = text::concat2("input: ", self.spec_text.as_str());
            lines.push(line);
            assert(text::texts(lines@) =~= before.push(line@));
        }
        if self.settings.show_current_datetime {
            let ghost before = text::texts(lines@);
            let line = text::concat2("current: ", current);
            lines.push(line);
            assert(text::texts(lines@) =~= before.push(line@));
        }
        if self.settings.show_target_datetime {
            let ghost before = text::texts(lines@);
            let line = text::concat2("target: ", target);
            lines.push(line);
            assert(text::texts(lines@) =~= before.push(line@));
        }
        if self.settings.show_remaining {
            let ghost before = text::texts(lines@);
            let mut line = "remaining: ".to_string();
            format_remaining_into(remaining, self.settings.timer_style, &mut line);
            lines.push(line);
            assert(text::texts(lines@) =~= before.push(line@));
        }
        lines
    }

    /// Draws the lines over those that were drawn last, given the times as they are shown and the
    /// time that is left: gives what is to be written to the terminal.
    pub fn redraw(&mut self, current: &str, target: &str, remaining: TimeSpan) -> (r: String)
        ensures
            r@ == erasure(old(self)@.rendered_lines) + text::joined(
                lines_of(old(self)@, current@, target@, remaining.secs as int),
                "\n"@,
            ),
            final(self)@ == (RendererView {
                rendered_lines: lines_of(
                    old(self)@,
                    current@,
                    target@,
                    remaining.secs as int,
                ).len() as int,
                ..old(self)@
            }),
    {
        proof {
            use_type_invariant(&*self);
        }
        let lines = self.lines(current, target, remaining);
        assert(text::texts(lines@).len() == lines@.len());
        let mut out = erase(self.rendered_lines);
        let drawn = text::join(lines.as_slice(), "\n");
        out.append(drawn.as_str());
        self.rendered_lines = lines.len();
        out
    }

    /// Draws the lines for an instant over those that were drawn last: gives what is to be written
    /// to the terminal.
    pub fn render(&mut self, now: UtcTime) -> (r: String)
        requires
            now.wf(),
        ensures
            old(self)@.enabled ==> {
                &&& r@ == erasure(old(self)@.rendered_lines) + text::joined(
                    lines_at(old(self)@, now),
                    "\n"@,
                )
                &&& final(self)@ == (RendererView {
                    rendered_lines: lines_at(old(self)@, now).len() as int,
                    ..old(self)@
                })
            },
            !old(self)@.enabled ==> r@.len() == 0 && final(self)@ == old(self)@,
    {
        proof {
            use_type_invariant(&*self);
        }
        if !self.enabled {
            return String::new();
        }
        let current = format_alarm_time(&self.timezone, now, self.time_notation);
        let target = format_alarm_time(&self.timezone, self.target, self.time_notation);
        let remaining = calendar::time_left(now, self.target);
        assert(remaining.secs as int == remaining.total() / 1_000_000_000);
        self.redraw(current.as_str(), target.as_str(), remaining)
    }

    /// Takes the lines that were drawn last off the screen: gives what is to be written to the
    /// terminal.
    pub fn clear(&mut self) -> (r: String)
        ensures
            old(self)@.enabled ==> {
                &&& r@ == erasure(old(self)@.rendered_lines)
                &&& final(self)@ == (RendererView { rendered_lines: 0, ..old(self)@ })
            },
            !old(self)@.enabled ==> r@.len() == 0 && final(self)@ == old(self)@,
    {
        proof {
            use_type_invariant(&*self);
        }
        if !self.enabled {
            return String::new();
        }
        let out = erase(self.rendered_lines);
        self.rendered_lines = 0;
        out
    }
}

proof fn lemma_two_digits(n: int)
    requires
        0 <= n < 100,
    ensures
        text::two_digits(n) =~= seq![text::digit_char(n / 10), text::digit_char(n % 10)],
{
    reveal_strlit("0");
    reveal_with_fuel(text::numeral, 3);
}

spec fn digital_tail(hours: int, minutes: int, seconds: int) -> Seq<char> {
    seq![
        text::digit_char(hours / 10),
        text::digit_char(hours % 10),
        ':',
        text::digit_char(minutes / 10),
        text::digit_char(minutes % 10),
        ':',
        text::digit_char(seconds / 10),
        text::digit_char(seconds % 10),
    ]
}

proof fn lemma_digital_tail(seconds: int)
    requires
        seconds >= 0,
    ensures
        digital(seconds).len() >= 8,
        digital(seconds).skip(digital(seconds).len() - 8) == digital_tail(
            hours_in(seconds),
            minutes_in(seconds),
            seconds_in(seconds),
        ),
        digital(seconds).take(digital(seconds).len() - 8) =~= if days_in(seconds) > 0 {
            text::decimal(days_in(seconds)) + "d "@
        } else {
            Seq::empty()
        },
{
    lemma_unit_ranges(seconds);
    lemma_two_digits(hours_in(seconds));
    lemma_two_digits(minutes_in(seconds));
    lemma_two_digits(seconds_in(seconds));
    reveal_strlit(":");
}

proof fn lemma_same_tails(h1: int, m1: int, s1: int, h2: int, m2: int, s2: int)
    requires
        digital_tail(h1, m1, s1) == digital_tail(h2, m2, s2),
        0 <= h1 < 100,
        0 <= m1 < 100,
        0 <= s1 < 100,
        0 <= h2 < 100,
        0 <= m2 < 100,
        0 <= s2 < 100,
    ensures
        h1 == h2,
        m1 == m2,
        s1 == s2,
{
    let (x, y) = (digital_tail(h1, m1, s1), digital_tail(h2, m2, s2));
    assert(x[0] == y[0] && x[1] == y[1] && x[3] == y[3] && x[4] == y[4] && x[6] == y[6] && x[7]
        == y[7]);
    lemma_digit_chars(h1, h2);
    lemma_digit_chars(m1, m2);
    lemma_digit_chars(s1, s2);
}

proof fn lemma_digital_clocks(a: int, b: int)
    requires
        a >= 0,
        b >= 0,
        digital(a) == digital(b),
    ensures
        hours_in(a) == hours_in(b),
        minutes_in(a) == minutes_in(b),
        seconds_in(a) == seconds_in(b),
{
    lemma_unit_ranges(a);
    lemma_unit_ranges(b);
    lemma_digital_tail(a);
    lemma_digital_tail(b);
    lemma_same_tails(
        hours_in(a),
        minutes_in(a),
        seconds_in(a),
        hours_in(b),
        minutes_in(b),
        seconds_in(b),
    );
}

proof fn lemma_day_numbers(m: int, n: int)
    requires
        m > 0,
        n > 0,
        text::decimal(m) + "d "@ == text::decimal(n) + "d "@,
    ensures
        m == n,
{
    let (c, d) = (text::decimal(m), text::decimal(n));
    assert(c.len() == d.len()) by {
        assert((c + "d "@).len() == (d + "d "@).len());
    }
    assert(c =~= (c + "d "@).take(c.len() as int));
    assert(d =~= (d + "d "@).take(d.len() as int));
    text::lemma_numeral_injective(m, n, 10);
}

proof fn lemma_digital_days(a: int, b: int)
    requires
        a >= 0,
        b >= 0,
        digital(a) == digital(b),
    ensures
        days_in(a) == days_in(b),
{
    lemma_digital_tail(a);
    lemma_digital_tail(b);
    reveal_strlit("d ");
    assert(days_in(a) >= 0 && days_in(b) >= 0);
    if days_in(a) > 0 && days_in(b) > 0 {
        lemma_day_numbers(days_in(a), days_in(b));
    } else if days_in(a) > 0 {
        assert((text::decimal(days_in(a)) + "d "@).len() >= 2);
    } else if days_in(b) > 0 {
        assert((text::decimal(days_in(b)) + "d "@).len() >= 2);
    }
}

/// A digital clock shows different numbers of seconds differently.
pub proof fn law_digital_tells_seconds_apart(a: int, b: int)
    requires
        a >= 0,
        b >= 0,
        digital(a) == digital(b),
    ensures
        a == b,
{
    lemma_digital_clocks(a, b);
    lemma_digital_days(a, b);
    law_units_add_up(a);
    law_units_add_up(b);
}

proof fn lemma_digit_chars(a: int, b: int)
    requires
        0 <= a < 100,
        0 <= b < 100,
        text::digit_char(a / 10) == text::digit_char(b / 10),
        text::digit_char(a % 10) == text::digit_char(b % 10),
    ensures
        a == b,
{
}

proof fn lemma_with_unit(f1: Seq<char>, n1: int, f2: Seq<char>, n2: int, unit: Seq<char>)
    requires
        n1 >= 0,
        n2 >= 0,
        unit.len() == 1,
        unit[0] != ' ',
        with_unit(f1, n1, unit) == with_unit(f2, n2, unit),
    ensures
        f1 == f2,
        n1 == n2,
{
    reveal_strlit(" ");
    text::lemma_numeral_digits(n1, 10);
    text::lemma_numeral_digits(n2, 10);
    let (d1, d2) = (text::decimal(n1), text::decimal(n2));
    let whole = with_unit(f1, n1, unit);
    let s1 = if f1.len() > 0 {
        f1.len() + 1
    } else {
        0
    };
    let s2 = if f2.len() > 0 {
        f2.len() + 1
    } else {
        0
    };
    assert(whole.len() == s1 + d1.len() + 1);
    assert(whole.len() == s2 + d2.len() + 1);
    assert forall|i: int| s1 <= i < whole.len() implies whole[i] != ' ' by {
        if i < whole.len() - 1 {
            assert(whole[i] == d1[i - s1]);
        } else {
            assert(whole[i] == unit[0]);
        }
    }
    assert forall|i: int| s2 <= i < whole.len() implies whole[i] != ' ' by {
        if i < whole.len() - 1 {
            assert(whole[i] == d2[i - s2]);
        } else {
            assert(whole[i] == unit[0]);
        }
    }
    if s1 > 0 {
        assert(whole[s1 - 1] == ' ');
    }
    if s2 > 0 {
        assert(whole[s2 - 1] == ' ');
    }
    assert(s1 == s2);
    assert(f1.len() == f2.len());
    assert(f1 =~= whole.take(f1.len() as int));
    assert(f2 =~= whole.take(f2.len() as int));
    assert(d1 =~= whole.subrange(s1 as int, whole.len() - 1));
    assert(d2 =~= whole.subrange(s2 as int, whole.len() - 1));
    text::lemma_numeral_injective(n1, n2, 10);
}

proof fn lemma_with_unit_from(f1: Seq<char>, n1: int, f2: Seq<char>, n2: int, unit: Seq<char>)
    requires
        n1 >= 0,
        n2 >= 0,
        unit.len() == 1,
        unit[0] != ' ',
        with_unit_from(f1, n1, unit) == with_unit_from(f2, n2, unit),
    ensures
        f1 == f2,
        n1 == n2,
{
    let (said1, said2) = (n1 > 0 || f1.len() > 0, n2 > 0 || f2.len() > 0);
    if said1 && said2 {
        lemma_with_unit(f1, n1, f2, n2, unit);
    } else {
        assert(with_unit(f1, n1, unit).len() > 0);
        assert(with_unit(f2, n2, unit).len() > 0);
        assert(f1 =~= f2);
    }
}

/// A time in days, hours, minutes and seconds shows different numbers of seconds differently.
pub proof fn law_human_tells_seconds_apart(a: int, b: int)
    requires
        a >= 0,
        b >= 0,
        human_after(Seq::empty(), a) == human_after(Seq::empty(), b),
    ensures
        a == b,
{
    law_units_add_up(a);
    law_units_add_up(b);
    reveal_strlit("d");
    reveal_strlit("h");
    reveal_strlit("m");
    reveal_strlit("s");
    let nothing = Seq::<char>::empty();
    let (days_a, days_b) = (
        if days_in(a) > 0 {
            nothing + text::decimal(days_in(a)) + "d"@
        } else {
            nothing
        },
        if days_in(b) > 0 {
            nothing + text::decimal(days_in(b)) + "d"@
        } else {
            nothing
        },
    );
    let hours_a = with_unit_from(days_a, hours_in(a), "h"@);
    let hours_b = with_unit_from(days_b, hours_in(b), "h"@);
    let minutes_a = with_unit_from(hours_a, minutes_in(a), "m"@);
    let minutes_b = with_unit_from(hours_b, minutes_in(b), "m"@);
    lemma_with_unit(minutes_a, seconds_in(a), minutes_b, seconds_in(b), "s"@);
    lemma_with_unit_from(hours_a, minutes_in(a), hours_b, minutes_in(b), "m"@);
    lemma_with_unit_from(days_a, hours_in(a), days_b, hours_in(b), "h"@);
    if days_in(a) > 0 && days_in(b) > 0 {
        assert(text::decimal(days_in(a)) =~= days_a.take(days_a.len() - 1));
        assert(text::decimal(days_in(b)) =~= days_b.take(days_b.len() - 1));
        text::lemma_numeral_injective(days_in(a), days_in(b), 10);
    }
}

/// The character of a digit.
pub open spec fn digit(n: int) -> char {
    ('0' as int + n) as char
}

/// The eight characters of a digital clock.
pub open spec fn clock_face(hours: int, minutes: int, seconds: int) -> Seq<char> {
    seq![
        digit(hours / 10),
        digit(hours % 10),
        ':',
        digit(minutes / 10),
        digit(minutes % 10),
        ':',
        digit(seconds / 10),
        digit(seconds % 10),
    ]
}

/// A digital clock shows hours, minutes and seconds in two digits each, in this order and with
/// colons between them, and from a day on the days in front of them.
pub proof fn law_digital_clock(days: int, hours: int, minutes: int, seconds: int)
    requires
        0 <= days,
        0 <= hours < 24,
        0 <= minutes < 60,
        0 <= seconds < 60,
    ensures
        digital(days * 86_400 + hours * 3_600 + minutes * 60 + seconds) == (if days > 0 {
            text::decimal(days) + "d "@
        } else {
            Seq::empty()
        }) + clock_face(hours, minutes, seconds),
{
    let time = days * 86_400 + hours * 3_600 + minutes * 60 + seconds;
    lemma_units_of(days, hours, minutes, seconds);
    lemma_digital_tail(time);
    let shown = digital(time);
    let n = shown.len() as int;
    assert(shown =~= shown.take(n - 8) + shown.skip(n - 8));
    assert(shown.skip(n - 8) =~= clock_face(hours, minutes, seconds));
}

proof fn lemma_units_of(days: int, hours: int, minutes: int, seconds: int)
    requires
        0 <= days,
        0 <= hours < 24,
        0 <= minutes < 60,
        0 <= seconds < 60,
    ensures
        ({
            let time = days * 86_400 + hours * 3_600 + minutes * 60 + seconds;
            &&& days_in(time) == days
            &&& hours_in(time) == hours
            &&& minutes_in(time) == minutes
            &&& seconds_in(time) == seconds
        }),
{
    let time = days * 86_400 + hours * 3_600 + minutes * 60 + seconds;
    let (day, hour) = (hours * 3_600 + minutes * 60 + seconds, minutes * 60 + seconds);
    vstd::arithmetic::div_mod::lemma_fundamental_div_mod_converse(time, 86_400, days, day);
    vstd::arithmetic::div_mod::lemma_fundamental_div_mod_converse(day, 3_600, hours, hour);
    assert(time == (24 * days + hours) * 3_600 + hour);
    vstd::arithmetic::div_mod::lemma_fundamental_div_mod_converse(
        time,
        3_600,
        24 * days + hours,
        hour,
    );
    vstd::arithmetic::div_mod::lemma_fundamental_div_mod_converse(hour, 60, minutes, seconds);
    assert(time == (1_440 * days + 60 * hours + minutes) * 60 + seconds);
    vstd::arithmetic::div_mod::lemma_fundamental_div_mod_converse(
        time,
        60,
        1_440 * days + 60 * hours + minutes,
        seconds,
    );
}

/// A time in words begins with its largest unit that is not zero and goes down to the seconds, with
/// each number in front of its unit and single spaces between them.
pub proof fn law_human_time(seconds: int)
    requires
        seconds >= 0,
    ensures
        ({
            let shown = human_after(Seq::empty(), seconds);
            let (d, h) = (text::decimal(seconds / 86_400), text::decimal(seconds % 86_400 / 3_600));
            let (m, s) = (text::decimal(seconds % 3_600 / 60), text::decimal(seconds % 60));
            &&& seconds < 60 ==> shown == s + "s"@
            &&& 60 <= seconds < 3_600 ==> shown == m + "m"@ + " "@ + s + "s"@
            &&& 3_600 <= seconds < 86_400 ==> shown == h + "h"@ + " "@ + m + "m"@ + " "@ + s + "s"@
            &&& 86_400 <= seconds ==> shown == d + "d"@ + " "@ + h + "h"@ + " "@ + m + "m"@ + " "@ + s
                + "s"@
        }),
{
    let nothing = Seq::<char>::empty();
    let (d, h) = (text::decimal(seconds / 86_400), text::decimal(seconds % 86_400 / 3_600));
    let (m, s) = (text::decimal(seconds % 3_600 / 60), text::decimal(seconds % 60));
    assert(nothing + d =~= d);
    assert(nothing + h =~= h);
    assert(nothing + m =~= m);
    assert(nothing + s =~= s);
    reveal_strlit("d");
    reveal_strlit("h");
    reveal_strlit("m");
    if seconds < 86_400 {
        assert(days_in(seconds) == 0);
        assert(seconds % 86_400 == seconds);
    }
    if seconds < 3_600 {
        assert(hours_in(seconds) == 0);
    }
    if seconds < 60 {
        assert(minutes_in(seconds) == 0);
    }
}

/// The style decides how the time that is left is shown, behind what stands in front of it.
pub proof fn law_style_decides(front: Seq<char>, seconds: int)
    ensures
        remaining_after(front, seconds, TimerStyle::Digital) == front + digital(seconds),
        remaining_after(front, seconds, TimerStyle::Human) == human_after(front, seconds),
{
}

/// Behind other text all units are shown, from the hours on, and the days if there are any.
pub proof fn law_human_time_behind_text(front: Seq<char>, seconds: int)
    requires
        front.len() > 0,
        seconds >= 0,
    ensures
        ({
            let days = if seconds >= 86_400 {
                text::decimal(seconds / 86_400) + "d"@
            } else {
                Seq::empty()
            };
            human_after(front, seconds) == front + days + " "@ + text::decimal(
                seconds % 86_400 / 3_600,
            ) + "h"@ + " "@ + text::decimal(seconds % 3_600 / 60) + "m"@ + " "@ + text::decimal(
                seconds % 60,
            ) + "s"@
        }),
{
    reveal_strlit("h");
    reveal_strlit("m");
    if seconds >= 86_400 {
        assert(front + text::decimal(seconds / 86_400) + "d"@ =~= front + (text::decimal(
            seconds / 86_400,
        ) + "d"@));
    } else {
        assert(front + Seq::<char>::empty() =~= front);
    }
}

/// With everything shown the display has five lines: the title, the input, the current time, the
/// target and the time that is left. Each of the last four is left out where it is not to be shown,
/// and the others stay as they are.
pub proof fn law_display_lines(
    view: RendererView,
    current: Seq<char>,
    target: Seq<char>,
    seconds: int,
)
    ensures
        ({
            let settings = view.settings;
            let line = |shown: bool, text: Seq<char>|
                if shown {
                    seq![text]
                } else {
                    Seq::<Seq<char>>::empty()
                };
            lines_of(view, current, target, seconds) == seq!["tix | foreground"@] + line(
                settings.show_input,
                "input: "@ + view.spec_text,
            ) + line(settings.show_current_datetime, "current: "@ + current) + line(
                settings.show_target_datetime,
                "target: "@ + target,
            ) + line(
                settings.show_remaining,
                remaining_after("remaining: "@, seconds, settings.timer_style),
            )
        }),
{
    let settings = view.settings;
    let line = |shown: bool, text: Seq<char>|
        if shown {
            seq![text]
        } else {
            Seq::<Seq<char>>::empty()
        };
    assert(lines_of(view, current, target, seconds) =~= seq!["tix | foreground"@] + line(
        settings.show_input,
        "input: "@ + view.spec_text,
    ) + line(settings.show_current_datetime, "current: "@ + current) + line(
        settings.show_target_datetime,
        "target: "@ + target,
    ) + line(
        settings.show_remaining,
        remaining_after("remaining: "@, seconds, settings.timer_style),
    ));
}

/// The display at an instant shows that instant as the current time, the target, and the whole
/// seconds that are left between them.
pub proof fn law_display_at(view: RendererView, now: UtcTime)
    ensures
        lines_at(view, now) == lines_of(
            view,
            schedule::shown(view.timezone, now, view.time_notation),
            schedule::shown(view.timezone, view.target, view.time_notation),
            calendar::remaining(now, view.target) / 1_000_000_000,
        ),
{
}

/// To take lines off the screen, the cursor goes to the start of its line, up by one line less than
/// there are, and everything from there on is erased. Nothing is done where there are none.
pub proof fn law_erasure(lines: int)
    requires
        lines >= 0,
    ensures
        erasure(0) == Seq::<char>::empty(),
        erasure(1) == "\r\x1b[J"@,
        lines > 1 ==> erasure(lines) == "\r\x1b["@ + text::decimal(lines - 1) + "A\x1b[J"@,
{
    reveal_strlit("\r");
    reveal_strlit("\x1b[");
    reveal_strlit("A");
    reveal_strlit("\x1b[J");
    reveal_strlit("\r\x1b[J");
    reveal_strlit("\r\x1b[");
    reveal_strlit("A\x1b[J");
    assert("\r"@ + "\x1b[J"@ =~= "\r\x1b[J"@);
    assert("\r"@ + "\x1b["@ =~= "\r\x1b["@);
    if lines > 1 {
        assert(erasure(lines) =~= "\r\x1b["@ + text::decimal(lines - 1) + "A\x1b[J"@);
    }
}

} // verus!
