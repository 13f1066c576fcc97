use tix::calendar::{TimeSpan, UtcTime};
use tix::display::{format_remaining, format_remaining_into, ForegroundRenderer};
use tix::types::{ForegroundConfig, TimeNotation, TimerStyle};
use tix::zone::Timezone;

#[test]
fn human_remaining_formatting_matches_expected_text() {
    assert_eq!(format_remaining(TimeSpan::from_secs(90_061), TimerStyle::Human), "1d 1h 1m 1s");
}

#[test]
fn digital_remaining_formatting_matches_expected_text() {
    assert_eq!(format_remaining(TimeSpan::from_secs(90_061), TimerStyle::Digital), "1d 01:01:01");
}

#[test]
fn remaining_formatting_leaves_out_what_is_not_there() {
    let human = |secs| format_remaining(TimeSpan::from_secs(secs), TimerStyle::Human);
    let digital = |secs| format_remaining(TimeSpan::from_secs(secs), TimerStyle::Digital);
    assert_eq!(human(0), "0s");
    assert_eq!(human(59), "59s");
    assert_eq!(human(60), "1m 0s");
    assert_eq!(human(3_600), "1h 0m 0s");
    assert_eq!(human(86_400), "1d 0h 0m 0s");
    assert_eq!(human(u64::MAX), "213503982334601d 7h 0m 15s");
    assert_eq!(digital(0), "00:00:00");
    assert_eq!(digital(86_399), "23:59:59");
    assert_eq!(digital(u64::MAX), "213503982334601d 07:00:15");
    let mut out = "left: ".to_string();
    format_remaining_into(TimeSpan::from_secs(5), TimerStyle::Human, &mut out);
    assert_eq!(out, "left:  0h 0m 5s");
}

fn renderer(enabled: bool, settings: ForegroundConfig) -> ForegroundRenderer {
    ForegroundRenderer::new(
        enabled,
        settings,
        Timezone::from_name("UTC").unwrap(),
        TimeNotation::H24,
        UtcTime { secs: 90_061, nanos: 0 },
        "10m",
    )
}

#[test]
fn the_display_is_drawn_over_itself() {
    let mut display = renderer(true, ForegroundConfig::default());
    assert!(display.enabled());
    assert_eq!(display.refresh_interval(), TimeSpan { secs: 0, nanos: 250_000_000 });
    let lines = "tix | foreground\ninput: 10m\ncurrent: 1970-01-01 00:00:00 UTC\n\
target: 1970-01-02 01:01:01 UTC\nremaining: 1d 01:01:01";
    let start = UtcTime { secs: 0, nanos: 0 };
    assert_eq!(display.render(start), lines);
    assert_eq!(display.render(start), format!("\r\x1b[4A\x1b[J{lines}"));
    assert_eq!(display.clear(), "\r\x1b[4A\x1b[J");
    assert_eq!(display.clear(), "");
    let later = display.render(UtcTime { secs: 90_062, nanos: 0 });
    assert!(later.starts_with("tix | foreground\n"));
    assert!(later.ends_with("\nremaining: 00:00:00"));
}

#[test]
fn the_display_shows_what_is_set() {
    let settings = ForegroundConfig {
        refresh_interval_ms: 1,
        show_current_datetime: false,
        show_target_datetime: false,
        show_remaining: false,
        show_input: false,
        timer_style: TimerStyle::Human,
    };
    let mut display = renderer(true, settings);
    assert_eq!(display.refresh_interval(), TimeSpan { secs: 0, nanos: 100_000_000 });
    let start = UtcTime { secs: 0, nanos: 500_000_000 };
    assert_eq!(display.render(start), "tix | foreground");
    assert_eq!(display.render(start), "\r\x1b[Jtix | foreground");
    let mut display = renderer(true, ForegroundConfig { show_remaining: true, ..settings });
    assert_eq!(display.render(start), "tix | foreground\nremaining: 1d 1h 1m 0s");
}

#[test]
fn nothing_is_drawn_where_there_is_no_terminal() {
    let mut display = renderer(false, ForegroundConfig::default());
    assert!(!display.enabled());
    assert_eq!(display.render(UtcTime { secs: 0, nanos: 0 }), "");
    assert_eq!(display.clear(), "");
}

#[test]
fn different_times_are_shown_differently() {
    let styles = [TimerStyle::Digital, TimerStyle::Human];
    let samples = [0, 1, 10, 59, 60, 61, 600, 3_599, 3_600, 36_000, 86_399, 86_400, 864_000];
    for style in styles {
        for a in samples {
            for b in samples {
                let same = format_remaining(TimeSpan::from_secs(a), style)
                    == format_remaining(TimeSpan::from_secs(b), style);
                assert_eq!(same, a == b);
            }
        }
    }
}

#[test]
fn the_display_is_drawn_with_given_texts() {
    let mut display = renderer(true, ForegroundConfig::default());
    let left = TimeSpan { secs: 61, nanos: 999_999_999 };
    assert_eq!(
        display.redraw("now", "then", left),
        "tix | foreground\ninput: 10m\ncurrent: now\ntarget: then\nremaining: 00:01:01"
    );
    assert!(display.redraw("now", "then", left).starts_with("\r\x1b[4A\x1b[Jtix | foreground\n"));
}
