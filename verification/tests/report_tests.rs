use tix::calendar::{TimeSpan, UtcTime};
use tix::report::{
    alarm_report, all_stopped_report, background_report, choose_course, config_report,
    config_update_report, detail_line, format_pretty_duration, mode_label, order_alarm, plan_stop,
    section_line, status_report, stopped_report, subsection_line, volume_report,
    volume_test_report, Course, StopPlan,
};
use tix::types::{ActiveAlarmState, Config, RunMode, TimeNotation};
use tix::zone::Timezone;

fn state(id: &str, target: &str) -> ActiveAlarmState {
    ActiveAlarmState {
        id: id.to_string(),
        pid: 42,
        spec_text: "10m".to_string(),
        target_utc: target.to_string(),
        created_at_utc: "2026-03-12T12:20:00Z".to_string(),
        auto_stop_seconds: 0,
        volume: 0,
        sound_file: None,
    }
}

#[test]
fn sections_are_filled_up() {
    let line = section_line("Config");
    assert_eq!(line, format!("== Config {}", "-".repeat(46)));
    assert_eq!(line.len(), 56);
    let long = "x".repeat(60);
    assert_eq!(section_line(&long), format!("== {long} ----"));
    assert_eq!(section_line("\u{e9}").len(), 56);
    assert_eq!(subsection_line("a"), "-- a");
}

#[test]
fn details_are_aligned() {
    assert_eq!(detail_line("ID", "x"), "  ID:          x");
    assert_eq!(detail_line("ID", "x"), format!("  {:<12} {}", "ID:", "x"));
    let label = "a very long label";
    assert_eq!(detail_line(label, "x"), format!("  {:<12} {}", format!("{label}:"), "x"));
    assert_eq!(detail_line("\u{e9}", ""), format!("  {:<12} ", "\u{e9}:"));
    assert_eq!(mode_label(RunMode::Background), "background");
    assert_eq!(mode_label(RunMode::Foreground), "foreground");
}

#[test]
fn spans_are_rounded_to_seconds() {
    let pretty = |secs, nanos| format_pretty_duration(TimeSpan { secs, nanos });
    assert_eq!(pretty(0, 0), "0s");
    assert_eq!(pretty(0, 499_999_999), "less than 1s");
    assert_eq!(pretty(0, 500_000_000), "1s");
    assert_eq!(pretty(59, 500_000_000), "1m 0s");
    assert_eq!(pretty(90_061, 0), "1d 1h 1m 1s");
    assert_eq!(pretty(u64::MAX, 999_999_999), "213503982334601d 7h 0m 15s");
}

#[test]
fn the_course_follows_the_command_line_first() {
    let (back, fore) = (RunMode::Background, RunMode::Foreground);
    assert_eq!(choose_course(true, Some(fore), back), Course::Preview);
    assert_eq!(choose_course(false, Some(fore), back), Course::Foreground);
    assert_eq!(choose_course(false, None, back), Course::Background);
    assert_eq!(choose_course(false, Some(back), fore), Course::Background);
}

#[test]
fn alarms_are_reported() {
    let left = TimeSpan { secs: 600, nanos: 0 };
    let lines = alarm_report(Course::Preview, "10m", "noon", left, RunMode::Background);
    assert_eq!(
        lines,
        [
            section_line("Alarm Preview"),
            detail_line("Input", "10m"),
            detail_line("Target", "noon"),
            detail_line("Remaining", "10m 0s"),
            detail_line("Mode", "background"),
            String::new(),
            "Preview only. No alarm started.".to_string(),
        ]
    );
    let lines = alarm_report(Course::Background, "10m", "noon", left, RunMode::Background);
    assert_eq!(lines.len(), 5);
    assert_eq!(lines[0], section_line("Alarm Ready"));
    let lines = alarm_report(Course::Foreground, "10m", "noon", left, RunMode::Foreground);
    assert_eq!(lines[4], detail_line("Mode", "foreground"));
    assert_eq!(
        lines[6],
        "Foreground mode. Press Ctrl-C to cancel or stop the ringing alarm."
    );
    assert_eq!(
        background_report("ff-1", 7),
        [
            String::new(),
            section_line("Background Worker"),
            detail_line("ID", "ff-1"),
            detail_line("PID", "7"),
            detail_line("Stop", "tix stop ff-1"),
        ]
    );
}

#[test]
fn the_status_of_alarms_is_reported() {
    let berlin = Timezone::from_name("Europe/Berlin").unwrap();
    let now = UtcTime { secs: 1_773_318_590, nanos: 0 };
    let states = [state("a", "2026-03-12T12:30:00Z"), state("b", "soon")];
    let (lines, answer) = status_report(&states[..1], &berlin, TimeNotation::H24, now);
    assert_eq!(answer, Ok(()));
    assert_eq!(
        lines,
        [
            section_line("Active Alarms"),
            detail_line("Count", "1"),
            String::new(),
            "-- [1] a".to_string(),
            detail_line("PID", "42"),
            detail_line("Input", "10m"),
            detail_line("Target", "2026-03-12 13:30:00 CET"),
            detail_line("Remaining", "10s"),
            detail_line("Created", "2026-03-12T12:20:00Z"),
        ]
    );
    let (lines, answer) = status_report(&states, &berlin, TimeNotation::H24, now);
    assert!(answer.unwrap_err().starts_with("invalid stored target time `soon`: "));
    assert_eq!(lines.len(), 9);
    assert_eq!(lines[1], detail_line("Count", "2"));
}

#[test]
fn alarms_to_stop_are_found() {
    let states = [state("abc", "x"), state("abd", "y")];
    assert!(matches!(plan_stop(&[], None, true), Ok(StopPlan::Nothing)));
    assert!(matches!(plan_stop(&states, None, true), Ok(StopPlan::All)));
    assert!(matches!(
        plan_stop(&states, Some("abd".to_string()), false),
        Ok(StopPlan::One(found)) if found.id == "abd"
    ));
    assert!(matches!(
        plan_stop(&states[..1], None, false),
        Ok(StopPlan::One(found)) if found.id == "abc"
    ));
    assert_eq!(
        plan_stop(&states, None, false).unwrap_err(),
        "multiple active alarms found; use `tix stop <id>` or `tix stop --all`\nactive ids: abc, abd"
    );
    assert_eq!(
        plan_stop(&states, Some("q".to_string()), false).unwrap_err(),
        "no active alarm matches `q`"
    );
    assert_eq!(
        all_stopped_report(2),
        [section_line("Alarms Stopped"), detail_line("Count", "2")]
    );
    assert_eq!(
        stopped_report("abc", 42),
        [section_line("Alarm Stopped"), detail_line("ID", "abc"), detail_line("PID", "42")]
    );
}

#[test]
fn settings_and_volumes_are_reported() {
    assert_eq!(
        config_report("Config", "/c"),
        [section_line("Config"), detail_line("Path", "/c"), String::new()]
    );
    assert_eq!(
        config_update_report("/c", "k", "v"),
        [
            section_line("Config Updated"),
            detail_line("Path", "/c"),
            detail_line("Key", "k"),
            detail_line("Value", "v"),
            String::new(),
        ]
    );
    assert_eq!(
        volume_report("0.50"),
        [section_line("Volume Updated"), detail_line("Value", "0.50")]
    );
    let shown = volume_test_report("0.50", &None);
    assert_eq!(shown[2], detail_line("Sound", "built-in tone fallback"));
    let shown = volume_test_report("0.50", &Some("a.mp3".to_string()));
    assert_eq!(
        shown,
        [
            section_line("Volume Test"),
            detail_line("Volume", "0.50"),
            detail_line("Sound", "a.mp3"),
            String::new(),
        ]
    );
}

#[test]
fn an_alarm_is_ordered_by_the_settings_and_the_command_line() {
    let config = Config::for_system(Some("Europe/Berlin".to_string()));
    let zone = config.parsed_timezone().unwrap();
    let target = UtcTime { secs: 1_773_318_600, nanos: 0 };
    let now = UtcTime { secs: 1_773_318_000, nanos: 0 };
    let order = order_alarm(&config, &zone, "10m", target, false, None, now);
    assert_eq!(order.course, Course::Background);
    assert_eq!(order.target, target);
    assert!(order.notifications.enabled && order.notifications.clickable);
    assert_eq!(order.report[1], detail_line("Input", "10m"));
    assert_eq!(order.report[2], detail_line("Target", "2026-03-12 13:30:00 CET"));
    assert_eq!(order.report[3], detail_line("Remaining", "10m 0s"));
    assert_eq!(order.report[4], detail_line("Mode", "background"));
    let fore = Some(RunMode::Foreground);
    let order = order_alarm(&config, &zone, "10m", target, true, fore, target);
    assert_eq!(order.course, Course::Preview);
    assert_eq!(order.report[3], detail_line("Remaining", "0s"));
    assert_eq!(order.report[4], detail_line("Mode", "foreground"));
}
