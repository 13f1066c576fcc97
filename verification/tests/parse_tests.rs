use chrono::{NaiveDate, Timelike};
use tix::calendar::{CalendarDate, ClockTime, LocalDateTime, TimeSpan, UtcTime};
use tix::dates::{parse_numeric_date, resolve_date_candidate, DateCandidate};
use tix::parse::{
    choose_alarm_spec, local_datetime_from, parse_alarm_spec, parse_command, parse_wording,
    try_parse_alarm_spec, HELP,
};
use tix::types::{AlarmSpec, AppResult, Argument, Command, DateOrder, DateParseConfig, RunMode};
use tix::wording::{
    count_duration_digits, is_readable_duration, normalize_spec_text, parse_time_only,
    split_absolute_datetime,
};

fn parse_config(order: DateOrder) -> DateParseConfig {
    DateParseConfig { fallback_order: order, prefer_locale_order: false, locale_order: None }
}

fn argument(text: &str) -> Argument {
    Argument { text: text.to_string(), number: text.parse::<f64>().ok().map(f64::to_bits) }
}

fn command(words: &[&str]) -> AppResult<Command> {
    parse_command(words.iter().map(|word| argument(word)).collect())
}

fn refusal(words: &[&str]) -> String {
    command(words).unwrap_err()
}

fn clock(hour: u32, minute: u32, second: u32) -> ClockTime {
    ClockTime::from_hms(hour, minute, second).unwrap()
}

fn local(year: i32, month: u32, day: u32, hour: u32, minute: u32) -> LocalDateTime {
    LocalDateTime { date: CalendarDate { year, month, day }, time: clock(hour, minute, 0) }
}

#[test]
fn parses_relative_duration() {
    let spec = parse_alarm_spec("10m", parse_config(DateOrder::Dmy)).unwrap();
    assert!(matches!(spec, AlarmSpec::Duration(value) if value == TimeSpan::from_secs(600)));
}

#[test]
fn parses_time_only_24h() {
    let spec = parse_alarm_spec("13:30", parse_config(DateOrder::Dmy)).unwrap();
    assert!(matches!(spec, AlarmSpec::TimeOfDay(value) if value == clock(13, 30, 0)));
}

#[test]
fn parses_time_only_12h() {
    let spec = parse_alarm_spec("01:30pm", parse_config(DateOrder::Dmy)).unwrap();
    assert!(matches!(spec, AlarmSpec::TimeOfDay(value) if value == clock(13, 30, 0)));
}

#[test]
fn parses_dotted_local_datetime() {
    let spec = parse_alarm_spec("12.03.2026 13:30", parse_config(DateOrder::Dmy)).unwrap();
    assert!(matches!(spec, AlarmSpec::Absolute(value) if value == local(2026, 3, 12, 13, 30)));
}

#[test]
fn parses_slash_dates_by_configured_order() {
    let dmy = parse_alarm_spec("03/12/2026 13:30", parse_config(DateOrder::Dmy)).unwrap();
    assert!(matches!(dmy, AlarmSpec::Absolute(value) if value == local(2026, 12, 3, 13, 30)));

    let mdy = parse_alarm_spec("03/12/2026 13:30", parse_config(DateOrder::Mdy)).unwrap();
    assert!(matches!(mdy, AlarmSpec::Absolute(value) if value == local(2026, 3, 12, 13, 30)));
}

#[test]
fn parses_unambiguous_month_day_year_even_with_dmy_fallback() {
    let spec = parse_alarm_spec("12/31/2026 8:15pm", parse_config(DateOrder::Dmy)).unwrap();
    assert!(matches!(spec, AlarmSpec::Absolute(value) if value == local(2026, 12, 31, 20, 15)));
}

#[test]
fn parses_hyphenated_month_day_year_when_unambiguous() {
    let spec = parse_alarm_spec("12-31-2026 20:15", parse_config(DateOrder::Dmy)).unwrap();
    assert!(matches!(spec, AlarmSpec::Absolute(value) if value == local(2026, 12, 31, 20, 15)));
}

#[test]
fn locale_order_can_override_fallback_for_ambiguous_slash_dates() {
    let spec = parse_alarm_spec(
        "03/04/2026 13:30",
        DateParseConfig {
            fallback_order: DateOrder::Dmy,
            prefer_locale_order: true,
            locale_order: Some(DateOrder::Mdy),
        },
    )
    .unwrap();
    assert!(matches!(spec, AlarmSpec::Absolute(value) if value == local(2026, 3, 4, 13, 30)));
}

#[test]
fn ymd_fallback_rejects_ambiguous_year_last_slash_dates() {
    let result = parse_alarm_spec("03/04/2026 13:30", parse_config(DateOrder::Ymd));
    assert!(result.is_err());
    assert_eq!(
        result.unwrap_err(),
        "ambiguous date `03/04/2026`; valid interpretations match dmy/mdy. disable prefer_locale_date_order, adjust date_order, or use `YYYY-MM-DD`"
    );
}

#[test]
fn alarm_defaults_to_configured_mode() {
    let command = command(&["10m"]).unwrap();
    assert!(matches!(command, Command::Alarm { mode_override: None, .. }));
}

#[test]
fn foreground_flag_is_parsed() {
    let command = command(&["-f", "10m"]).unwrap();
    assert!(matches!(
        command,
        Command::Alarm { mode_override: Some(RunMode::Foreground), .. }
    ));
}

#[test]
fn background_flag_is_parsed() {
    let command = command(&["-b", "10m"]).unwrap();
    assert!(matches!(
        command,
        Command::Alarm { mode_override: Some(RunMode::Background), .. }
    ));
}

#[test]
fn conflicting_mode_flags_are_rejected() {
    let result = command(&["-f", "-b", "10m"]);
    assert!(result.is_err());
    assert_eq!(result.unwrap_err(), "cannot pass both foreground and background mode flags");
}

#[test]
fn stop_command_variants_are_parsed() {
    let stop = command(&["stop"]).unwrap();
    assert!(matches!(stop, Command::Stop { selector: None, all: false }));

    let stop = command(&["stop", "--all"]).unwrap();
    assert!(matches!(stop, Command::Stop { selector: None, all: true }));

    let stop = command(&["stop", "abc123"]).unwrap();
    assert!(matches!(stop, Command::Stop { selector: Some(_), all: false }));
}

#[test]
fn worker_command_is_parsed() {
    let command = command(&[
        "__worker",
        "--alarm-id",
        "abc123",
        "--target-utc",
        "2026-03-12T12:30:00Z",
        "--auto-stop-seconds",
        "15",
        "--volume",
        "0.40",
        "--sound-file",
        "/tmp/alarm.mp3",
        "--notifications-enabled",
        "true",
        "--notifications-clickable",
        "true",
        "--notifications-timeout-ms",
        "0",
        "--notifications-show-stop-button",
        "true",
    ])
    .unwrap();

    assert!(matches!(
        command,
        Command::Worker {
            volume,
            notifications,
            sound_file: Some(_),
            ..
        } if (f64::from_bits(volume.bits) as f32 - 0.40).abs() < f32::EPSILON
            && notifications.enabled
            && notifications.clickable
            && notifications.timeout_ms == 0
            && notifications.show_stop_button
    ));
}

#[test]
fn volume_shortcuts_are_parsed() {
    let set = command(&["volume", "0.35"]).unwrap();
    assert!(
        matches!(set, Command::VolumeSet { volume } if (f64::from_bits(volume.bits) - 0.35).abs() < f64::EPSILON)
    );

    let test = command(&["volume", "test"]).unwrap();
    assert!(matches!(test, Command::VolumeTest { volume_override: None }));
}

#[test]
fn parses_year_first_slash_datetime() {
    let spec = parse_alarm_spec("2026/03/12 13:30", parse_config(DateOrder::Dmy)).unwrap();
    assert!(matches!(spec, AlarmSpec::Absolute(value) if value == local(2026, 3, 12, 13, 30)));
}

#[test]
fn worker_command_holds_what_was_said() {
    let worker = command(&[
        "__worker",
        "--volume",
        "1",
        "--target-utc",
        "2026-03-12T13:30:00.5+01:00",
        "--alarm-id",
        "a",
        "--alarm-id",
        "b",
        "--notifications-enabled",
        " Off ",
        "--notifications-timeout-ms",
        "+4294967295",
    ])
    .unwrap();
    match worker {
        Command::Worker {
            alarm_id,
            target_utc,
            auto_stop_seconds,
            volume,
            sound_file,
            notifications,
        } => {
            assert_eq!(alarm_id, "b");
            assert_eq!(target_utc, UtcTime { secs: 1_773_318_600, nanos: 500_000_000 });
            assert_eq!(auto_stop_seconds, 0);
            assert_eq!(f64::from_bits(volume.bits), 1.0);
            assert!(sound_file.is_none());
            assert!(!notifications.enabled);
            assert!(notifications.clickable);
            assert_eq!(notifications.timeout_ms, u32::MAX);
            assert!(notifications.show_stop_button);
        }
        _ => panic!("not a worker"),
    }
}

#[test]
fn worker_flags_come_in_any_order() {
    let shown = |words: &[&str]| format!("{:?}", command(words).unwrap());
    let first = shown(&[
        "__worker",
        "--alarm-id",
        "a",
        "--target-utc",
        "2026-03-12T12:30:00Z",
        "--volume",
        "0.5",
        "--notifications-enabled",
        "false",
        "--sound-file",
        "x.ogg",
    ]);
    let second = shown(&[
        "__worker",
        "--sound-file",
        "x.ogg",
        "--notifications-enabled",
        "false",
        "--volume",
        "0.5",
        "--alarm-id",
        "a",
        "--target-utc",
        "2026-03-12T12:30:00Z",
    ]);
    assert_eq!(first, second);
    let repeated = shown(&[
        "__worker",
        "--alarm-id",
        "b",
        "--volume",
        "0.1",
        "--sound-file",
        "y.ogg",
        "--alarm-id",
        "a",
        "--notifications-enabled",
        "yes",
        "--target-utc",
        "2026-03-12T12:30:00Z",
        "--sound-file",
        "x.ogg",
        "--notifications-enabled",
        "false",
        "--volume",
        "0.5",
    ]);
    assert_eq!(first, repeated);
}

#[test]
fn volume_commands_agree() {
    for value in ["0", "0.35", "1", "1.5", "-1", "NaN", "loud", ""] {
        let alone = command(&["volume", value]);
        let set = command(&["volume", "set", value]);
        let test = command(&["volume", "test", value]);
        match (alone, set, test) {
            (
                Ok(Command::VolumeSet { volume: a }),
                Ok(Command::VolumeSet { volume: b }),
                Ok(Command::VolumeTest { volume_override: Some(c) }),
            ) => {
                assert_eq!(f64::from_bits(a.bits), value.parse::<f64>().unwrap());
                assert!(a.bits == b.bits && b.bits == c.bits);
            }
            (Err(a), Err(b), Err(c)) => assert!(a == b && b == c),
            other => panic!("{:?}", other),
        }
        assert!(command(&["volume", value, "x"]).is_err());
        assert!(command(&["volume", "set", value, "x"]).is_err());
        assert!(command(&["volume", "test", value, "x"]).is_err());
    }
    assert!(matches!(command(&["volume"]).unwrap(), Command::VolumeShow));
}

#[test]
fn worker_command_refuses_what_is_missing_or_wrong() {
    assert_eq!(refusal(&["__worker"]), "__worker requires --alarm-id <id>");
    assert_eq!(refusal(&["__worker", "--alarm-id"]), "__worker requires --alarm-id <id>");
    assert_eq!(
        refusal(&["__worker", "--alarm-id", "a"]),
        "__worker requires --target-utc <rfc3339>"
    );
    assert_eq!(
        refusal(&["__worker", "--target-utc"]),
        "__worker requires --target-utc <rfc3339>"
    );
    assert_eq!(
        refusal(&["__worker", "--alarm-id", "a", "--target-utc", "2026-03-12T12:30:00Z"]),
        "__worker requires --volume <0.0..=1.0>"
    );
    assert_eq!(refusal(&["__worker", "--volume"]), "__worker requires --volume <0.0..=1.0>");
    assert_eq!(
        refusal(&["__worker", "--auto-stop-seconds"]),
        "__worker requires --auto-stop-seconds <u64>"
    );
    assert_eq!(refusal(&["__worker", "--sound-file"]), "__worker requires --sound-file <path>");
    assert_eq!(
        refusal(&["__worker", "--notifications-enabled"]),
        "__worker requires --notifications-enabled <true|false>"
    );
    assert_eq!(
        refusal(&["__worker", "--notifications-clickable"]),
        "__worker requires --notifications-clickable <true|false>"
    );
    assert_eq!(
        refusal(&["__worker", "--notifications-timeout-ms"]),
        "__worker requires --notifications-timeout-ms <u32>"
    );
    assert_eq!(
        refusal(&["__worker", "--notifications-show-stop-button"]),
        "__worker requires --notifications-show-stop-button <true|false>"
    );
    assert_eq!(
        refusal(&["__worker", "--auto-stop-seconds", "-1"]),
        "worker auto-stop seconds must be an unsigned integer"
    );
    assert_eq!(
        refusal(&["__worker", "--auto-stop-seconds", "18446744073709551616"]),
        "worker auto-stop seconds must be an unsigned integer"
    );
    assert_eq!(
        refusal(&["__worker", "--notifications-timeout-ms", "4294967296"]),
        "notifications.timeout_ms must be an unsigned integer"
    );
    assert_eq!(
        refusal(&["__worker", "--volume", "loud"]),
        "volume must be a number between 0.0 and 1.0"
    );
    assert_eq!(refusal(&["__worker", "--volume", "2"]), "volume must be between 0.0 and 1.0");
    assert_eq!(
        refusal(&["__worker", "--notifications-clickable", "maybe"]),
        "boolean value must be one of: true, false"
    );
    assert_eq!(refusal(&["__worker", "--loud"]), "unknown internal worker argument `--loud`");
    let target = refusal(&["__worker", "--target-utc", "soon"]);
    let error = chrono::DateTime::parse_from_rfc3339("soon").unwrap_err();
    assert_eq!(target, format!("invalid worker target time `soon`: {error}"));
}

#[test]
fn help_and_status_are_parsed() {
    assert!(matches!(command(&[]).unwrap(), Command::Help));
    assert!(matches!(command(&["-h"]).unwrap(), Command::Help));
    assert!(matches!(command(&["--help", "10m"]).unwrap(), Command::Help));
    assert!(matches!(command(&["status", "10m"]).unwrap(), Command::Status));
    assert!(HELP.starts_with("tix - clock alarm timer\n\nUsage:\n  tix [--dry-run]"));
    assert!(HELP.ends_with("can be active at the same time.\n"));
}

#[test]
fn alarm_words_are_joined_and_flags_are_taken_out() {
    let alarm = command(&["12/31/2026", "--dry-run", "8:15pm", "--timezone", "-f", "-f", "-f"]);
    match alarm.unwrap() {
        Command::Alarm { spec_text, dry_run, timezone_override, mode_override } => {
            assert_eq!(spec_text, "12/31/2026 8:15pm");
            assert!(dry_run);
            assert_eq!(timezone_override.as_deref(), Some("-f"));
            assert_eq!(mode_override, Some(RunMode::Foreground));
        }
        _ => panic!("not an alarm"),
    }
    assert_eq!(refusal(&["10m", "--timezone"]), "--timezone requires a value");
    assert_eq!(refusal(&["--dry-run"]), format!("missing alarm input\n\n{HELP}"));
}

#[test]
fn config_commands_are_parsed() {
    assert!(matches!(command(&["config", "init", "x"]).unwrap(), Command::ConfigInit));
    assert!(matches!(command(&["config", "show"]).unwrap(), Command::ConfigShow));
    assert!(matches!(command(&["config", "path"]).unwrap(), Command::ConfigPath));
    match command(&["config", "set", "volume", "0.5"]).unwrap() {
        Command::ConfigSet { key, value } => {
            assert_eq!(key, "volume");
            assert_eq!(value.text, "0.5");
            assert_eq!(value.number, Some(0.5f64.to_bits()));
        }
        _ => panic!("not a setting"),
    }
    assert_eq!(refusal(&["config", "set"]), "config set requires a key");
    assert_eq!(refusal(&["config", "set", "volume"]), "config set requires a value");
    assert_eq!(
        refusal(&["config", "set", "volume", "1", "2"]),
        "config set accepts exactly one key and one value"
    );
    assert_eq!(refusal(&["config"]), "supported config commands: init, show, path, set");
    assert_eq!(refusal(&["config", "get"]), "supported config commands: init, show, path, set");
}

#[test]
fn stop_and_volume_commands_refuse_what_is_too_much() {
    assert!(matches!(
        command(&["stop", "all"]).unwrap(),
        Command::Stop { selector: None, all: true }
    ));
    assert_eq!(
        refusal(&["stop", "all", "x"]),
        "stop --all does not accept additional arguments"
    );
    assert_eq!(refusal(&["stop", "x", "y"]), "stop accepts at most one alarm id selector");
    assert!(matches!(command(&["volume"]).unwrap(), Command::VolumeShow));
    assert!(matches!(command(&["volume", "show"]).unwrap(), Command::VolumeShow));
    assert_eq!(refusal(&["volume", "set"]), "volume set requires a numeric value");
    assert_eq!(
        refusal(&["volume", "set", "1", "2"]),
        "volume set accepts exactly one numeric value"
    );
    assert!(matches!(
        command(&["volume", "set", "-0.0"]).unwrap(),
        Command::VolumeSet { volume } if volume.bits == (-0.0f64).to_bits()
    ));
    assert!(matches!(
        command(&["volume", "test", "1.0"]).unwrap(),
        Command::VolumeTest { volume_override: Some(volume) } if volume.bits == 1.0f64.to_bits()
    ));
    assert_eq!(
        refusal(&["volume", "test", "1", "2"]),
        "volume test accepts at most one numeric override"
    );
    assert_eq!(
        refusal(&["volume", "test", "x", "2"]),
        "volume must be a number between 0.0 and 1.0"
    );
    assert_eq!(
        refusal(&["volume", "1", "2"]),
        "volume command accepts at most one positional value"
    );
    assert_eq!(refusal(&["volume", "NaN"]), "volume must be between 0.0 and 1.0");
    assert_eq!(refusal(&["volume", "-0.1"]), "volume must be between 0.0 and 1.0");
}

#[test]
fn wordings_are_normalized() {
    assert_eq!(normalize_spec_text("  8:15 \t pm\n"), "8:15 PM");
    assert_eq!(normalize_spec_text("8:15Am"), "8:15AM");
    assert_eq!(normalize_spec_text("m"), "m");
    assert_eq!(normalize_spec_text("\u{3000}"), "");
    assert_eq!(normalize_spec_text("über  pm x"), "über pm x");
}

#[test]
fn durations_are_read_with_and_without_in() {
    let config = parse_config(DateOrder::Dmy);
    let spec = parse_alarm_spec("in   1h 30m", config).unwrap();
    assert_eq!(spec, AlarmSpec::Duration(TimeSpan::from_secs(5400)));
    let spec = parse_alarm_spec("1.5s", config).unwrap();
    assert_eq!(spec, AlarmSpec::Duration(TimeSpan { secs: 1, nanos: 500_000_000 }));
    let spec = parse_alarm_spec("0", config).unwrap();
    assert_eq!(spec, AlarmSpec::Duration(TimeSpan { secs: 0, nanos: 0 }));
    let spec = parse_alarm_spec("584542046090y 9s", config).unwrap();
    assert!(matches!(spec, AlarmSpec::Duration(span) if span.secs > 18_446_744_073_000_000_000));
}

#[test]
fn explicit_times_are_read() {
    let spec = parse_alarm_spec("2026-03-12T13:30:00+01:00", parse_config(DateOrder::Dmy)).unwrap();
    match spec {
        AlarmSpec::Explicit(time) => {
            assert_eq!(time.instant, UtcTime { secs: 1_773_318_600, nanos: 0 });
            assert_eq!(time.offset_seconds, 3600);
        }
        _ => panic!("not an explicit time"),
    }
}

#[test]
fn empty_and_unknown_wordings_are_refused() {
    let config = parse_config(DateOrder::Dmy);
    assert_eq!(parse_alarm_spec(" \t ", config).unwrap_err(), "empty alarm input");
    assert_eq!(
        parse_alarm_spec("some  day", config).unwrap_err(),
        "unsupported time format `some day`\nsupported examples: `10m`, `1h30m`, `13:30`, `01:30pm`, `12/31/2026 8:15pm`, `12.03.2026 13:30`, `2026-03-12 13:30`"
    );
}

#[test]
fn digits_of_a_duration_are_counted() {
    assert_eq!(count_duration_digits("2026-03-12 13:30"), 4);
    assert_eq!(count_duration_digits("1 2.3 \u{b5}s 45"), 5);
}

#[test]
fn inputs_with_many_digits_are_read() {
    let config = parse_config(DateOrder::Dmy);
    let span = |input: &str| match try_parse_alarm_spec(input, config) {
        Some(Ok(AlarmSpec::Duration(span))) => (span.secs, span.nanos),
        other => panic!("{:?}", other),
    };
    assert_eq!(span("1234567890123ns"), (1234, 567_890_123));
    assert_eq!(span("12345678901234ns"), (12_345, 678_901_234));
    assert_eq!(span("100000000000000ns"), (100_000, 0));
    assert_eq!(span("in  100000000000000ns"), (100_000, 0));
    assert_eq!(span("1h 100000000000000ns"), (103_600, 0));
    assert_eq!(span("1000000000000.25s"), (1_000_000_000_000, 250_000_000));
    assert_eq!(span("18446744073709551615s"), (u64::MAX, 0));
    assert_eq!(span("18446744073709551615 seconds"), (u64::MAX, 0));
    assert_eq!(span("18446744073709551615.5s"), (u64::MAX, 500_000_000));
    assert_eq!(span("18446744073709551614s 1000ms"), (u64::MAX, 0));
    assert_eq!(
        parse_alarm_spec("100000000000000ns", config).unwrap(),
        AlarmSpec::Duration(TimeSpan { secs: 100_000, nanos: 0 })
    );
    let refused = |input: &str| try_parse_alarm_spec(input, config).unwrap().unwrap_err();
    assert!(refused("20260312133000").starts_with("unsupported time format `20260312133000`\n"));
    assert!(refused("18446744073709551616s").starts_with("unsupported time format"));
    assert!(refused("18446744073709551614s 2000ms").starts_with("unsupported time format"));
    assert!(refused("18446744073709551615s x").starts_with("unsupported time format"));
    assert!(refused("1.00000000000000000001s").starts_with("unsupported time format"));
}

#[test]
fn durations_past_the_range_are_left_to_the_caller() {
    let config = parse_config(DateOrder::Dmy);
    assert!(!is_readable_duration("18446744073709551615s 1000ms"));
    assert!(!is_readable_duration("500ms 18446744073709551615.5s"));
    assert!(!is_readable_duration("18446744073709551614s 500ms 1000.5ms"));
    assert!(is_readable_duration("18446744073709551614s 1000ms"));
    assert!(try_parse_alarm_spec("18446744073709551615s 1000ms", config).is_none());
    assert!(try_parse_alarm_spec("500ms 18446744073709551615.5s", config).is_none());
    let span = TimeSpan { secs: u64::MAX, nanos: 1 };
    let spec = parse_wording("18446744073709551615s 1ns", Some(span), config).unwrap();
    assert_eq!(spec, AlarmSpec::Duration(span));
}

#[test]
fn readings_are_chosen_in_order() {
    let span = TimeSpan::from_secs(1);
    let time = clock(1, 2, 3);
    let day = local(2026, 3, 12, 1, 2);
    let chosen = choose_alarm_spec("x", Some(span), None, Some(time), Ok(Some(day)));
    assert_eq!(chosen.unwrap(), AlarmSpec::Duration(span));
    let chosen = choose_alarm_spec("x", None, None, Some(time), Ok(Some(day)));
    assert_eq!(chosen.unwrap(), AlarmSpec::TimeOfDay(time));
    let chosen = choose_alarm_spec("x", None, None, None, Ok(Some(day)));
    assert_eq!(chosen.unwrap(), AlarmSpec::Absolute(day));
    let chosen = choose_alarm_spec("x", None, None, None, Err("no".to_string()));
    assert_eq!(chosen.unwrap_err(), "no");
}

#[test]
fn times_of_day_are_read_by_every_pattern() {
    assert_eq!(parse_time_only("7:05"), Some(clock(7, 5, 0)));
    assert_eq!(parse_time_only("07:05:09"), Some(clock(7, 5, 9)));
    assert_eq!(parse_time_only("7:05PM"), Some(clock(19, 5, 0)));
    assert_eq!(parse_time_only("12:05 AM"), Some(clock(0, 5, 0)));
    assert_eq!(parse_time_only("7:05:09PM"), Some(clock(19, 5, 9)));
    assert_eq!(parse_time_only("7:05:09 AM"), Some(clock(7, 5, 9)));
    assert_eq!(parse_time_only("24:00"), None);
    assert_eq!(parse_time_only("13:05PM"), None);
    let leap = parse_time_only("23:59:60").unwrap();
    let expected = chrono::NaiveTime::parse_from_str("23:59:60", "%H:%M:%S").unwrap();
    assert_eq!(leap.second, expected.num_seconds_from_midnight());
    assert_eq!(leap.nanos, expected.nanosecond());
}

#[test]
fn dates_and_times_are_split() {
    assert_eq!(split_absolute_datetime("2026-03-12T13:30"), Some(("2026-03-12", "13:30")));
    assert_eq!(split_absolute_datetime("a b c"), Some(("a", "b c")));
    assert_eq!(split_absolute_datetime("T a"), Some(("T", "a")));
    assert_eq!(split_absolute_datetime("now"), None);
    let config = parse_config(DateOrder::Dmy);
    assert_eq!(
        local_datetime_from("12.03.2026", Some(clock(1, 2, 0)), config).unwrap(),
        Some(local(2026, 3, 12, 1, 2))
    );
    assert_eq!(local_datetime_from("12.03.2026", None, config).unwrap(), None);
}

#[test]
fn dates_follow_the_calendar() {
    let config = parse_config(DateOrder::Dmy);
    for year in [1900, 1996, 2000, 2023, 9999] {
        for month in 0..14 {
            for day in 0..33 {
                let expected = NaiveDate::from_ymd_opt(year, month, day);
                let read = parse_numeric_date(&format!("{year}-{month}-{day}"), config).unwrap();
                let date = CalendarDate { year, month, day };
                assert_eq!(read, expected.map(|_| date));
            }
        }
    }
}

#[test]
fn dates_in_numbers_follow_their_separators() {
    let dmy = parse_config(DateOrder::Dmy);
    let mdy = parse_config(DateOrder::Mdy);
    let date = |year, month, day| Some(CalendarDate { year, month, day });
    assert_eq!(parse_numeric_date("03.12.2026", mdy).unwrap(), date(2026, 12, 3));
    assert_eq!(parse_numeric_date("2026.12.3", mdy).unwrap(), date(2026, 12, 3));
    assert_eq!(parse_numeric_date(" 3 / 12 / 2026 ", mdy).unwrap(), date(2026, 3, 12));
    assert_eq!(parse_numeric_date("4/4/2026", parse_config(DateOrder::Ymd)).unwrap(), date(2026, 4, 4));
    assert_eq!(parse_numeric_date("31/12/2026", mdy).unwrap(), date(2026, 12, 31));
    assert_eq!(parse_numeric_date("12/31/2026", dmy).unwrap(), date(2026, 12, 31));
    assert_eq!(parse_numeric_date("31/31/2026", dmy).unwrap(), None);
    assert_eq!(parse_numeric_date("1/2/26", dmy).unwrap(), None);
    assert_eq!(parse_numeric_date("1/2", dmy).unwrap(), None);
    assert_eq!(parse_numeric_date("1/2/3/2026", dmy).unwrap(), None);
    assert_eq!(parse_numeric_date("1/-2/2026", dmy).unwrap(), None);
    assert_eq!(parse_numeric_date("20260312", dmy).unwrap(), None);
    assert_eq!(parse_numeric_date("99999999999999999999/1/2026", dmy).unwrap(), None);
    let locale_ymd = DateParseConfig {
        fallback_order: DateOrder::Mdy,
        prefer_locale_order: true,
        locale_order: Some(DateOrder::Ymd),
    };
    assert_eq!(parse_numeric_date("3/4/2026", locale_ymd).unwrap(), date(2026, 3, 4));
    assert!(resolve_date_candidate("x", &[], dmy).is_err());
    let only = DateCandidate { order: DateOrder::Ymd, date: date(2026, 3, 4).unwrap() };
    assert_eq!(resolve_date_candidate("x", &[only], dmy).unwrap(), only.date);
}
