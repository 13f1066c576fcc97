use std::path::Path;
use tix::calendar::{take_target, UtcTime};
use tix::parse::parse_command;
use tix::process::{
    cmdline_executable, cmdline_matches_worker, inspect_process, macos_procargs_match_worker,
    paths_equivalent, procargs_executable, split_nul_terminated, Aspect, Inspection, ResolvedPath,
};
use tix::state::{
    active_alarm_states, alarm_state_file_path, alarms_root, generate_alarm_id, is_state_file,
    new_alarm_state, next_start_action, parse_state_target_utc, process_is_alive,
    resolve_alarm_selector, sort_states, terminate_process, worker_arguments, worker_words,
    ActiveAlarmGuard, FoundAlarm, SignalOutcome, StartAction, StartEvent, WORKER_GONE,
};
use tix::types::{
    ActiveAlarmState, AlarmAudioConfig, AlarmNotificationConfig, Argument, Command,
};

fn sample_state(id: &str) -> ActiveAlarmState {
    ActiveAlarmState {
        id: id.to_string(),
        pid: 1,
        spec_text: "10m".to_string(),
        target_utc: "2026-03-12T12:30:00Z".to_string(),
        created_at_utc: "2026-03-12T12:20:00Z".to_string(),
        auto_stop_seconds: 0,
        volume: 0.3f32.to_bits(),
        sound_file: None,
    }
}

fn executable(path: &str) -> ResolvedPath {
    ResolvedPath { path: path.as_bytes().to_vec(), canonical: None }
}

#[test]
fn exact_alarm_selector_matches() {
    let states = vec![sample_state("abc123"), sample_state("def456")];
    let state = resolve_alarm_selector(&states, "def456").unwrap();
    assert_eq!(state.id, "def456");
}

#[test]
fn unique_prefix_alarm_selector_matches() {
    let states = vec![sample_state("abc123"), sample_state("def456")];
    let state = resolve_alarm_selector(&states, "ab").unwrap();
    assert_eq!(state.id, "abc123");
}

#[test]
fn ambiguous_prefix_alarm_selector_rejects() {
    let states = vec![sample_state("abc123"), sample_state("abd456")];
    let result = resolve_alarm_selector(&states, "a");
    assert!(result.is_err());
    assert_eq!(
        result.unwrap_err(),
        "alarm selector `a` is ambiguous; use a longer prefix or the full id"
    );
}

#[test]
fn missing_alarm_selector_rejects() {
    let states = vec![sample_state("abc123")];
    let result = resolve_alarm_selector(&states, "zzz");
    assert!(result.is_err());
    assert_eq!(result.unwrap_err(), "no active alarm matches `zzz`");
}

#[test]
fn linux_cmdline_match_requires_executable_marker_and_alarm_id() {
    let expected = executable("/tmp/tix");
    let raw = b"/tmp/tix\0__worker\0--alarm-id\0abc123\0";

    assert!(cmdline_matches_worker(raw, None, &expected, Some("abc123")));
    assert!(!cmdline_matches_worker(raw, None, &expected, Some("zzz")));
    assert!(!cmdline_matches_worker(
        b"/tmp/other\0__worker\0--alarm-id\0abc123\0",
        None,
        &expected,
        Some("abc123")
    ));
}

#[test]
fn macos_procargs_match_requires_executable_marker_and_alarm_id() {
    let expected = executable("/tmp/tix");
    let mut raw = Vec::new();
    raw.extend_from_slice(&(4_i32).to_ne_bytes());
    raw.extend_from_slice(b"/tmp/tix\0");
    raw.extend_from_slice(&[0, 0]);
    raw.extend_from_slice(b"/tmp/tix\0__worker\0--alarm-id\0abc123\0");

    assert!(macos_procargs_match_worker(&raw, None, &expected, Some("abc123")));
    assert!(!macos_procargs_match_worker(&raw, None, &expected, Some("zzz")));
}

#[test]
fn a_full_identifier_goes_before_longer_ones() {
    let states = vec![sample_state("abc"), sample_state("ab"), sample_state("ab")];
    assert_eq!(resolve_alarm_selector(&states, "ab").unwrap().id, "ab");
    assert!(resolve_alarm_selector(&states, "").is_err());
    assert_eq!(resolve_alarm_selector(&states[..1], "").unwrap().id, "abc");
}

#[test]
fn records_are_sorted_and_those_of_dead_workers_left_out() {
    let record = |target: &str, id: &str, pid: u32| {
        let mut state = sample_state(id);
        state.target_utc = target.to_string();
        state.pid = pid;
        state
    };
    let states = vec![
        record("2026-03-12T12:30:00Z", "b", 1),
        record("2026-03-12T12:30:00Z", "a", 2),
        record("2026-03-11T12:30:00Z", "z", 3),
        record("2026-03-12T12:30:00Z", "a", 4),
        record("2026-03-12T12:30:00Z", "\u{e9}", 5),
        record("2026-03-12", "q", 6),
    ];
    let mut expected = states.clone();
    expected.sort_by(|left, right| {
        left.target_utc.cmp(&right.target_utc).then_with(|| left.id.cmp(&right.id))
    });
    let pids: Vec<u32> = sort_states(states.clone()).iter().map(|state| state.pid).collect();
    assert_eq!(pids, expected.iter().map(|state| state.pid).collect::<Vec<u32>>());
    assert_eq!(pids, [3, 6, 2, 4, 1, 5]);
    let found: Vec<FoundAlarm> = states
        .into_iter()
        .map(|state| FoundAlarm { running: state.pid % 2 == 0, state })
        .collect();
    let active: Vec<u32> = active_alarm_states(&found).iter().map(|state| state.pid).collect();
    assert_eq!(active, [6, 2, 4]);
}

#[test]
fn targets_of_records_are_read() {
    let mut state = sample_state("a");
    assert_eq!(
        parse_state_target_utc(&state).unwrap(),
        UtcTime { secs: 1_773_318_600, nanos: 0 }
    );
    state.target_utc = "later".to_string();
    let error = chrono::DateTime::parse_from_rfc3339("later").unwrap_err();
    assert_eq!(
        parse_state_target_utc(&state).unwrap_err(),
        format!("invalid stored target time `later`: {error}")
    );
}

#[test]
fn records_of_new_alarms_keep_their_target() {
    let audio = AlarmAudioConfig { volume: 0.5f32.to_bits(), sound_file: Some("a.mp3".to_string()) };
    for target in [
        UtcTime { secs: 1_773_318_600, nanos: 0 },
        UtcTime { secs: 1_773_318_600, nanos: 123_456_789 },
        UtcTime { secs: -62_167_219_200, nanos: 1 },
        UtcTime { secs: 253_402_300_799, nanos: 999_999_999 },
        UtcTime { secs: 253_402_300_799, nanos: 1_999_999_999 },
        UtcTime { secs: -1, nanos: 1_000_000_000 },
    ] {
        let created = UtcTime { secs: 0, nanos: 0 };
        let state = new_alarm_state("id", 7, "10m", target, created, 3, &audio);
        assert_eq!(parse_state_target_utc(&state).unwrap(), target);
        assert_eq!(state.id, "id");
        assert_eq!(state.pid, 7);
        assert_eq!(state.spec_text, "10m");
        assert_eq!(state.created_at_utc, "1970-01-01T00:00:00+00:00");
        assert_eq!(state.auto_stop_seconds, 3);
        assert_eq!(f32::from_bits(state.volume), 0.5);
        assert_eq!(state.sound_file.as_deref(), Some("a.mp3"));
    }
}

#[test]
fn identifiers_are_made_of_time_and_process() {
    assert_eq!(generate_alarm_id(0, 0), "0-0");
    assert_eq!(generate_alarm_id(255, 4096), "ff-1000");
    assert_eq!(generate_alarm_id(u128::MAX, u32::MAX), format!("{:x}-{:x}", u128::MAX, u32::MAX));
    assert_ne!(generate_alarm_id(1, 23), generate_alarm_id(12, 3));
}

#[test]
fn records_lie_below_the_settings() {
    let home: Option<&[u8]> = Some(b"/home/x");
    assert_eq!(alarms_root(home).unwrap(), b"/home/x/.config/tix/alarms");
    assert_eq!(
        alarm_state_file_path("ff-1", home).unwrap(),
        b"/home/x/.config/tix/alarms/ff-1.toml"
    );
    assert!(alarm_state_file_path("ff-1", None).is_err());
    assert_ne!(
        alarm_state_file_path(&generate_alarm_id(1, 23), home).unwrap(),
        alarm_state_file_path(&generate_alarm_id(12, 3), home).unwrap()
    );
    for name in ["a.toml", ".toml", "toml", "..toml", "a.toml.bak", "a.TOML", "b.x.toml", ""] {
        let extension = Path::new(name).extension().and_then(|value| value.to_str());
        assert_eq!(is_state_file(name.as_bytes()), extension == Some("toml"));
    }
}

#[test]
fn a_guard_takes_its_own_record_away() {
    let home: Option<&[u8]> = Some(b"/h");
    let guard = ActiveAlarmGuard::new("a".to_string(), home).unwrap();
    assert_eq!(guard.path(), b"/h/.config/tix/alarms/a.toml");
    assert!(guard.clears(&Some(sample_state("a"))));
    assert!(!guard.clears(&Some(sample_state("b"))));
    assert!(!guard.clears(&None));
    let refused = ActiveAlarmGuard::new("a".to_string(), None);
    assert_eq!(refused.err().unwrap(), "HOME is not set; cannot resolve ~/.config/tix");
}

#[test]
fn a_worker_is_called_to_run_its_own_alarm() {
    let target = UtcTime { secs: 1_773_318_600, nanos: 5 };
    let notifications = AlarmNotificationConfig {
        enabled: true,
        clickable: false,
        timeout_ms: 9,
        show_stop_button: true,
    };
    for sound in [None, Some("--volume".to_string())] {
        let words = worker_arguments("ff-1", target, 12, "0.3", &sound, notifications);
        assert_eq!(words[0], "__worker");
        assert_eq!(words.len(), if sound.is_some() { 19 } else { 17 });
        let arguments = words
            .into_iter()
            .map(|text| {
                let number = text.parse::<f64>().ok().map(f64::to_bits);
                Argument { text, number }
            })
            .collect();
        match parse_command(arguments).unwrap() {
            Command::Worker {
                alarm_id,
                target_utc,
                auto_stop_seconds,
                volume,
                sound_file,
                notifications: read,
            } => {
                assert_eq!(alarm_id, "ff-1");
                assert_eq!(target_utc, target);
                assert_eq!(auto_stop_seconds, 12);
                assert_eq!(f64::from_bits(volume.bits), 0.3);
                assert_eq!(sound_file, sound);
                assert_eq!(read, notifications);
            }
            _ => panic!("not a worker"),
        }
    }
}

#[test]
fn a_worker_is_recognized_by_its_command_line() {
    let target = UtcTime { secs: 0, nanos: 0 };
    let notifications = AlarmNotificationConfig {
        enabled: true,
        clickable: true,
        timeout_ms: 0,
        show_stop_button: true,
    };
    let words = worker_arguments("ff-1", target, 0, "0.3", &None, notifications);
    let mut raw = b"/usr/bin/tix\0".to_vec();
    for word in &words {
        raw.extend_from_slice(word.as_bytes());
        raw.push(0);
    }
    let expected = executable("/usr/bin/tix");
    assert!(cmdline_matches_worker(&raw, None, &expected, Some("ff-1")));
    assert!(cmdline_matches_worker(&raw, None, &expected, None));
    assert!(!cmdline_matches_worker(&raw, None, &expected, Some("ff-2")));
    assert_eq!(cmdline_executable(&raw).unwrap(), b"/usr/bin/tix");
    assert_eq!(split_nul_terminated(&raw).len(), words.len() + 1);
    assert!(cmdline_executable(b"\0\0").is_none());
    assert!(!cmdline_matches_worker(b"", None, &expected, None));
    assert!(!cmdline_matches_worker(b"/usr/bin/tix\0status", None, &expected, None));
    assert!(!cmdline_matches_worker(b"__worker\0__worker", None, &expected, None));
}

#[test]
fn paths_lead_alike_where_they_resolve_alike() {
    let resolved = |path: &str, canonical: &str| ResolvedPath {
        path: path.as_bytes().to_vec(),
        canonical: Some(canonical.as_bytes().to_vec()),
    };
    assert!(paths_equivalent(&executable("/a/./b"), &executable("/a//b/")));
    assert!(!paths_equivalent(&executable("/a"), &executable("a")));
    assert!(paths_equivalent(&resolved("/link", "/a"), &resolved("/a", "/a/")));
    assert!(!paths_equivalent(&resolved("/link", "/a"), &executable("/a")));
    let raw = b"link\0__worker\0x";
    let expected = resolved("/a", "/a");
    assert!(cmdline_matches_worker(raw, Some(b"/a".to_vec()), &expected, Some("x")));
    assert!(!cmdline_matches_worker(raw, Some(b"/b".to_vec()), &expected, Some("x")));
}

#[test]
fn arguments_of_a_process_are_read_as_macos_hands_them_out() {
    let expected = executable("/t");
    let build = |count: i32, rest: &[u8]| {
        let mut raw = count.to_le_bytes().to_vec();
        raw.extend_from_slice(rest);
        raw
    };
    let raw = build(3, b"/t\0\0\0/t\0\0__worker\0more");
    assert_eq!(procargs_executable(&raw).unwrap(), b"/t");
    assert!(macos_procargs_match_worker(&raw, None, &expected, None));
    assert!(!macos_procargs_match_worker(&raw, None, &expected, Some("__worker")));
    assert!(!macos_procargs_match_worker(&build(4, b"/t\0/t\0a\0__worker"), None, &expected, None));
    assert!(!macos_procargs_match_worker(&build(0, b"/t\0/t\0"), None, &expected, None));
    assert!(!macos_procargs_match_worker(&build(-1, b"/t\0/t\0"), None, &expected, None));
    assert!(!macos_procargs_match_worker(&build(1, b"/t"), None, &expected, None));
    assert!(procargs_executable(b"\x01\0").is_none());
}

#[test]
fn signals_are_answered() {
    assert_eq!(terminate_process(7, SignalOutcome::Delivered, "x"), Ok(()));
    assert_eq!(terminate_process(7, SignalOutcome::NoProcess, "x"), Ok(()));
    assert_eq!(
        terminate_process(7, SignalOutcome::NotPermitted, "x").unwrap_err(),
        "failed to stop alarm worker 7: x"
    );
    assert_eq!(
        terminate_process(7, SignalOutcome::Failed, "x").unwrap_err(),
        "failed to stop alarm worker 7: x"
    );
    assert_eq!(process_is_alive(7, SignalOutcome::Delivered, "x"), Ok(true));
    assert_eq!(process_is_alive(7, SignalOutcome::NotPermitted, "x"), Ok(true));
    assert_eq!(process_is_alive(7, SignalOutcome::NoProcess, "x"), Ok(false));
    assert_eq!(
        process_is_alive(7, SignalOutcome::Failed, "x").unwrap_err(),
        "failed to inspect process 7: x"
    );
}

#[test]
fn looks_at_a_process_are_answered() {
    let failed = || Inspection::Failed("x".to_string());
    assert_eq!(inspect_process(Aspect::Executable, 7, Inspection::Found(true)), Ok(true));
    assert_eq!(inspect_process(Aspect::Executable, 7, Inspection::Gone), Ok(false));
    assert_eq!(
        inspect_process(Aspect::Executable, 7, failed()).unwrap_err(),
        "failed to inspect process executable for 7: x"
    );
    assert_eq!(
        inspect_process(Aspect::CommandLine, 7, failed()).unwrap_err(),
        "failed to inspect process command line /proc/7/cmdline: x"
    );
    assert_eq!(
        inspect_process(Aspect::Arguments, 7, failed()).unwrap_err(),
        "failed to inspect process arguments for 7: x"
    );
}

#[test]
fn starting_an_alarm_takes_its_course() {
    assert!(matches!(next_start_action(StartEvent::Saved), StartAction::Inspect));
    assert!(matches!(next_start_action(StartEvent::Inspected(true)), StartAction::Done));
    assert!(matches!(next_start_action(StartEvent::Inspected(false)), StartAction::Clear));
    assert!(matches!(
        next_start_action(StartEvent::NotSaved("x".to_string())),
        StartAction::StopAndGiveUp(message) if message == "x"
    ));
    assert!(matches!(
        next_start_action(StartEvent::NotInspected("y".to_string())),
        StartAction::GiveUp(message) if message == "y"
    ));
    assert!(matches!(
        next_start_action(StartEvent::NotCleared("z".to_string())),
        StartAction::GiveUp(message) if message == "z"
    ));
    assert!(matches!(
        next_start_action(StartEvent::Cleared),
        StartAction::GiveUp(message) if message == WORKER_GONE
    ));
}

#[test]
fn words_for_a_worker_stand_in_order() {
    let notifications = AlarmNotificationConfig {
        enabled: false,
        clickable: true,
        timeout_ms: 1500,
        show_stop_button: false,
    };
    let sound = Some("/tmp/alarm.mp3".to_string());
    assert_eq!(
        worker_words("abc", "t", 15, "0.4", &sound, notifications),
        [
            "__worker",
            "--alarm-id",
            "abc",
            "--target-utc",
            "t",
            "--auto-stop-seconds",
            "15",
            "--volume",
            "0.4",
            "--sound-file",
            "/tmp/alarm.mp3",
            "--notifications-enabled",
            "false",
            "--notifications-clickable",
            "true",
            "--notifications-timeout-ms",
            "1500",
            "--notifications-show-stop-button",
            "false",
        ]
    );
    let target = UtcTime { secs: 1, nanos: 2 };
    assert_eq!(take_target(Ok(target), "t", "bad"), Ok(target));
    assert_eq!(take_target(Err("e".to_string()), "t", "bad"), Err("bad `t`: e".to_string()));
}
