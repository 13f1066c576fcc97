use tix::alarm::{
    action_stops, after_test, after_wait, auto_stop_message, goes_on, next_wait_slice,
    notification_body, notification_timeout, plan_notification, ring_step, test_length_ms,
    wait_step, AlarmPlayer, Desktop, NotificationTimeout, RingStep, Sound, TestOutcome, WaitStep,
    Wake,
};
use tix::calendar::{TimeSpan, UtcTime};
use tix::types::{AlarmAudioConfig, AlarmNotificationConfig};

fn span(secs: u64, nanos: u32) -> TimeSpan {
    TimeSpan { secs, nanos }
}

#[test]
fn waits_get_shorter_towards_the_target() {
    assert_eq!(next_wait_slice(span(300, 1)), span(30, 0));
    assert_eq!(next_wait_slice(span(300, 0)), span(5, 0));
    assert_eq!(next_wait_slice(span(30, 1)), span(5, 0));
    assert_eq!(next_wait_slice(span(30, 0)), span(1, 0));
    assert_eq!(next_wait_slice(span(5, 0)), span(0, 200_000_000));
    assert_eq!(next_wait_slice(span(0, 0)), span(0, 200_000_000));
}

#[test]
fn waits_end_with_the_target_or_a_stop() {
    let now = UtcTime { secs: 100, nanos: 0 };
    let at = |secs, nanos| UtcTime { secs, nanos };
    assert_eq!(wait_step(true, now, at(200, 0), None), WaitStep::Finish);
    assert_eq!(wait_step(false, now, now, None), WaitStep::Finish);
    assert_eq!(wait_step(false, now, at(99, 0), None), WaitStep::Finish);
    assert_eq!(wait_step(false, now, at(500, 0), None), WaitStep::Wait(span(30, 0)));
    assert_eq!(
        wait_step(false, now, at(500, 0), Some(span(0, 250_000_000))),
        WaitStep::Wait(span(0, 250_000_000))
    );
    assert_eq!(
        wait_step(false, now, at(100, 7), Some(span(0, 250_000_000))),
        WaitStep::Wait(span(0, 7))
    );
    assert!(goes_on(Wake::Woken));
    assert!(goes_on(Wake::TimedOut));
    assert!(!goes_on(Wake::Disconnected));
}

#[test]
fn a_stopped_alarm_does_not_ring() {
    let plan = after_wait(true, true, true);
    assert_eq!(plan.message, Some("alarm cancelled before trigger."));
    assert!(!plan.ring && !plan.notify);
    let plan = after_wait(false, true, false);
    assert_eq!(plan.message, Some("alarm ringing. press ctrl-c to stop."));
    assert!(plan.ring && !plan.notify);
    let plan = after_wait(false, false, true);
    assert_eq!(plan.message, None);
    assert!(plan.ring && plan.notify);
}

#[test]
fn ringing_ends_with_its_time_or_a_stop() {
    assert_eq!(ring_step(true, span(0, 0), 5), RingStep::Finish);
    assert_eq!(ring_step(false, span(4, 999_999_999), 5), RingStep::Ring);
    assert_eq!(ring_step(false, span(5, 0), 5), RingStep::AutoStop);
    assert_eq!(ring_step(false, span(u64::MAX, 0), 0), RingStep::Ring);
    assert_eq!(auto_stop_message(15), "alarm auto-stopped after 15s.");
}

#[test]
fn the_player_falls_back_to_the_tone() {
    let audio = AlarmAudioConfig { volume: 0, sound_file: Some("a.mp3".to_string()) };
    let mut player = AlarmPlayer::new(&audio);
    assert!(matches!(player.start_ringing(), Sound::File(path) if path == "a.mp3"));
    assert!(matches!(player.start_test(), Sound::File(path) if path == "a.mp3"));
    assert!(matches!(player.tick(span(1, 0), true), Sound::Nothing));
    assert!(matches!(player.fall_back(), Sound::Tone));
    assert!(matches!(player, AlarmPlayer::TonePulse));
    assert!(matches!(player.fall_back(), Sound::Nothing));
    assert!(matches!(player.tick(span(1, 0), true), Sound::Tone));
    assert!(matches!(player.tick(span(1, 0), false), Sound::Nothing));
    let tone = AlarmPlayer::new(&AlarmAudioConfig { volume: 0, sound_file: None });
    assert!(matches!(tone.start_ringing(), Sound::Tone));
    assert_eq!(test_length_ms(&tone.start_test()), 900);
    assert_eq!(test_length_ms(&Sound::File(String::new())), 2_000);
}

#[test]
fn the_bell_rings_once_a_second() {
    let mut player = AlarmPlayer::bell_only();
    assert!(matches!(player.start_ringing(), Sound::Nothing));
    assert!(matches!(player.start_test(), Sound::Bell));
    assert!(matches!(player.tick(span(0, 5), true), Sound::Bell));
    assert!(matches!(player.tick(span(1, 4), true), Sound::Nothing));
    assert!(matches!(player.tick(span(1, 5), true), Sound::Bell));
    assert!(matches!(
        player,
        AlarmPlayer::BellOnly { next_pulse_at } if next_pulse_at == span(2, 5)
    ));
}

#[test]
fn volume_tests_are_answered() {
    assert_eq!(after_test(TestOutcome::Finished(Ok(()))), (false, Ok(())));
    assert_eq!(
        after_test(TestOutcome::Finished(Err("x".to_string()))),
        (false, Err("x".to_string()))
    );
    assert_eq!(after_test(TestOutcome::TimedOut), (true, Ok(())));
    assert_eq!(
        after_test(TestOutcome::Disconnected),
        (false, Err("volume test worker disconnected unexpectedly".to_string()))
    );
}

#[test]
fn notifications_say_how_to_stop() {
    assert_eq!(
        notification_body(Some("a"), true, true),
        "alarm ringing. click or press stop or run tix stop a"
    );
    assert_eq!(
        notification_body(Some("a"), true, false),
        "alarm ringing. click to stop or run tix stop a"
    );
    assert_eq!(notification_body(Some("a"), false, true), "alarm ringing. run tix stop a");
    assert_eq!(notification_body(None, true, true), "alarm ringing");
    assert_eq!(notification_timeout(0), NotificationTimeout::Never);
    assert_eq!(notification_timeout(5), NotificationTimeout::Milliseconds(5));
    assert!(action_stops("default"));
    assert!(action_stops("stop"));
    assert!(!action_stops("__closed"));
}

#[test]
fn notifications_are_planned() {
    let on = AlarmNotificationConfig {
        enabled: true,
        clickable: true,
        timeout_ms: 0,
        show_stop_button: true,
    };
    let plan = plan_notification(Some("a"), on, Desktop::WithActions).unwrap();
    assert_eq!(plan.body, "alarm ringing. click or press stop or run tix stop a");
    assert_eq!(plan.timeout, NotificationTimeout::Never);
    assert!(plan.resident && plan.click_action && plan.stop_action);
    let plan = plan_notification(Some("a"), on, Desktop::TextOnly).unwrap();
    assert_eq!(plan.body, "alarm ringing. run tix stop a");
    assert!(!plan.resident && !plan.click_action && !plan.stop_action);
    let quiet = AlarmNotificationConfig { clickable: false, timeout_ms: 9, ..on };
    let plan = plan_notification(None, quiet, Desktop::WithActions).unwrap();
    assert_eq!(plan.body, "alarm ringing");
    assert_eq!(plan.timeout, NotificationTimeout::Milliseconds(9));
    assert!(!plan.resident && !plan.click_action && !plan.stop_action);
    let off = AlarmNotificationConfig { enabled: false, ..on };
    assert!(plan_notification(Some("a"), off, Desktop::WithActions).is_none());
}

#[test]
fn a_wait_from_a_leap_second_lasts_until_the_target() {
    let wait = |secs: i64, nanos: u32| {
        let now = UtcTime { secs, nanos: 1_500_000_000 };
        wait_step(false, now, UtcTime { secs: secs + 1, nanos }, None)
    };
    assert_eq!(wait(59, 0), WaitStep::Wait(span(0, 200_000_000)));
    assert_eq!(wait(86_399, 600_000_000), WaitStep::Wait(span(0, 100_000_000)));
    assert_eq!(wait(86_399, 500_000_000), WaitStep::Wait(span(0, 0)));
}
