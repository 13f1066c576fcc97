use std::path::PathBuf;
use tix::config::{
    apply_config_update, config_file_path, config_root, detect_default_timezone, find_setting,
    override_timezone, parse_bool, parse_notification_timeout_ms, parse_sound_file_value,
    parse_volume, prompt_text, resolve_sound_file_path, set_volume, take_answer,
    validate_timezone, validate_volume, ForegroundSetting, Question, Reply, Setting, UNKNOWN_KEY,
};
use tix::paths;
use tix::types::{
    AlarmNotificationConfig, Argument, Config, DateOrder, DateParseConfig, ForegroundConfig,
    NotificationConfig, RunMode, TimeNotation, TimerStyle, Volume,
};

fn argument(text: &str) -> Argument {
    Argument { text: text.to_string(), number: text.parse::<f64>().ok().map(f64::to_bits) }
}

fn berlin() -> Config {
    Config::for_system(Some("Europe/Berlin".to_string()))
}

#[test]
fn nested_foreground_keys_can_be_updated() {
    let mut config = Config::default();
    apply_config_update(&mut config, "foreground.timer_style", &argument("human")).unwrap();
    apply_config_update(&mut config, "foreground.show_input", &argument("false")).unwrap();
    apply_config_update(&mut config, "default_mode", &argument("foreground")).unwrap();
    apply_config_update(&mut config, "volume", &argument("0.35")).unwrap();

    assert_eq!(config.foreground.timer_style.to_string(), "human");
    assert!(!config.foreground.show_input);
    assert_eq!(config.default_mode, RunMode::Foreground);
    assert!((f64::from_bits(config.volume.bits) - 0.35).abs() < f64::EPSILON);
}

#[test]
fn the_settings_begin_with_their_defaults() {
    let config = berlin();
    assert_eq!(config.timezone, "Europe/Berlin");
    assert_eq!(config.date_order, DateOrder::Dmy);
    assert!(config.prefer_locale_date_order);
    assert_eq!(config.time_notation, TimeNotation::H24);
    assert_eq!(config.default_mode, RunMode::Background);
    assert_eq!(config.auto_stop_seconds, 0);
    assert_eq!(f64::from_bits(config.volume.bits), 0.20);
    assert!(config.sound_file.is_none());
    assert_eq!(config.notifications, NotificationConfig::default());
    assert_eq!(config.foreground, ForegroundConfig::default());
    assert_eq!(config.foreground.refresh_interval_ms, 250);
    assert_eq!(config.validate(), Ok(()));
    assert_eq!(Config::default().validate(), Ok(()));
    assert_eq!(Config::for_system(None).timezone, "UTC");
    assert_eq!(detect_default_timezone(Some("Nowhere".to_string())), "UTC");
    let system = iana_time_zone::get_timezone().ok();
    assert_eq!(Config::default().timezone, detect_default_timezone(system));
}

#[test]
fn every_key_changes_its_setting() {
    let mut config = berlin();
    let values = [
        ("timezone", "America/New_York"),
        ("date-order", " MDY "),
        ("time_notation", "12H"),
        ("default-mode", "fg"),
        ("auto_stop_seconds", "+30"),
        ("volume", "1"),
        ("sound-file", " ~/ring.mp3 "),
        ("foreground.refresh-interval-ms", "50"),
        ("foreground.show_current_datetime", "no"),
        ("foreground.show-target-datetime", "0"),
        ("foreground.show_remaining", "OFF"),
        ("foreground.show-input", "false"),
        ("foreground.timer-style", "Human"),
    ];
    for (key, value) in values {
        apply_config_update(&mut config, key, &argument(value)).unwrap();
    }
    assert_eq!(config.timezone, "America/New_York");
    assert_eq!(config.date_order, DateOrder::Mdy);
    assert_eq!(config.time_notation, TimeNotation::H12);
    assert_eq!(config.default_mode, RunMode::Foreground);
    assert_eq!(config.auto_stop_seconds, 30);
    assert_eq!(config.volume, Volume { bits: 1.0f64.to_bits() });
    assert_eq!(config.sound_file.as_deref(), Some("~/ring.mp3"));
    assert_eq!(
        config.foreground,
        ForegroundConfig {
            refresh_interval_ms: 50,
            show_current_datetime: false,
            show_target_datetime: false,
            show_remaining: false,
            show_input: false,
            timer_style: TimerStyle::Human,
        }
    );
    assert_eq!(config.foreground.effective_refresh_interval_ms(), 100);
    assert_eq!(find_setting("date_order"), find_setting("date-order"));
    assert_eq!(
        find_setting("foreground.show-input"),
        Some(Setting::Foreground(ForegroundSetting::ShowInput))
    );
    assert_eq!(find_setting("foreground"), None);
}

#[test]
fn refused_changes_say_why_and_leave_the_settings() {
    let mut config = berlin();
    let mut refusal = |key: &str, value: &str| {
        apply_config_update(&mut config, key, &argument(value)).unwrap_err()
    };
    assert_eq!(refusal("timezone", "Mars"), "invalid timezone `Mars`");
    assert_eq!(refusal("date_order", "ydm"), "date_order must be one of: dmy, mdy, ymd");
    assert_eq!(refusal("time_notation", "13h"), "time_notation must be one of: 24h, 12h");
    assert_eq!(
        refusal("default_mode", "ground"),
        "run mode must be one of: background, foreground"
    );
    assert_eq!(
        refusal("auto_stop_seconds", "-1"),
        "auto_stop_seconds must be an unsigned integer"
    );
    assert_eq!(refusal("volume", "1.1"), "volume must be between 0.0 and 1.0");
    assert_eq!(refusal("volume", ""), "volume must be a number between 0.0 and 1.0");
    assert_eq!(
        refusal("foreground.refresh_interval_ms", "1.5"),
        "foreground.refresh_interval_ms must be an unsigned integer"
    );
    assert_eq!(
        refusal("foreground.show_remaining", "yep"),
        "boolean value must be one of: true, false"
    );
    assert_eq!(
        refusal("foreground.timer_style", "analog"),
        "timer_style must be one of: digital, human"
    );
    assert_eq!(refusal("sound", "x"), UNKNOWN_KEY);
    assert!(UNKNOWN_KEY.starts_with("supported config keys: timezone, date_order,"));
    assert_eq!(config.timezone, "Europe/Berlin");
    assert_eq!(f64::from_bits(config.volume.bits), 0.20);
}

#[test]
fn a_refresh_interval_of_zero_is_refused_and_stays() {
    let mut config = berlin();
    let answer =
        apply_config_update(&mut config, "foreground.refresh_interval_ms", &argument("0"));
    assert_eq!(answer.unwrap_err(), "foreground.refresh_interval_ms must be greater than 0");
    assert_eq!(config.foreground.refresh_interval_ms, 0);
    assert!(config.foreground.validate().is_err());
    assert!(config.validate().is_err());
}

#[test]
fn unusable_settings_are_refused() {
    let mut config = berlin();
    config.volume = Volume { bits: f64::INFINITY.to_bits() };
    assert_eq!(config.validate().unwrap_err(), "volume must be between 0.0 and 1.0");
    config.timezone = "Mars".to_string();
    assert_eq!(config.validate().unwrap_err(), "invalid timezone `Mars` in config");
    assert_eq!(
        config.parsed_timezone().unwrap_err(),
        "invalid timezone `Mars` in config"
    );
    assert_eq!(berlin().parsed_timezone().unwrap().name(), "Europe/Berlin");
    assert_eq!(validate_timezone("UTC"), Ok(()));
    assert_eq!(validate_timezone("utc!").unwrap_err(), "invalid timezone `utc!`");
}

#[test]
fn volumes_are_the_doubles_from_zero_to_one() {
    let values = [
        0.0,
        -0.0,
        f64::MIN_POSITIVE,
        5e-324,
        0.2,
        1.0 - f64::EPSILON,
        1.0,
        1.0 + f64::EPSILON,
        -5e-324,
        -1.0,
        f64::MAX,
        f64::INFINITY,
        f64::NEG_INFINITY,
        f64::NAN,
        -f64::NAN,
    ];
    for value in values {
        let volume = Volume { bits: value.to_bits() };
        let expected = value.is_finite() && (0.0..=1.0).contains(&value);
        assert_eq!(validate_volume(volume).is_ok(), expected);
        let read = Argument { text: String::new(), number: Some(value.to_bits()) };
        assert_eq!(parse_volume(&read).is_ok(), expected);
    }
    assert_eq!(tix::config::DEFAULT_VOLUME_BITS, 0.20f64.to_bits());
}

#[test]
fn words_for_yes_and_no_are_read() {
    for word in ["true", "1", "YES", " on\n"] {
        assert_eq!(parse_bool(word), Ok(true));
    }
    for word in ["false", "0", "No", "off"] {
        assert_eq!(parse_bool(word), Ok(false));
    }
    assert!(parse_bool("").is_err());
    assert_eq!(parse_notification_timeout_ms("1500"), Ok(1500));
    assert_eq!(
        parse_notification_timeout_ms("").unwrap_err(),
        "notifications.timeout_ms must be an unsigned integer"
    );
}

#[test]
fn words_read_back() {
    for value in [DateOrder::Dmy, DateOrder::Mdy, DateOrder::Ymd] {
        assert_eq!(DateOrder::from_str(&value.to_string()), Ok(value));
    }
    for value in [RunMode::Background, RunMode::Foreground] {
        assert_eq!(RunMode::from_str(&value.to_string()), Ok(value));
    }
    for value in [TimeNotation::H24, TimeNotation::H12] {
        assert_eq!(TimeNotation::from_str(&value.to_string()), Ok(value));
    }
    for value in [TimerStyle::Digital, TimerStyle::Human] {
        assert_eq!(TimerStyle::from_str(&value.to_string()), Ok(value));
    }
    assert_eq!(RunMode::from_str("bg"), Ok(RunMode::Background));
    assert_eq!(RunMode::from_str("B"), Ok(RunMode::Background));
    assert_eq!(RunMode::from_str("f"), Ok(RunMode::Foreground));
    assert_eq!(RunMode::default(), RunMode::Background);
    assert_eq!(TimerStyle::default(), TimerStyle::Digital);
    assert_eq!(
        RunMode::resolve(Some(RunMode::Foreground), RunMode::Background),
        RunMode::Foreground
    );
    assert_eq!(RunMode::resolve(None, RunMode::Background), RunMode::Background);
}

#[test]
fn notifications_of_an_alarm_follow_the_settings() {
    let config = NotificationConfig {
        enabled: false,
        clickable: true,
        timeout_ms: 7,
        show_stop_button: false,
    };
    assert_eq!(
        AlarmNotificationConfig::from(config),
        AlarmNotificationConfig {
            enabled: false,
            clickable: true,
            timeout_ms: 7,
            show_stop_button: false,
        }
    );
    assert_eq!(
        berlin().date_parse_config(Some(DateOrder::Mdy)),
        DateParseConfig {
            fallback_order: DateOrder::Dmy,
            prefer_locale_order: true,
            locale_order: Some(DateOrder::Mdy),
        }
    );
}

#[test]
fn sound_files_are_read() {
    assert_eq!(parse_sound_file_value("  "), None);
    assert_eq!(parse_sound_file_value("None"), None);
    assert_eq!(parse_sound_file_value("OFF "), None);
    assert_eq!(parse_sound_file_value(" a b.mp3 ").as_deref(), Some("a b.mp3"));
}

#[test]
fn questions_are_answered_one_after_the_other() {
    let mut config = berlin();
    let mut asked = Vec::new();
    let mut question = Some(Question::Timezone);
    while let Some(current) = question {
        asked.push(prompt_text(current, &config, "0.20"));
        assert!(matches!(take_answer(&mut config, current, &argument("")), Reply::Taken));
        question = current.next();
    }
    assert_eq!(
        asked,
        [
            "timezone [Europe/Berlin]: ",
            "date order [dmy] (dmy/mdy/ymd): ",
            "time notation [24h] (24h/12h): ",
            "default mode [background] (background/foreground): ",
            "auto-stop seconds [0]: ",
            "volume [0.20] (0.0-1.0): ",
        ]
    );
    assert_eq!(config.timezone, "Europe/Berlin");
    assert!(matches!(
        take_answer(&mut config, Question::Timezone, &argument("Mars")),
        Reply::GivenUp(message) if message == "invalid timezone `Mars`"
    ));
    assert!(matches!(
        take_answer(&mut config, Question::DateOrder, &argument("x")),
        Reply::Again(message) if message == "date_order must be one of: dmy, mdy, ymd"
    ));
    assert!(matches!(
        take_answer(&mut config, Question::AutoStop, &argument("x")),
        Reply::Again(message) if message == "auto-stop seconds must be an unsigned integer"
    ));
    assert!(matches!(
        take_answer(&mut config, Question::Volume, &argument("0.5")),
        Reply::Taken
    ));
    assert_eq!(f64::from_bits(config.volume.bits), 0.5);
    assert_eq!(config.validate(), Ok(()));
}

#[test]
fn settings_lie_below_the_home_directory() {
    let home: Option<&[u8]> = Some(b"/home/x");
    assert_eq!(config_root(home).unwrap(), b"/home/x/.config/tix");
    assert_eq!(config_file_path(home).unwrap(), b"/home/x/.config/tix/config.toml");
    assert_eq!(
        config_file_path(None).unwrap_err(),
        "HOME is not set; cannot resolve ~/.config/tix"
    );
}

#[test]
fn sound_files_are_found() {
    let home: Option<&[u8]> = Some(b"/home/x/");
    assert_eq!(resolve_sound_file_path(" /a/b.mp3 ", home).unwrap(), b"/a/b.mp3");
    assert_eq!(resolve_sound_file_path("~/b.mp3", home).unwrap(), b"/home/x/b.mp3");
    assert_eq!(resolve_sound_file_path("b.mp3", home).unwrap(), b"/home/x/.config/tix/b.mp3");
    assert_eq!(resolve_sound_file_path("/a", None).unwrap(), b"/a");
    assert_eq!(resolve_sound_file_path(" ", home).unwrap_err(), "sound_file cannot be empty");
    assert_eq!(
        resolve_sound_file_path("~/a", None).unwrap_err(),
        "HOME is not set; cannot expand `~/` in sound_file"
    );
    assert_eq!(
        resolve_sound_file_path("a", None).unwrap_err(),
        "HOME is not set; cannot resolve ~/.config/tix"
    );
}

#[test]
fn paths_are_joined_and_compared_as_std_does() {
    let samples = [
        "", ".", "..", "/", "//", "a", "a/", "./a", "a/.", "a/./b", "a//b", "a/b", "/a", "/a/b/",
        "/./a", "../a", "a/..", "./.", ".a", "a.", "/a/../b", "ä/b",
    ];
    for left in samples {
        for right in samples {
            let joined = paths::join(left.as_bytes(), right.as_bytes());
            let expected = PathBuf::from(left).join(right);
            assert_eq!(joined, expected.to_str().unwrap().as_bytes());
            let same = PathBuf::from(left) == PathBuf::from(right);
            assert_eq!(paths::equal(left.as_bytes(), right.as_bytes()), same);
        }
        assert_eq!(paths::absolute(left.as_bytes()), PathBuf::from(left).is_absolute());
    }
}

#[test]
fn a_command_has_its_own_time_zone_and_volume() {
    let mut config = berlin();
    assert_eq!(override_timezone(&mut config, None), Ok(()));
    assert_eq!(config.timezone, "Europe/Berlin");
    assert_eq!(override_timezone(&mut config, Some("Asia/Tokyo".to_string())), Ok(()));
    assert_eq!(config.timezone, "Asia/Tokyo");
    assert_eq!(
        override_timezone(&mut config, Some("Mars".to_string())).unwrap_err(),
        "invalid timezone `Mars`"
    );
    assert_eq!(config.timezone, "Asia/Tokyo");
    assert_eq!(set_volume(&mut config, Volume { bits: 0.7f64.to_bits() }), Ok(()));
    assert_eq!(f64::from_bits(config.volume.bits), 0.7);
    assert_eq!(
        set_volume(&mut config, Volume { bits: 7.0f64.to_bits() }).unwrap_err(),
        "volume must be between 0.0 and 1.0"
    );
}
