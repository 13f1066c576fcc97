//! The settings: their defaults, their validity, how one of them is changed, and where they are
//! kept.
use vstd::prelude::*;
use vstd::string::*;

use crate::bytes;
use crate::paths;
use crate::text;
use crate::types::{
    AppResult, Argument, ArgumentView, Config, ConfigView, DateOrder, DateParseConfig,
    ForegroundConfig, NotificationConfig, RunMode, TimeNotation, TimerStyle, Volume,
};
use crate::types;
use crate::zone::{self, Timezone};

verus! {

/// What a text reads as a yes or a no.
pub open spec fn bool_reading(value: Seq<char>) -> Result<bool, Seq<char>> {
    let word = text::lowered(text::trimmed(value));
    if word == "true"@ || word == "1"@ || word == "yes"@ || word == "on"@ {
        Ok(true)
    } else if word == "false"@ || word == "0"@ || word == "no"@ || word == "off"@ {
        Ok(false)
    } else {
        Err("boolean value must be one of: true, false"@)
    }
}

/// Reads a yes or a no.
pub fn parse_bool(value: &str) -> (r: AppResult<bool>)
    ensures
        types::outcome(r) == bool_reading(value@),
{
    let word = text::lower(text::trim(value));
    let word = word.as_str();
    if text::same_text(word, "true") || text::same_text(word, "1") || text::same_text(word, "yes")
        || text::same_text(word, "on") {
        Ok(true)
    } else if text::same_text(word, "false") || text::same_text(word, "0") || text::same_text(
        word,
        "no",
    ) || text::same_text(word, "off") {
        Ok(false)
    } else {
        Err("boolean value must be one of: true, false".to_string())
    }
}

/// What a number reads as a volume.
pub open spec fn volume_reading(number: Option<u64>) -> Result<Volume, Seq<char>> {
    match number {
        Some(bits) => if (Volume { bits }).in_range() {
            Ok(Volume { bits })
        } else {
            Err("volume must be between 0.0 and 1.0"@)
        },
        None => Err("volume must be a number between 0.0 and 1.0"@),
    }
}

/// Refuses a volume outside its range.
pub fn validate_volume(volume: Volume) -> (r: AppResult<()>)
    ensures
        types::outcome(r) == if volume.in_range() {
            Ok(())
        } else {
            Err("volume must be between 0.0 and 1.0"@)
        },
{
    if volume.bits <= 0x3ff0_0000_0000_0000 || volume.bits == 0x8000_0000_0000_0000 {
        Ok(())
    } else {
        Err("volume must be between 0.0 and 1.0".to_string())
    }
}

/// Reads a volume.
pub fn parse_volume(value: &Argument) -> (r: AppResult<Volume>)
    ensures
        types::outcome(r) == volume_reading(value@.number),
{
    match value.number {
        Some(bits) => {
            let volume = Volume { bits };
            match validate_volume(volume) {
                Ok(()) => Ok(volume),
                Err(message) => Err(message),
            }
        },
        None => Err("volume must be a number between 0.0 and 1.0".to_string()),
    }
}

/// What a text reads as an unsigned number of at most `max`, or the given refusal.
pub open spec fn count_reading(value: Seq<char>, max: int, refusal: Seq<char>) -> Result<
    int,
    Seq<char>,
> {
    match text::unsigned_reading(value, max) {
        Some(count) => Ok(count),
        None => Err(refusal),
    }
}

/// A result that holds a count, with the count as a mathematical integer.
pub open spec fn count_outcome(result: AppResult<u64>) -> Result<int, Seq<char>> {
    match result {
        Ok(count) => Ok(count as int),
        Err(message) => Err(message@),
    }
}

/// Reads an unsigned number of at most `max`, or gives the refusal.
pub fn parse_count(value: &str, max: u64, refusal: &str) -> (r: AppResult<u64>)
    ensures
        count_outcome(r) == count_reading(value@, max as int, refusal@),
{
    match text::parse_unsigned(value, max) {
        Some(count) => Ok(count),
        None => Err(refusal.to_string()),
    }
}

/// What a text reads as the time after which a notification goes away, in milliseconds.
pub open spec fn timeout_reading(value: Seq<char>) -> Result<u32, Seq<char>> {
    match text::unsigned_reading(value, 0xffff_ffff) {
        Some(count) => Ok(count as u32),
        None => Err("notifications.timeout_ms must be an unsigned integer"@),
    }
}

/// Reads the time after which a notification goes away, in milliseconds.
pub fn parse_notification_timeout_ms(value: &str) -> (r: AppResult<u32>)
    ensures
        types::outcome(r) == timeout_reading(value@),
{
    match text::parse_unsigned(value, 0xffff_ffff) {
        Some(count) => Ok(count as u32),
        None => Err("notifications.timeout_ms must be an unsigned integer".to_string()),
    }
}

/// What a text reads as a sound file: nothing if it says that there is none.
pub open spec fn sound_file_reading(value: Seq<char>) -> Option<Seq<char>> {
    let trimmed = text::trimmed(value);
    let word = text::lowered(trimmed);
    if trimmed.len() == 0 || word == "none"@ || word == "off"@ {
        None
    } else {
        Some(trimmed)
    }
}

/// Reads a sound file.
pub fn parse_sound_file_value(value: &str) -> (r: Option<String>)
    ensures
        text::optional_text(r) == sound_file_reading(value@),
{
    let trimmed = text::trim(value);
    if trimmed.is_empty() {
        return None;
    }
    let word = text::lower(trimmed);
    if text::same_text(word.as_str(), "none") || text::same_text(word.as_str(), "off") {
        return None;
    }
    Some(trimmed.to_string())
}

/// Refuses a name that is not of a time zone.
pub fn validate_timezone(value: &str) -> (r: AppResult<()>)
    ensures
        types::outcome(r) == if zone::known_timezone(value@) {
            Ok(())
        } else {
            Err("invalid timezone `"@ + value@ + "`"@)
        },
{
    match Timezone::from_name(value) {
        Some(_) => Ok(()),
        None => Err(text::concat3("invalid timezone `", value, "`")),
    }
}

/// Whether the foreground display can run as it is set.
pub open spec fn foreground_validity(foreground: ForegroundConfig) -> Result<(), Seq<char>> {
    if foreground.refresh_interval_ms == 0 {
        Err("foreground.refresh_interval_ms must be greater than 0"@)
    } else {
        Ok(())
    }
}

impl ForegroundConfig {
    /// Refuses settings with which the display cannot run.
    pub fn validate(&self) -> (r: AppResult<()>)
        ensures
            types::outcome(r) == foreground_validity(*self),
    {
        if self.refresh_interval_ms == 0 {
            return Err("foreground.refresh_interval_ms must be greater than 0".to_string());
        }
        Ok(())
    }

    /// The time between two displays: as set, but at least a tenth of a second.
    pub fn effective_refresh_interval_ms(&self) -> (r: u64)
        ensures
            r == if self.refresh_interval_ms > 100 {
                self.refresh_interval_ms
            } else {
                100
            },
    {
        if self.refresh_interval_ms > 100 {
            self.refresh_interval_ms
        } else {
            100
        }
    }
}

/// Whether the settings can be used, or else what is wrong first.
pub open spec fn config_validity(config: ConfigView) -> Result<(), Seq<char>> {
    if !zone::known_timezone(config.timezone) {
        Err("invalid timezone `"@ + config.timezone + "` in config"@)
    } else if !config.volume.in_range() {
        Err("volume must be between 0.0 and 1.0"@)
    } else {
        foreground_validity(config.foreground)
    }
}

impl Config {
    /// Refuses settings that cannot be used.
    pub fn validate(&self) -> (r: AppResult<()>)
        ensures
            types::outcome(r) == config_validity(self@),
    {
        match self.parsed_timezone() {
            Ok(_) => {},
            Err(message) => {
                return Err(message);
            },
        }
        match validate_volume(self.volume) {
            Ok(()) => {},
            Err(message) => {
                return Err(message);
            },
        }
        self.foreground.validate()
    }

    /// The time zone that is set.
    pub fn parsed_timezone(&self) -> (r: AppResult<Timezone>)
        ensures
            types::outcome_view(r) == if zone::known_timezone(self@.timezone) {
                Ok(self@.timezone)
            } else {
                Err("invalid timezone `"@ + self@.timezone + "` in config"@)
            },
    {
        match Timezone::from_name(self.timezone.as_str()) {
            Some(zone) => Ok(zone),
            None => Err(
                text::concat3("invalid timezone `", self.timezone.as_str(), "` in config"),
            ),
        }
    }

    /// How numeric dates are read, given the order of dates that the locale has.
    pub fn date_parse_config(&self, locale_order: Option<DateOrder>) -> (r: DateParseConfig)
        ensures
            r == (DateParseConfig {
                fallback_order: self@.date_order,
                prefer_locale_order: self@.prefer_locale_date_order,
                locale_order,
            }),
    {
        DateParseConfig {
            fallback_order: self.date_order,
            prefer_locale_order: self.prefer_locale_date_order,
            locale_order,
        }
    }
}

/// What a time zone for one command leaves of the settings and answers: an unknown one leaves them
/// as they are.
pub open spec fn timezone_overridden(config: ConfigView, timezone: Option<Seq<char>>) -> (
    ConfigView,
    Result<(), Seq<char>>,
) {
    match timezone {
        Some(name) => if zone::known_timezone(name) {
            (ConfigView { timezone: name, ..config }, Ok(()))
        } else {
            (config, Err("invalid timezone `"@ + name + "`"@))
        },
        None => (config, Ok(())),
    }
}

/// Takes the time zone for one command into the settings, if there is one.
pub fn override_timezone(config: &mut Config, timezone: Option<String>) -> (r: AppResult<()>)
    ensures
        (final(config)@, types::outcome(r)) == timezone_overridden(
            old(config)@,
            text::optional_text(timezone),
        ),
{
    if let Some(name) = timezone {
        match validate_timezone(name.as_str()) {
            Ok(()) => {
                config.timezone = name;
            },
            Err(refusal) => {
                return Err(refusal);
            },
        }
    }
    Ok(())
}

/// Sets the volume and holds the settings to be valid.
pub fn set_volume(config: &mut Config, volume: Volume) -> (r: AppResult<()>)
    ensures
        final(config)@ == (ConfigView { volume, ..old(config)@ }),
        types::outcome(r) == config_validity(final(config)@),
{
    config.volume = volume;
    config.validate()
}

/// A setting of the foreground display.
#[derive(Clone, Copy, Debug, PartialEq, Eq, Structural)]
pub enum ForegroundSetting {
    RefreshIntervalMs,
    ShowCurrentDatetime,
    ShowTargetDatetime,
    ShowRemaining,
    ShowInput,
    TimerStyle,
}

/// A setting that can be changed by its key.
#[derive(Clone, Copy, Debug, PartialEq, Eq, Structural)]
pub enum Setting {
    Timezone,
    DateOrder,
    TimeNotation,
    DefaultMode,
    AutoStopSeconds,
    Volume,
    SoundFile,
    Foreground(ForegroundSetting),
}

/// The setting that a key names: the words of a key are joined by `_` or by `-`.
pub open spec fn setting_of(key: Seq<char>) -> Option<Setting> {
    if key == "timezone"@ {
        Some(Setting::Timezone)
    } else if key == "date_order"@ || key == "date-order"@ {
        Some(Setting::DateOrder)
    } else if key == "time_notation"@ || key == "time-notation"@ {
        Some(Setting::TimeNotation)
    } else if key == "default_mode"@ || key == "default-mode"@ {
        Some(Setting::DefaultMode)
    } else if key == "auto_stop_seconds"@ || key == "auto-stop-seconds"@ {
        Some(Setting::AutoStopSeconds)
    } else if key == "volume"@ {
        Some(Setting::Volume)
    } else if key == "sound_file"@ || key == "sound-file"@ {
        Some(Setting::SoundFile)
    } else if key == "foreground.refresh_interval_ms"@ || key == "foreground.refresh-interval-ms"@ {
        Some(Setting::Foreground(ForegroundSetting::RefreshIntervalMs))
    } else if key == "foreground.show_current_datetime"@
        || key == "foreground.show-current-datetime"@ {
        Some(Setting::Foreground(ForegroundSetting::ShowCurrentDatetime))
    } else if key == "foreground.show_target_datetime"@
        || key == "foreground.show-target-datetime"@ {
        Some(Setting::Foreground(ForegroundSetting::ShowTargetDatetime))
    } else if key == "foreground.show_remaining"@ || key == "foreground.show-remaining"@ {
        Some(Setting::Foreground(ForegroundSetting::ShowRemaining))
    } else if key == "foreground.show_input"@ || key == "foreground.show-input"@ {
        Some(Setting::Foreground(ForegroundSetting::ShowInput))
    } else if key == "foreground.timer_style"@ || key == "foreground.timer-style"@ {
        Some(Setting::Foreground(ForegroundSetting::TimerStyle))
    } else {
        None
    }
}

/// Finds the setting that a key names.
pub fn find_setting(key: &str) -> (r: Option<Setting>)
    ensures
        r == setting_of(key@),
{
    if text::same_text(key, "timezone") {
        Some(Setting::Timezone)
    } else if text::same_text(key, "date_order") || text::same_text(key, "date-order") {
        Some(Setting::DateOrder)
    } else if text::same_text(key, "time_notation") || text::same_text(key, "time-notation") {
        Some(Setting::TimeNotation)
    } else if text::same_text(key, "default_mode") || text::same_text(key, "default-mode") {
        Some(Setting::DefaultMode)
    } else if text::same_text(key, "auto_stop_seconds")
        || text::same_text(key, "auto-stop-seconds") {
        Some(Setting::AutoStopSeconds)
    } else if text::same_text(key, "volume") {
        Some(Setting::Volume)
    } else if text::same_text(key, "sound_file") || text::same_text(key, "sound-file") {
        Some(Setting::SoundFile)
    } else if text::same_text(key, "foreground.refresh_interval_ms")
        || text::same_text(key, "foreground.refresh-interval-ms") {
        Some(Setting::Foreground(ForegroundSetting::RefreshIntervalMs))
    } else if text::same_text(key, "foreground.show_current_datetime")
        || text::same_text(key, "foreground.show-current-datetime") {
        Some(Setting::Foreground(ForegroundSetting::ShowCurrentDatetime))
    } else if text::same_text(key, "foreground.show_target_datetime")
        || text::same_text(key, "foreground.show-target-datetime") {
        Some(Setting::Foreground(ForegroundSetting::ShowTargetDatetime))
    } else if text::same_text(key, "foreground.show_remaining")
        || text::same_text(key, "foreground.show-remaining") {
        Some(Setting::Foreground(ForegroundSetting::ShowRemaining))
    } else if text::same_text(key, "foreground.show_input")
        || text::same_text(key, "foreground.show-input") {
        Some(Setting::Foreground(ForegroundSetting::ShowInput))
    } else if text::same_text(key, "foreground.timer_style")
        || text::same_text(key, "foreground.timer-style") {
        Some(Setting::Foreground(ForegroundSetting::TimerStyle))
    } else {
        None
    }
}

/// The refusal of a key that no setting has.
pub const UNKNOWN_KEY: &'static str =
    "supported config keys: timezone, date_order, time_notation, default_mode, auto_stop_seconds, volume, sound_file, foreground.refresh_interval_ms, foreground.show_current_datetime, foreground.show_target_datetime, foreground.show_remaining, foreground.show_input, foreground.timer_style";

/// The settings of the foreground display with one of them changed, or the refusal of the value.
pub open spec fn with_foreground_setting(
    foreground: ForegroundConfig,
    setting: ForegroundSetting,
    value: ArgumentView,
) -> Result<ForegroundConfig, Seq<char>> {
    match setting {
        ForegroundSetting::RefreshIntervalMs => match count_reading(
            value.text,
            u64::MAX as int,
            "foreground.refresh_interval_ms must be an unsigned integer"@,
        ) {
            Ok(chosen) => Ok(ForegroundConfig { refresh_interval_ms: chosen as u64, ..foreground }),
            Err(refusal) => Err(refusal),
        },
        ForegroundSetting::ShowCurrentDatetime => match bool_reading(value.text) {
            Ok(chosen) => Ok(ForegroundConfig { show_current_datetime: chosen, ..foreground }),
            Err(refusal) => Err(refusal),
        },
        ForegroundSetting::ShowTargetDatetime => match bool_reading(value.text) {
            Ok(chosen) => Ok(ForegroundConfig { show_target_datetime: chosen, ..foreground }),
            Err(refusal) => Err(refusal),
        },
        ForegroundSetting::ShowRemaining => match bool_reading(value.text) {
            Ok(chosen) => Ok(ForegroundConfig { show_remaining: chosen, ..foreground }),
            Err(refusal) => Err(refusal),
        },
        ForegroundSetting::ShowInput => match bool_reading(value.text) {
            Ok(chosen) => Ok(ForegroundConfig { show_input: chosen, ..foreground }),
            Err(refusal) => Err(refusal),
        },
        ForegroundSetting::TimerStyle => match types::timer_style_reading(value.text) {
            Ok(chosen) => Ok(ForegroundConfig { timer_style: chosen, ..foreground }),
            Err(refusal) => Err(refusal),
        },
    }
}

/// Changes one setting of the foreground display.
fn set_foreground(
    foreground: ForegroundConfig,
    setting: ForegroundSetting,
    value: &Argument,
) -> (r: AppResult<ForegroundConfig>)
    ensures
        types::outcome(r) == with_foreground_setting(foreground, setting, value@),
{
    let word = value.text.as_str();
    match setting {
        ForegroundSetting::RefreshIntervalMs => match parse_count(
            word,
            u64::MAX,
            "foreground.refresh_interval_ms must be an unsigned integer",
        ) {
            Ok(chosen) => Ok(ForegroundConfig { refresh_interval_ms: chosen, ..foreground }),
            Err(refusal) => Err(refusal),
        },
        ForegroundSetting::ShowCurrentDatetime => match parse_bool(word) {
            Ok(chosen) => Ok(ForegroundConfig { show_current_datetime: chosen, ..foreground }),
            Err(refusal) => Err(refusal),
        },
        ForegroundSetting::ShowTargetDatetime => match parse_bool(word) {
            Ok(chosen) => Ok(ForegroundConfig { show_target_datetime: chosen, ..foreground }),
            Err(refusal) => Err(refusal),
        },
        ForegroundSetting::ShowRemaining => match parse_bool(word) {
            Ok(chosen) => Ok(ForegroundConfig { show_remaining: chosen, ..foreground }),
            Err(refusal) => Err(refusal),
        },
        ForegroundSetting::ShowInput => match parse_bool(word) {
            Ok(chosen) => Ok(ForegroundConfig { show_input: chosen, ..foreground }),
            Err(refusal) => Err(refusal),
        },
        ForegroundSetting::TimerStyle => match TimerStyle::from_str(word) {
            Ok(chosen) => Ok(ForegroundConfig { timer_style: chosen, ..foreground }),
            Err(refusal) => Err(refusal),
        },
    }
}

/// The settings with one of them changed, before they are held to be valid, or the refusal of the
/// value.
pub open spec fn with_setting(config: ConfigView, setting: Setting, value: ArgumentView) -> Result<
    ConfigView,
    Seq<char>,
> {
    match setting {
        Setting::Timezone => if zone::known_timezone(value.text) {
            Ok(ConfigView { timezone: value.text, ..config })
        } else {
            Err("invalid timezone `"@ + value.text + "`"@)
        },
        Setting::DateOrder => match types::date_order_reading(value.text) {
            Ok(chosen) => Ok(ConfigView { date_order: chosen, ..config }),
            Err(refusal) => Err(refusal),
        },
        Setting::TimeNotation => match types::time_notation_reading(value.text) {
            Ok(chosen) => Ok(ConfigView { time_notation: chosen, ..config }),
            Err(refusal) => Err(refusal),
        },
        Setting::DefaultMode => match types::run_mode_reading(value.text) {
            Ok(chosen) => Ok(ConfigView { default_mode: chosen, ..config }),
            Err(refusal) => Err(refusal),
        },
        Setting::AutoStopSeconds => match count_reading(
            value.text,
            u64::MAX as int,
            "auto_stop_seconds must be an unsigned integer"@,
        ) {
            Ok(chosen) => Ok(ConfigView { auto_stop_seconds: chosen as u64, ..config }),
            Err(refusal) => Err(refusal),
        },
        Setting::Volume => match volume_reading(value.number) {
            Ok(chosen) => Ok(ConfigView { volume: chosen, ..config }),
            Err(refusal) => Err(refusal),
        },
        Setting::SoundFile => Ok(
            ConfigView { sound_file: sound_file_reading(value.text), ..config },
        ),
        Setting::Foreground(setting) => match with_foreground_setting(
            config.foreground,
            setting,
            value,
        ) {
            Ok(foreground) => Ok(ConfigView { foreground, ..config }),
            Err(refusal) => Err(refusal),
        },
    }
}

/// What changing a setting leaves and answers: a refused change leaves the settings as they are, a
/// change that makes them invalid stays and is refused.
pub open spec fn setting_changed(config: ConfigView, key: Seq<char>, value: ArgumentView) -> (
    ConfigView,
    Result<(), Seq<char>>,
) {
    match setting_of(key) {
        Some(setting) => match with_setting(config, setting, value) {
            Ok(changed) => (changed, config_validity(changed)),
            Err(refusal) => (config, Err(refusal)),
        },
        None => (config, Err(UNKNOWN_KEY@)),
    }
}

/// Changes one setting, without holding the settings to be valid.
fn set(config: &mut Config, setting: Setting, value: &Argument) -> (r: AppResult<()>)
    ensures
        match with_setting(old(config)@, setting, value@) {
            Ok(changed) => r is Ok && final(config)@ == changed,
            Err(refusal) => r is Err && r->Err_0@ == refusal && final(config)@ == old(config)@,
        },
{
    let word = value.text.as_str();
    match setting {
        Setting::Timezone => match validate_timezone(word) {
            Ok(()) => {
                config.timezone = word.to_string();
                Ok(())
            },
            Err(refusal) => Err(refusal),
        },
        Setting::DateOrder => match DateOrder::from_str(word) {
            Ok(chosen) => {
                config.date_order = chosen;
                Ok(())
            },
            Err(refusal) => Err(refusal),
        },
        Setting::TimeNotation => match TimeNotation::from_str(word) {
            Ok(chosen) => {
                config.time_notation = chosen;
                Ok(())
            },
            Err(refusal) => Err(refusal),
        },
        Setting::DefaultMode => match RunMode::from_str(word) {
            Ok(chosen) => {
                config.default_mode = chosen;
                Ok(())
            },
            Err(refusal) => Err(refusal),
        },
        Setting::AutoStopSeconds => match parse_count(
            word,
            u64::MAX,
            "auto_stop_seconds must be an unsigned integer",
        ) {
            Ok(chosen) => {
                config.auto_stop_seconds = chosen;
                Ok(())
            },
            Err(refusal) => Err(refusal),
        },
        Setting::Volume => match parse_volume(value) {
            Ok(chosen) => {
                config.volume = chosen;
                Ok(())
            },
            Err(refusal) => Err(refusal),
        },
        Setting::SoundFile => {
            config.sound_file = parse_sound_file_value(word);
            Ok(())
        },
        Setting::Foreground(setting) => match set_foreground(config.foreground, setting, value) {
            Ok(foreground) => {
                config.foreground = foreground;
                Ok(())
            },
            Err(refusal) => Err(refusal),
        },
    }
}

/// Changes the setting that `key` names and holds the settings to be valid.
pub fn apply_config_update(config: &mut Config, key: &str, value: &Argument) -> (r: AppResult<()>)
    ensures
        (final(config)@, types::outcome(r)) == setting_changed(old(config)@, key@, value@),
{
    match find_setting(key) {
        Some(setting) => match set(config, setting, value) {
            Ok(()) => config.validate(),
            Err(refusal) => Err(refusal),
        },
        None => Err(UNKNOWN_KEY.to_string()),
    }
}

/// A change that is accepted leaves settings that can be used. A change that is refused leaves
/// settings that could be used as they were, but for a refresh interval of zero, which stays.
pub proof fn law_change_keeps_validity(config: ConfigView, key: Seq<char>, value: ArgumentView)
    ensures
        setting_changed(config, key, value).1 is Ok ==> config_validity(
            setting_changed(config, key, value).0,
        ) is Ok,
        config_validity(config) is Ok && setting_changed(config, key, value).1 is Err ==> {
            ||| setting_changed(config, key, value).0 == config
            ||| setting_changed(config, key, value).0 == (ConfigView {
                foreground: ForegroundConfig { refresh_interval_ms: 0, ..config.foreground },
                ..config
            })
        },
{
}

/// The bit pattern of the volume before any setting, 0.20.
pub const DEFAULT_VOLUME_BITS: u64 = 0x3fc9_9999_9999_999a;

/// The settings before any change, in the given time zone.
pub open spec fn default_config(timezone: Seq<char>) -> ConfigView {
    ConfigView {
        timezone,
        date_order: DateOrder::Dmy,
        prefer_locale_date_order: true,
        time_notation: TimeNotation::H24,
        default_mode: RunMode::Background,
        auto_stop_seconds: 0,
        volume: Volume { bits: DEFAULT_VOLUME_BITS },
        sound_file: None,
        notifications: types::default_notifications(),
        foreground: types::default_foreground(),
    }
}

/// The time zone to begin with: that of the system if it is known, or else UTC.
pub open spec fn detected_timezone(system: Option<Seq<char>>) -> Seq<char> {
    match system {
        Some(name) => if zone::known_timezone(name) {
            name
        } else {
            "UTC"@
        },
        None => "UTC"@,
    }
}

/// Trusted: calls `iana_time_zone::get_timezone`. What it answers depends on the machine, and
/// nothing is claimed of it.
#[verifier::external_body]
fn system_timezone() -> (r: Option<String>) {
    match iana_time_zone::get_timezone() {
        Ok(name) => Some(name),
        Err(_) => None,
    }
}

/// Takes the time zone of the system if it is known, or else UTC.
pub fn detect_default_timezone(system: Option<String>) -> (r: String)
    ensures
        r@ == detected_timezone(text::optional_text(system)),
        zone::known_timezone(r@),
{
    match system {
        Some(name) => match Timezone::from_name(name.as_str()) {
            Some(_) => name,
            None => Timezone::utc().name().to_string(),
        },
        None => Timezone::utc().name().to_string(),
    }
}

impl Config {
    /// The settings before any change, on a system with the given time zone.
    pub fn for_system(system: Option<String>) -> (r: Config)
        ensures
            r@ == default_config(detected_timezone(text::optional_text(system))),
            config_validity(r@) is Ok,
    {
        Config {
            timezone: detect_default_timezone(system),
            date_order: DateOrder::Dmy,
            prefer_locale_date_order: true,
            time_notation: TimeNotation::H24,
            default_mode: RunMode::Background,
            auto_stop_seconds: 0,
            volume: Volume { bits: DEFAULT_VOLUME_BITS },
            sound_file: None,
            notifications: NotificationConfig::default(),
            foreground: ForegroundConfig::default(),
        }
    }
}

impl Default for Config {
    /// The settings before any change, on this system.
    fn default() -> (r: Config)
        ensures
            r@ == default_config(r@.timezone),
            config_validity(r@) is Ok,
    {
        Config::for_system(system_timezone())
    }
}

/// The settings before any change can be used, in any time zone that is known.
pub proof fn law_default_config_is_valid(timezone: Seq<char>)
    requires
        zone::known_timezone(timezone),
    ensures
        config_validity(default_config(timezone)) is Ok,
{
}

/// What is asked of the user when the settings are first made, in this order.
#[derive(Clone, Copy, Debug, PartialEq, Eq, Structural)]
pub enum Question {
    Timezone,
    DateOrder,
    TimeNotation,
    DefaultMode,
    AutoStop,
    Volume,
}

/// The question after `question`.
pub open spec fn question_after(question: Question) -> Option<Question> {
    match question {
        Question::Timezone => Some(Question::DateOrder),
        Question::DateOrder => Some(Question::TimeNotation),
        Question::TimeNotation => Some(Question::DefaultMode),
        Question::DefaultMode => Some(Question::AutoStop),
        Question::AutoStop => Some(Question::Volume),
        Question::Volume => None,
    }
}

impl Question {
    /// The next question, if there is one.
    pub fn next(self) -> (r: Option<Question>)
        ensures
            r == question_after(self),
    {
        match self {
            Question::Timezone => Some(Question::DateOrder),
            Question::DateOrder => Some(Question::TimeNotation),
            Question::TimeNotation => Some(Question::DefaultMode),
            Question::DefaultMode => Some(Question::AutoStop),
            Question::AutoStop => Some(Question::Volume),
            Question::Volume => None,
        }
    }
}

/// The text of a question, which shows what an empty answer leaves. The volume is shown as the
/// given text.
pub open spec fn prompt_of(question: Question, config: ConfigView, volume: Seq<char>) -> Seq<char> {
    match question {
        Question::Timezone => "timezone ["@ + config.timezone + "]: "@,
        Question::DateOrder => "date order ["@ + types::date_order_word(config.date_order)
            + "] (dmy/mdy/ymd): "@,
        Question::TimeNotation => "time notation ["@ + types::time_notation_word(
            config.time_notation,
        ) + "] (24h/12h): "@,
        Question::DefaultMode => "default mode ["@ + types::run_mode_word(config.default_mode)
            + "] (background/foreground): "@,
        Question::AutoStop => "auto-stop seconds ["@ + text::decimal(
            config.auto_stop_seconds as int,
        ) + "]: "@,
        Question::Volume => "volume ["@ + volume + "] (0.0-1.0): "@,
    }
}

/// Writes the text of a question.
pub fn prompt_text(question: Question, config: &Config, volume: &str) -> (r: String)
    ensures
        r@ == prompt_of(question, config@, volume@),
{
    match question {
        Question::Timezone => text::concat3("timezone [", config.timezone.as_str(), "]: "),
        Question::DateOrder => {
            let word = config.date_order.to_string();
            text::concat3("date order [", word.as_str(), "] (dmy/mdy/ymd): ")
        },
        Question::TimeNotation => {
            let word = config.time_notation.to_string();
            text::concat3("time notation [", word.as_str(), "] (24h/12h): ")
        },
        Question::DefaultMode => {
            let word = config.default_mode.to_string();
            text::concat3("default mode [", word.as_str(), "] (background/foreground): ")
        },
        Question::AutoStop => {
            let count = text::decimal_text(config.auto_stop_seconds);
            text::concat3("auto-stop seconds [", count.as_str(), "]: ")
        },
        Question::Volume => text::concat3("volume [", volume, "] (0.0-1.0): "),
    }
}

/// What comes of an answer.
#[derive(Debug)]
pub enum Reply {
    /// The answer was taken.
    Taken,
    /// The answer was refused with a message and the question is asked again.
    Again(String),
    /// The answer was refused with a message and no more is asked.
    GivenUp(String),
}

/// The view of a `Reply`.
#[verifier::ext_equal]
pub enum ReplyView {
    Taken,
    Again(Seq<char>),
    GivenUp(Seq<char>),
}

impl View for Reply {
    type V = ReplyView;

    open spec fn view(&self) -> ReplyView {
        match *self {
            Reply::Taken => ReplyView::Taken,
            Reply::Again(message) => ReplyView::Again(message@),
            Reply::GivenUp(message) => ReplyView::GivenUp(message@),
        }
    }
}

/// The setting that a question is about.
pub open spec fn setting_asked(question: Question) -> Setting {
    match question {
        Question::Timezone => Setting::Timezone,
        Question::DateOrder => Setting::DateOrder,
        Question::TimeNotation => Setting::TimeNotation,
        Question::DefaultMode => Setting::DefaultMode,
        Question::AutoStop => Setting::AutoStopSeconds,
        Question::Volume => Setting::Volume,
    }
}

/// What an answer leaves of the settings and what comes of it: an empty answer leaves the setting
/// as it is, any other changes it as its key would. An unknown time zone ends the questions, and
/// any other refused answer has its question asked again.
pub open spec fn answered(config: ConfigView, question: Question, answer: ArgumentView) -> (
    ConfigView,
    ReplyView,
) {
    if answer.text.len() == 0 {
        (config, ReplyView::Taken)
    } else {
        match with_setting(config, setting_asked(question), answer) {
            Ok(changed) => (changed, ReplyView::Taken),
            Err(refusal) => (
                config,
                match question {
                    Question::Timezone => ReplyView::GivenUp(refusal),
                    Question::AutoStop => ReplyView::Again(
                        "auto-stop seconds must be an unsigned integer"@,
                    ),
                    _ => ReplyView::Again(refusal),
                },
            ),
        }
    }
}

/// Takes the answer to a question into the settings.
pub fn take_answer(config: &mut Config, question: Question, answer: &Argument) -> (r: Reply)
    ensures
        (final(config)@, r@) == answered(old(config)@, question, answer@),
{
    if answer.text.as_str().is_empty() {
        return Reply::Taken;
    }
    let setting = match question {
        Question::Timezone => Setting::Timezone,
        Question::DateOrder => Setting::DateOrder,
        Question::TimeNotation => Setting::TimeNotation,
        Question::DefaultMode => Setting::DefaultMode,
        Question::AutoStop => Setting::AutoStopSeconds,
        Question::Volume => Setting::Volume,
    };
    match set(config, setting, answer) {
        Ok(()) => Reply::Taken,
        Err(refusal) => match question {
            Question::Timezone => Reply::GivenUp(refusal),
            Question::AutoStop => Reply::Again(
                "auto-stop seconds must be an unsigned integer".to_string(),
            ),
            _ => Reply::Again(refusal),
        },
    }
}

/// Whatever is answered, settings that can be used stay so.
pub proof fn law_answers_keep_validity(config: ConfigView, question: Question, answer: ArgumentView)
    requires
        config_validity(config) is Ok,
    ensures
        config_validity(answered(config, question, answer).0) is Ok,
{
}

/// The directory of the settings below the home directory.
pub open spec fn root_below(home: Option<Seq<u8>>) -> Result<Seq<u8>, Seq<char>> {
    match home {
        Some(home) => Ok(
            paths::joined(
                paths::joined(home, paths::bytes_of(".config"@)),
                paths::bytes_of("tix"@),
            ),
        ),
        None => Err("HOME is not set; cannot resolve ~/.config/tix"@),
    }
}

/// The directory of the settings, given the home directory.
pub fn config_root(home: Option<&[u8]>) -> (r: AppResult<Vec<u8>>)
    ensures
        types::outcome_view(r) == root_below(paths::optional_path(home)),
{
    match home {
        Some(home) => {
            let base = paths::join(home, ".config".as_bytes());
            Ok(paths::join(base.as_slice(), "tix".as_bytes()))
        },
        None => Err("HOME is not set; cannot resolve ~/.config/tix".to_string()),
    }
}

/// The file of the given name in the directory of the settings.
pub open spec fn file_below(home: Option<Seq<u8>>, name: Seq<u8>) -> Result<Seq<u8>, Seq<char>> {
    match root_below(home) {
        Ok(root) => Ok(paths::joined(root, name)),
        Err(refusal) => Err(refusal),
    }
}

/// The file of the settings, given the home directory.
pub fn config_file_path(home: Option<&[u8]>) -> (r: AppResult<Vec<u8>>)
    ensures
        types::outcome_view(r) == file_below(
            paths::optional_path(home),
            paths::bytes_of("config.toml"@),
        ),
{
    match config_root(home) {
        Ok(root) => Ok(paths::join(root.as_slice(), "config.toml".as_bytes())),
        Err(refusal) => Err(refusal),
    }
}

/// Where a sound file is: `~/` stands for the home directory, and a path that is not absolute is
/// taken from the directory of the settings.
pub open spec fn sound_file_path(sound_file: Seq<char>, home: Option<Seq<u8>>) -> Result<
    Seq<u8>,
    Seq<char>,
> {
    let raw = text::trimmed(sound_file);
    if raw.len() == 0 {
        Err("sound_file cannot be empty"@)
    } else {
        match text::after_prefix(raw, "~/"@) {
            Some(rest) => match home {
                Some(directory) => placed(paths::joined(directory, paths::bytes_of(rest)), home),
                None => Err("HOME is not set; cannot expand `~/` in sound_file"@),
            },
            None => placed(paths::bytes_of(raw), home),
        }
    }
}

/// An absolute path itself, and any other path taken from the directory of the settings.
pub open spec fn placed(path: Seq<u8>, home: Option<Seq<u8>>) -> Result<Seq<u8>, Seq<char>> {
    if paths::is_absolute(path) {
        Ok(path)
    } else {
        file_below(home, path)
    }
}

/// Finds where a sound file is, given the home directory.
pub fn resolve_sound_file_path(sound_file: &str, home: Option<&[u8]>) -> (r: AppResult<Vec<u8>>)
    ensures
        types::outcome_view(r) == sound_file_path(sound_file@, paths::optional_path(home)),
{
    let raw = text::trim(sound_file);
    if raw.is_empty() {
        return Err("sound_file cannot be empty".to_string());
    }
    let path = match text::strip_prefix(raw, "~/") {
        Some(rest) => match home {
            Some(directory) => paths::join(directory, rest.as_bytes()),
            None => {
                return Err("HOME is not set; cannot expand `~/` in sound_file".to_string());
            },
        },
        None => bytes::copy(raw.as_bytes()),
    };
    if paths::absolute(path.as_slice()) {
        return Ok(path);
    }
    match config_root(home) {
        Ok(root) => Ok(paths::join(root.as_slice(), path.as_slice())),
        Err(refusal) => Err(refusal),
    }
}

/// A sound file that is found lies at an absolute path, if the home directory does.
pub proof fn law_sound_file_path_is_absolute(sound_file: Seq<char>, home: Seq<u8>)
    requires
        paths::is_absolute(home),
    ensures
        sound_file_path(sound_file, Some(home)) matches Ok(path) ==> paths::is_absolute(path),
{
}

/// The directory of the settings below a home directory that does not end in a slash.
pub proof fn lemma_config_root(home: Seq<u8>)
    requires
        home.len() > 0,
        home.last() != 47,
    ensures
        root_below(Some(home)) == Ok::<Seq<u8>, Seq<char>>(home + paths::bytes_of("/.config/tix"@)),
        paths::bytes_of("/.config/tix"@).len() == 12,
        paths::bytes_of("/.config/tix"@)[0] == 47,
        paths::bytes_of("/.config/tix"@)[11] == 120,
        root_below(Some(home))->Ok_0.last() == 120,
{
    reveal_strlit("/.config/tix");
    reveal_strlit(".config");
    reveal_strlit("tix");
    paths::lemma_ascii_bytes("/.config/tix"@);
    paths::lemma_ascii_bytes(".config"@);
    paths::lemma_ascii_bytes("tix"@);
    paths::law_joined_path(home, paths::bytes_of(".config"@));
    let base = paths::joined(home, paths::bytes_of(".config"@));
    assert(base.last() == paths::bytes_of(".config"@)[6]);
    paths::law_joined_path(base, paths::bytes_of("tix"@));
    assert(base + seq![47u8] + paths::bytes_of("tix"@) =~= home + paths::bytes_of("/.config/tix"@));
}

/// A yes is one of four words and a no one of four others, white space around it and letter case
/// aside, and no other text is either.
pub proof fn law_yes_and_no(value: Seq<char>)
    ensures
        ({
            let word = text::lowered(text::trimmed(value));
            &&& bool_reading(value) == Ok::<bool, Seq<char>>(true) <==> word == "true"@ || word
                == "1"@ || word == "yes"@ || word == "on"@
            &&& bool_reading(value) == Ok::<bool, Seq<char>>(false) <==> word == "false"@ || word
                == "0"@ || word == "no"@ || word == "off"@
            &&& bool_reading(value) matches Err(refusal) ==> refusal
                == "boolean value must be one of: true, false"@
        }),
{
    reveal_strlit("true");
    reveal_strlit("1");
    reveal_strlit("yes");
    reveal_strlit("on");
    reveal_strlit("false");
    reveal_strlit("0");
    reveal_strlit("no");
    reveal_strlit("off");
    assert("true"@[0] == 't' && "1"@[0] == '1' && "yes"@[0] == 'y' && "on"@[0] == 'o' && "on"@[1]
        == 'n');
    assert("false"@[0] == 'f' && "0"@[0] == '0' && "no"@[0] == 'n' && "off"@[0] == 'o' && "off"@[1]
        == 'f');
}

/// A number from 0.0 to 1.0 is a volume with the very same bits, and nothing else is one.
pub proof fn law_volumes_are_read(bits: u64)
    ensures
        volume_reading(None) == Err::<Volume, Seq<char>>(
            "volume must be a number between 0.0 and 1.0"@,
        ),
        bits <= 0x3ff0_0000_0000_0000 || bits == 0x8000_0000_0000_0000 ==> volume_reading(Some(bits))
            == Ok::<Volume, Seq<char>>(Volume { bits }),
        !(bits <= 0x3ff0_0000_0000_0000 || bits == 0x8000_0000_0000_0000) ==> volume_reading(
            Some(bits),
        ) == Err::<Volume, Seq<char>>("volume must be between 0.0 and 1.0"@),
{
}

/// A time after which a notification goes away is an unsigned number of 32 bits.
pub proof fn law_timeouts_are_read(value: Seq<char>, count: u32)
    ensures
        timeout_reading(text::decimal(count as int)) == Ok::<u32, Seq<char>>(count),
        timeout_reading(value) is Ok <==> text::unsigned_reading(value, 0xffff_ffff) is Some,
        timeout_reading(value) == Ok::<u32, Seq<char>>(count) ==> text::unsigned_reading(
            value,
            0xffff_ffff,
        ) == Some(count as int),
{
    text::law_decimal_reads_back(count as int, 0xffff_ffff);
    if text::unsigned_reading(value, 0xffff_ffff) is Some {
        lemma_unsigned_is_bounded(value, 0xffff_ffff);
    }
}

proof fn lemma_unsigned_is_bounded(value: Seq<char>, max: int)
    ensures
        text::unsigned_reading(value, max) matches Some(count) ==> 0 <= count <= max,
{
    let digits = if value.len() > 0 && value[0] == '+' {
        value.drop_first()
    } else {
        value
    };
    if text::all_digits(digits) {
        text::lemma_digits_value_prefix(digits, 0);
    }
}

/// A sound file is the text without the white space around it, and there is none if that is empty
/// or says so.
pub proof fn law_sound_files_are_read(value: Seq<char>)
    ensures
        ({
            let (plain, word) = (text::trimmed(value), text::lowered(text::trimmed(value)));
            sound_file_reading(value) == if plain.len() == 0 || word == "none"@ || word == "off"@ {
                None
            } else {
                Some(plain)
            }
        }),
{
}

/// Settings can be used exactly if their time zone is known, their volume is in range and their
/// display is refreshed at all. What is wrong first, in this order, is what is said.
pub proof fn law_usable_settings(config: ConfigView)
    ensures
        !zone::known_timezone(config.timezone) ==> config_validity(config) == Err::<(), Seq<char>>(
            "invalid timezone `"@ + config.timezone + "` in config"@,
        ),
        zone::known_timezone(config.timezone) && !(config.volume.bits <= 0x3ff0_0000_0000_0000
            || config.volume.bits == 0x8000_0000_0000_0000) ==> config_validity(config) == Err::<
            (),
            Seq<char>,
        >("volume must be between 0.0 and 1.0"@),
        config_validity(config) is Ok <==> {
            &&& zone::known_timezone(config.timezone)
            &&& config.volume.bits <= 0x3ff0_0000_0000_0000 || config.volume.bits
                == 0x8000_0000_0000_0000
            &&& config.foreground.refresh_interval_ms > 0
        },
{
}

/// A time zone for one command changes the time zone alone, if it is known, and nothing otherwise.
pub proof fn law_timezone_for_one_command(config: ConfigView, name: Seq<char>)
    ensures
        timezone_overridden(config, None) == (config, Ok::<(), Seq<char>>(())),
        zone::known_timezone(name) ==> timezone_overridden(config, Some(name)) == (
            ConfigView { timezone: name, ..config },
            Ok::<(), Seq<char>>(()),
        ),
        !zone::known_timezone(name) ==> timezone_overridden(config, Some(name)).0 == config
            && timezone_overridden(config, Some(name)).1 is Err,
{
}

proof fn lemma_short_keys()
    ensures
        setting_of("timezone"@) == Some(Setting::Timezone),
        setting_of("date_order"@) == Some(Setting::DateOrder),
        setting_of("date-order"@) == Some(Setting::DateOrder),
        setting_of("time_notation"@) == Some(Setting::TimeNotation),
        setting_of("time-notation"@) == Some(Setting::TimeNotation),
        setting_of("default_mode"@) == Some(Setting::DefaultMode),
        setting_of("default-mode"@) == Some(Setting::DefaultMode),
        setting_of("auto_stop_seconds"@) == Some(Setting::AutoStopSeconds),
        setting_of("auto-stop-seconds"@) == Some(Setting::AutoStopSeconds),
        setting_of("volume"@) == Some(Setting::Volume),
        setting_of("sound_file"@) == Some(Setting::SoundFile),
        setting_of("sound-file"@) == Some(Setting::SoundFile),
{
    reveal_strlit("timezone");
    reveal_strlit("date_order");
    reveal_strlit("date-order");
    reveal_strlit("time_notation");
    reveal_strlit("time-notation");
    reveal_strlit("default_mode");
    reveal_strlit("default-mode");
    reveal_strlit("auto_stop_seconds");
    reveal_strlit("auto-stop-seconds");
    reveal_strlit("volume");
    reveal_strlit("sound_file");
    reveal_strlit("sound-file");
    assert("timezone"@.len() == 8 && "date_order"@.len() == 10 && "date-order"@.len() == 10);
    assert("time_notation"@.len() == 13 && "time-notation"@.len() == 13);
    assert("default_mode"@.len() == 12 && "default-mode"@.len() == 12);
    assert("auto_stop_seconds"@.len() == 17 && "auto-stop-seconds"@.len() == 17);
    assert("volume"@.len() == 6 && "sound_file"@.len() == 10 && "sound-file"@.len() == 10);
    assert("date_order"@[0] == 'd' && "date-order"@[0] == 'd');
    assert("sound_file"@[0] == 's' && "sound-file"@[0] == 's');
}

proof fn lemma_foreground_keys()
    ensures
        setting_of("foreground.refresh_interval_ms"@) == Some(
            Setting::Foreground(ForegroundSetting::RefreshIntervalMs),
        ),
        setting_of("foreground.refresh-interval-ms"@) == Some(
            Setting::Foreground(ForegroundSetting::RefreshIntervalMs),
        ),
        setting_of("foreground.show_current_datetime"@) == Some(
            Setting::Foreground(ForegroundSetting::ShowCurrentDatetime),
        ),
        setting_of("foreground.show-current-datetime"@) == Some(
            Setting::Foreground(ForegroundSetting::ShowCurrentDatetime),
        ),
        setting_of("foreground.show_target_datetime"@) == Some(
            Setting::Foreground(ForegroundSetting::ShowTargetDatetime),
        ),
        setting_of("foreground.show-target-datetime"@) == Some(
            Setting::Foreground(ForegroundSetting::ShowTargetDatetime),
        ),
        setting_of("foreground.show_remaining"@) == Some(
            Setting::Foreground(ForegroundSetting::ShowRemaining),
        ),
        setting_of("foreground.show-remaining"@) == Some(
            Setting::Foreground(ForegroundSetting::ShowRemaining),
        ),
        setting_of("foreground.show_input"@) == Some(
            Setting::Foreground(ForegroundSetting::ShowInput),
        ),
        setting_of("foreground.show-input"@) == Some(
            Setting::Foreground(ForegroundSetting::ShowInput),
        ),
        setting_of("foreground.timer_style"@) == Some(
            Setting::Foreground(ForegroundSetting::TimerStyle),
        ),
        setting_of("foreground.timer-style"@) == Some(
            Setting::Foreground(ForegroundSetting::TimerStyle),
        ),
{
    reveal_strlit("timezone");
    reveal_strlit("date_order");
    reveal_strlit("date-order");
    reveal_strlit("time_notation");
    reveal_strlit("time-notation");
    reveal_strlit("default_mode");
    reveal_strlit("default-mode");
    reveal_strlit("auto_stop_seconds");
    reveal_strlit("auto-stop-seconds");
    reveal_strlit("volume");
    reveal_strlit("sound_file");
    reveal_strlit("sound-file");
    reveal_strlit("foreground.refresh_interval_ms");
    reveal_strlit("foreground.refresh-interval-ms");
    reveal_strlit("foreground.show_current_datetime");
    reveal_strlit("foreground.show-current-datetime");
    reveal_strlit("foreground.show_target_datetime");
    reveal_strlit("foreground.show-target-datetime");
    reveal_strlit("foreground.show_remaining");
    reveal_strlit("foreground.show-remaining");
    reveal_strlit("foreground.show_input");
    reveal_strlit("foreground.show-input");
    reveal_strlit("foreground.timer_style");
    reveal_strlit("foreground.timer-style");
    assert("timezone"@.len() == 8 && "date_order"@.len() == 10 && "date-order"@.len() == 10);
    assert("time_notation"@.len() == 13 && "time-notation"@.len() == 13);
    assert("default_mode"@.len() == 12 && "default-mode"@.len() == 12);
    assert("auto_stop_seconds"@.len() == 17 && "auto-stop-seconds"@.len() == 17);
    assert("volume"@.len() == 6 && "sound_file"@.len() == 10 && "sound-file"@.len() == 10);
    assert("foreground.refresh_interval_ms"@.len() == 30);
    assert("foreground.refresh-interval-ms"@.len() == 30);
    assert("foreground.show_current_datetime"@.len() == 32);
    assert("foreground.show-current-datetime"@.len() == 32);
    assert("foreground.show_target_datetime"@.len() == 31);
    assert("foreground.show-target-datetime"@.len() == 31);
    assert("foreground.show_remaining"@.len() == 25);
    assert("foreground.show-remaining"@.len() == 25);
    assert("foreground.show_input"@.len() == 21);
    assert("foreground.show-input"@.len() == 21);
    assert("foreground.timer_style"@.len() == 22);
    assert("foreground.timer-style"@.len() == 22);
}

/// A key changes the setting that it names to what the value reads as and leaves every other setting
/// as it is, and a value that cannot be read changes nothing.
pub proof fn law_key_changes_its_setting(config: ConfigView, value: ArgumentView)
    ensures
        setting_changed(config, "timezone"@, value).0 == (ConfigView {
            timezone: if zone::known_timezone(value.text) {
                value.text
            } else {
                config.timezone
            },
            ..config
        }),
        setting_changed(config, "date_order"@, value).0 == (ConfigView {
            date_order: match types::date_order_reading(value.text) {
                Ok(chosen) => chosen,
                Err(_) => config.date_order,
            },
            ..config
        }),
        setting_changed(config, "time_notation"@, value).0 == (ConfigView {
            time_notation: match types::time_notation_reading(value.text) {
                Ok(chosen) => chosen,
                Err(_) => config.time_notation,
            },
            ..config
        }),
        setting_changed(config, "default_mode"@, value).0 == (ConfigView {
            default_mode: match types::run_mode_reading(value.text) {
                Ok(chosen) => chosen,
                Err(_) => config.default_mode,
            },
            ..config
        }),
        setting_changed(config, "auto_stop_seconds"@, value).0 == (ConfigView {
            auto_stop_seconds: match text::unsigned_reading(value.text, u64::MAX as int) {
                Some(chosen) => chosen as u64,
                None => config.auto_stop_seconds,
            },
            ..config
        }),
        setting_changed(config, "volume"@, value).0 == (ConfigView {
            volume: match volume_reading(value.number) {
                Ok(chosen) => chosen,
                Err(_) => config.volume,
            },
            ..config
        }),
        setting_changed(config, "sound_file"@, value).0 == (ConfigView {
            sound_file: sound_file_reading(value.text),
            ..config
        }),
{
    lemma_short_keys();
}

/// The settings with another display.
pub open spec fn with_display(config: ConfigView, foreground: ForegroundConfig) -> ConfigView {
    ConfigView { foreground, ..config }
}

/// What a switch is set to by a value, or what it was if that is neither a yes nor a no.
pub open spec fn switched(before: bool, value: ArgumentView) -> bool {
    match bool_reading(value.text) {
        Ok(chosen) => chosen,
        Err(_) => before,
    }
}

/// The keys for the refresh interval and the style of the display change that setting to what the
/// value reads as and leave every other setting as it is, and a value that cannot be read changes
/// nothing.
pub proof fn law_key_changes_the_display(config: ConfigView, value: ArgumentView)
    ensures
        setting_changed(config, "foreground.refresh_interval_ms"@, value).0 == with_display(
            config,
            ForegroundConfig {
                refresh_interval_ms: match text::unsigned_reading(value.text, u64::MAX as int) {
                    Some(count) => count as u64,
                    None => config.foreground.refresh_interval_ms,
                },
                ..config.foreground
            },
        ),
        setting_changed(config, "foreground.timer_style"@, value).0 == with_display(
            config,
            ForegroundConfig {
                timer_style: match types::timer_style_reading(value.text) {
                    Ok(style) => style,
                    Err(_) => config.foreground.timer_style,
                },
                ..config.foreground
            },
        ),
{
    lemma_foreground_keys();
    lemma_display_key(
        config,
        "foreground.refresh_interval_ms"@,
        ForegroundSetting::RefreshIntervalMs,
        value,
    );
    lemma_display_key(config, "foreground.timer_style"@, ForegroundSetting::TimerStyle, value);
}

/// The keys for what the display shows of the current time and of the target change that setting to
/// what the value reads as and leave every other setting as it is, and a value that cannot be read
/// changes nothing.
pub proof fn law_key_shows_times(config: ConfigView, value: ArgumentView)
    ensures
        setting_changed(config, "foreground.show_current_datetime"@, value).0 == with_display(
            config,
            ForegroundConfig {
                show_current_datetime: switched(config.foreground.show_current_datetime, value),
                ..config.foreground
            },
        ),
        setting_changed(config, "foreground.show_target_datetime"@, value).0 == with_display(
            config,
            ForegroundConfig {
                show_target_datetime: switched(config.foreground.show_target_datetime, value),
                ..config.foreground
            },
        ),
{
    lemma_foreground_keys();
    lemma_display_key(
        config,
        "foreground.show_current_datetime"@,
        ForegroundSetting::ShowCurrentDatetime,
        value,
    );
    lemma_display_key(
        config,
        "foreground.show_target_datetime"@,
        ForegroundSetting::ShowTargetDatetime,
        value,
    );
}

/// The keys for whether the display shows the time that is left and the input change that setting to
/// what the value reads as and leave every other setting as it is, and a value that cannot be read
/// changes nothing.
pub proof fn law_key_shows_the_rest(config: ConfigView, value: ArgumentView)
    ensures
        setting_changed(config, "foreground.show_remaining"@, value).0 == with_display(
            config,
            ForegroundConfig {
                show_remaining: switched(config.foreground.show_remaining, value),
                ..config.foreground
            },
        ),
        setting_changed(config, "foreground.show_input"@, value).0 == with_display(
            config,
            ForegroundConfig {
                show_input: switched(config.foreground.show_input, value),
                ..config.foreground
            },
        ),
{
    lemma_foreground_keys();
    lemma_display_key(
        config,
        "foreground.show_remaining"@,
        ForegroundSetting::ShowRemaining,
        value,
    );
    lemma_display_key(config, "foreground.show_input"@, ForegroundSetting::ShowInput, value);
}

proof fn lemma_display_key(
    config: ConfigView,
    key: Seq<char>,
    setting: ForegroundSetting,
    value: ArgumentView,
)
    requires
        setting_of(key) == Some(Setting::Foreground(setting)),
    ensures
        setting_changed(config, key, value).0 == (ConfigView {
            foreground: match with_foreground_setting(config.foreground, setting, value) {
                Ok(foreground) => foreground,
                Err(_) => config.foreground,
            },
            ..config
        }),
{
}

/// A key with hyphens is the key with underscores.
pub proof fn law_hyphens_in_keys(config: ConfigView, value: ArgumentView)
    ensures
        setting_changed(config, "date-order"@, value) == setting_changed(
            config,
            "date_order"@,
            value,
        ),
        setting_changed(config, "time-notation"@, value) == setting_changed(
            config,
            "time_notation"@,
            value,
        ),
        setting_changed(config, "default-mode"@, value) == setting_changed(
            config,
            "default_mode"@,
            value,
        ),
        setting_changed(config, "auto-stop-seconds"@, value) == setting_changed(
            config,
            "auto_stop_seconds"@,
            value,
        ),
        setting_changed(config, "sound-file"@, value) == setting_changed(
            config,
            "sound_file"@,
            value,
        ),
        setting_changed(config, "foreground.refresh-interval-ms"@, value) == setting_changed(
            config,
            "foreground.refresh_interval_ms"@,
            value,
        ),
        setting_changed(config, "foreground.show-current-datetime"@, value) == setting_changed(
            config,
            "foreground.show_current_datetime"@,
            value,
        ),
        setting_changed(config, "foreground.show-target-datetime"@, value) == setting_changed(
            config,
            "foreground.show_target_datetime"@,
            value,
        ),
        setting_changed(config, "foreground.show-remaining"@, value) == setting_changed(
            config,
            "foreground.show_remaining"@,
            value,
        ),
        setting_changed(config, "foreground.show-input"@, value) == setting_changed(
            config,
            "foreground.show_input"@,
            value,
        ),
        setting_changed(config, "foreground.timer-style"@, value) == setting_changed(
            config,
            "foreground.timer_style"@,
            value,
        ),
{
    lemma_short_keys();
    lemma_foreground_keys();
}

/// A change is accepted exactly if the key is known, the value can be read and the settings with it
/// can be used. Of settings that can be used, only a refresh interval of zero makes ones that
/// cannot.
pub proof fn law_accepted_changes(config: ConfigView, key: Seq<char>, value: ArgumentView)
    requires
        config_validity(config) is Ok,
    ensures
        setting_of(key) is None ==> setting_changed(config, key, value) == (
            config,
            Err::<(), Seq<char>>(UNKNOWN_KEY@),
        ),
        setting_changed(config, key, value).1 is Ok <==> {
            &&& setting_of(key) is Some
            &&& with_setting(config, setting_of(key)->0, value) is Ok
            &&& setting_changed(config, key, value).0.foreground.refresh_interval_ms > 0
        },
        setting_of(key) == Some(Setting::Timezone) ==> (setting_changed(config, key, value).1 is Ok
            <==> zone::known_timezone(value.text)),
        setting_of(key) == Some(Setting::Volume) ==> (setting_changed(config, key, value).1 is Ok
            <==> volume_reading(value.number) is Ok),
        setting_of(key) == Some(Setting::SoundFile) ==> setting_changed(config, key, value).1 is Ok,
        setting_of(key) == Some(Setting::DateOrder) ==> (setting_changed(config, key, value).1 is Ok
            <==> types::date_order_reading(value.text) is Ok),
        setting_of(key) == Some(Setting::TimeNotation) ==> (setting_changed(
            config,
            key,
            value,
        ).1 is Ok <==> types::time_notation_reading(value.text) is Ok),
        setting_of(key) == Some(Setting::DefaultMode) ==> (setting_changed(
            config,
            key,
            value,
        ).1 is Ok <==> types::run_mode_reading(value.text) is Ok),
        setting_of(key) == Some(Setting::AutoStopSeconds) ==> (setting_changed(
            config,
            key,
            value,
        ).1 is Ok <==> text::unsigned_reading(value.text, u64::MAX as int) is Some),
{
}

/// An empty answer changes nothing and is taken. Any other answer changes what its key would change,
/// and is taken exactly if the key would take it. A refused one has its question asked again, but
/// for one about the time zone, which ends the questions.
pub proof fn law_answers_are_changes(config: ConfigView, question: Question, answer: ArgumentView)
    requires
        config_validity(config) is Ok,
    ensures
        answer.text.len() == 0 ==> answered(config, question, answer) == (config, ReplyView::Taken),
        answer.text.len() > 0 ==> {
            let key = match question {
                Question::Timezone => "timezone"@,
                Question::DateOrder => "date_order"@,
                Question::TimeNotation => "time_notation"@,
                Question::DefaultMode => "default_mode"@,
                Question::AutoStop => "auto_stop_seconds"@,
                Question::Volume => "volume"@,
            };
            let by_key = setting_changed(config, key, answer);
            &&& answered(config, question, answer).0 == by_key.0
            &&& answered(config, question, answer).1 is Taken <==> by_key.1 is Ok
            &&& by_key.1 is Err ==> (answered(config, question, answer).1 is GivenUp <==> question
                == Question::Timezone)
        },
{
    lemma_short_keys();
}

/// Every question is asked once: the time zone first, then the order of dates, the notation, the
/// mode, the time after which an alarm stops by itself, and the volume last.
pub proof fn law_questions_follow_each_other(question: Question)
    ensures
        question_after(question) == match question {
            Question::Timezone => Some(Question::DateOrder),
            Question::DateOrder => Some(Question::TimeNotation),
            Question::TimeNotation => Some(Question::DefaultMode),
            Question::DefaultMode => Some(Question::AutoStop),
            Question::AutoStop => Some(Question::Volume),
            Question::Volume => None,
        },
{
}

/// Before any change dates have the day in front, unless the locale has another order; times are on
/// a clock of 24 hours; alarms run in the background at a fifth of the full volume, without a sound
/// file and without stopping by themselves; they notify with all there is; and the display shows all
/// there is, four times a second.
pub proof fn law_settings_before_any_change(timezone: Seq<char>)
    ensures
        ({
            let config = default_config(timezone);
            &&& config.timezone == timezone
            &&& config.date_order == DateOrder::Dmy
            &&& config.prefer_locale_date_order
            &&& config.time_notation == TimeNotation::H24
            &&& config.default_mode == RunMode::Background
            &&& config.auto_stop_seconds == 0
            &&& config.volume.bits == 0x3fc9_9999_9999_999a
            &&& config.sound_file is None
            &&& config.notifications.enabled && config.notifications.clickable
            &&& config.notifications.timeout_ms == 0 && config.notifications.show_stop_button
            &&& config.foreground.refresh_interval_ms == 250
            &&& config.foreground.show_current_datetime && config.foreground.show_target_datetime
            &&& config.foreground.show_remaining && config.foreground.show_input
            &&& config.foreground.timer_style == TimerStyle::Digital
        }),
{
}

/// The time zone to begin with is that of the system if it is known, and UTC otherwise.
pub proof fn law_timezone_to_begin_with(name: Seq<char>)
    ensures
        zone::known_timezone(name) ==> detected_timezone(Some(name)) == name,
        !zone::known_timezone(name) ==> detected_timezone(Some(name)) == "UTC"@,
        detected_timezone(None) == "UTC"@,
{
}

/// The settings are in one file below the home directory.
pub proof fn law_settings_place(home: Seq<u8>)
    requires
        home.len() > 0,
        home.last() != 47,
    ensures
        file_below(Some(home), paths::bytes_of("config.toml"@)) == Ok::<Seq<u8>, Seq<char>>(
            home + paths::bytes_of("/.config/tix"@) + paths::bytes_of("/config.toml"@),
        ),
        file_below(None, paths::bytes_of("config.toml"@)) is Err,
{
    reveal_strlit("config.toml");
    reveal_strlit("/config.toml");
    reveal_strlit("/");
    lemma_config_root(home);
    paths::lemma_ascii_bytes("config.toml"@);
    paths::lemma_ascii_bytes("/"@);
    assert("/config.toml"@ =~= "/"@ + "config.toml"@);
    paths::lemma_bytes_of_concatenation("/"@, "config.toml"@);
    let root = root_below(Some(home))->Ok_0;
    paths::law_joined_path(root, paths::bytes_of("config.toml"@));
    assert(paths::bytes_of("/"@) =~= seq![47u8]);
    assert(root + seq![47u8] + paths::bytes_of("config.toml"@) =~= root + (seq![47u8]
        + paths::bytes_of("config.toml"@)));
}

/// A sound file with an absolute path is at that path; one behind `~/` is in the home directory; and
/// any other is in the directory of the settings. Without a home directory only the first can be
/// found, and an empty one never.
pub proof fn law_sound_file_places(sound_file: Seq<char>, name: Seq<char>, home: Seq<u8>)
    requires
        name.len() > 0,
        name[0] != '/',
        name[0] != '~',
        text::trimmed(name) == name,
        text::trimmed("~/"@ + name) == "~/"@ + name,
        text::trimmed("/"@ + name) == "/"@ + name,
        home.len() > 0,
        home[0] == 47,
        home.last() != 47,
    ensures
        text::trimmed(sound_file).len() == 0 ==> sound_file_path(sound_file, Some(home)) is Err,
        text::trimmed(sound_file) == name ==> {
            &&& sound_file_path(sound_file, Some(home)) == Ok::<Seq<u8>, Seq<char>>(
                home + paths::bytes_of("/.config/tix"@) + paths::bytes_of("/"@ + name),
            )
            &&& sound_file_path(sound_file, None) is Err
        },
        text::trimmed(sound_file) == "~/"@ + name ==> {
            &&& sound_file_path(sound_file, Some(home)) == Ok::<Seq<u8>, Seq<char>>(
                home + paths::bytes_of("/"@ + name),
            )
            &&& sound_file_path(sound_file, None) is Err
        },
        text::trimmed(sound_file) == "/"@ + name ==> {
            &&& sound_file_path(sound_file, Some(home)) == Ok::<Seq<u8>, Seq<char>>(
                paths::bytes_of("/"@ + name),
            )
            &&& sound_file_path(sound_file, None) == Ok::<Seq<u8>, Seq<char>>(
                paths::bytes_of("/"@ + name),
            )
        },
{
    reveal_strlit("~/");
    reveal_strlit("/");
    lemma_config_root(home);
    paths::lemma_text_path_is_relative(name);
    paths::lemma_ascii_bytes("/"@);
    paths::lemma_bytes_of_concatenation("/"@, name);
    assert(paths::bytes_of("/"@) =~= seq![47u8]);
    assert(paths::bytes_of("/"@ + name)[0] == 47);
    let root = root_below(Some(home))->Ok_0;
    let bytes = paths::bytes_of(name);
    paths::law_joined_path(root, bytes);
    paths::law_joined_path(home, bytes);
    assert(root + seq![47u8] + bytes =~= root + (seq![47u8] + bytes));
    assert(home + seq![47u8] + bytes =~= home + (seq![47u8] + bytes));
    let raw = text::trimmed(sound_file);
    if raw == "~/"@ + name {
        assert("~/"@ =~= raw.subrange(0, 2));
        assert(raw.skip(2) =~= name);
    } else if raw == name || raw == "/"@ + name {
        assert(!"~/"@.is_prefix_of(raw)) by {
            if "~/"@.is_prefix_of(raw) {
                assert(raw.subrange(0, 2)[0] == raw[0]);
            }
        }
    }
}

/// A question shows what an empty answer leaves.
pub proof fn law_questions_show_what_is_set(config: ConfigView, volume: Seq<char>)
    ensures
        prompt_of(Question::Timezone, config, volume) == "timezone ["@ + config.timezone + "]: "@,
        prompt_of(Question::DateOrder, config, volume) == "date order ["@ + types::date_order_word(
            config.date_order,
        ) + "] (dmy/mdy/ymd): "@,
        prompt_of(Question::TimeNotation, config, volume) == "time notation ["@
            + types::time_notation_word(config.time_notation) + "] (24h/12h): "@,
        prompt_of(Question::DefaultMode, config, volume) == "default mode ["@ + types::run_mode_word(
            config.default_mode,
        ) + "] (background/foreground): "@,
        prompt_of(Question::AutoStop, config, volume) == "auto-stop seconds ["@ + text::decimal(
            config.auto_stop_seconds as int,
        ) + "]: "@,
        prompt_of(Question::Volume, config, volume) == "volume ["@ + volume + "] (0.0-1.0): "@,
{
}

/// The keys that can be set are these and no others.
pub proof fn law_known_keys(key: Seq<char>)
    ensures
        setting_of(key) is Some <==> {
            ||| key == "timezone"@ || key == "volume"@
            ||| key == "date_order"@ || key == "date-order"@
            ||| key == "time_notation"@ || key == "time-notation"@
            ||| key == "default_mode"@ || key == "default-mode"@
            ||| key == "auto_stop_seconds"@ || key == "auto-stop-seconds"@
            ||| key == "sound_file"@ || key == "sound-file"@
            ||| key == "foreground.refresh_interval_ms"@
            ||| key == "foreground.refresh-interval-ms"@
            ||| key == "foreground.show_current_datetime"@
            ||| key == "foreground.show-current-datetime"@
            ||| key == "foreground.show_target_datetime"@
            ||| key == "foreground.show-target-datetime"@
            ||| key == "foreground.show_remaining"@ || key == "foreground.show-remaining"@
            ||| key == "foreground.show_input"@ || key == "foreground.show-input"@
            ||| key == "foreground.timer_style"@ || key == "foreground.timer-style"@
        },
{
}

/// A refused change says what was wrong with the value.
pub proof fn law_refused_values(config: ConfigView, value: ArgumentView)
    ensures
        setting_changed(config, "timezone"@, value).1 matches Err(refusal) ==> zone::known_timezone(
            value.text,
        ) || refusal == "invalid timezone `"@ + value.text + "`"@,
        text::unsigned_reading(value.text, u64::MAX as int) is None ==> setting_changed(
            config,
            "auto_stop_seconds"@,
            value,
        ).1 == Err::<(), Seq<char>>("auto_stop_seconds must be an unsigned integer"@),
        text::unsigned_reading(value.text, u64::MAX as int) is None ==> setting_changed(
            config,
            "foreground.refresh_interval_ms"@,
            value,
        ).1 == Err::<(), Seq<char>>("foreground.refresh_interval_ms must be an unsigned integer"@),
        volume_reading(value.number) matches Err(refusal) ==> setting_changed(
            config,
            "volume"@,
            value,
        ).1 == Err::<(), Seq<char>>(refusal),
        types::date_order_reading(value.text) matches Err(refusal) ==> setting_changed(
            config,
            "date_order"@,
            value,
        ).1 == Err::<(), Seq<char>>(refusal),
{
    lemma_short_keys();
    lemma_foreground_keys();
}

/// The view of a reply shows all of it.
pub proof fn law_reply_view(message: String)
    ensures
        Reply::Taken@ is Taken,
        Reply::Again(message)@ == ReplyView::Again(message@),
        Reply::GivenUp(message)@ == ReplyView::GivenUp(message@),
{
}

} // verus!
