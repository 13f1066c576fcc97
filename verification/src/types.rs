//! The values that the rest of the library works on.
use vstd::prelude::*;

use crate::calendar::{ClockTime, ExplicitTime, LocalDateTime, TimeSpan, UtcTime};
use crate::text;

verus! {

/// The result of an operation that may refuse with a message.
pub type AppResult<T> = Result<T, String>;

/// A result with the message as a sequence of characters.
pub open spec fn outcome<T>(result: AppResult<T>) -> Result<T, Seq<char>> {
    match result {
        Ok(value) => Ok(value),
        Err(message) => Err(message@),
    }
}

/// A result with the value and the message by their views.
pub open spec fn outcome_view<T: View>(result: AppResult<T>) -> Result<T::V, Seq<char>> {
    match result {
        Ok(value) => Ok(value@),
        Err(message) => Err(message@),
    }
}

/// The order of day, month and year in a numeric date.
#[derive(Clone, Copy, Debug, PartialEq, Eq, Structural)]
pub enum DateOrder {
    Dmy,
    Mdy,
    Ymd,
}

/// The word for a `DateOrder`.
pub open spec fn date_order_word(value: DateOrder) -> Seq<char> {
    match value {
        DateOrder::Dmy => "dmy"@,
        DateOrder::Mdy => "mdy"@,
        DateOrder::Ymd => "ymd"@,
    }
}

/// What a text reads as a `DateOrder`, white space around it and letter case aside.
pub open spec fn date_order_reading(text: Seq<char>) -> Result<DateOrder, Seq<char>> {
    let word = text::lowered(text::trimmed(text));
    if word == "dmy"@ {
        Ok(DateOrder::Dmy)
    } else if word == "mdy"@ {
        Ok(DateOrder::Mdy)
    } else if word == "ymd"@ {
        Ok(DateOrder::Ymd)
    } else {
        Err("date_order must be one of: dmy, mdy, ymd"@)
    }
}

impl DateOrder {
    /// The word for the value.
    pub fn to_string(&self) -> (r: String)
        ensures
            r@ == date_order_word(*self),
    {
        match self {
            DateOrder::Dmy => "dmy".to_string(),
            DateOrder::Mdy => "mdy".to_string(),
            DateOrder::Ymd => "ymd".to_string(),
        }
    }

    /// Reads a word.
    pub fn from_str(value: &str) -> (r: AppResult<DateOrder>)
        ensures
            outcome(r) == date_order_reading(value@),
    {
        let word = text::lower(text::trim(value));
        if text::same_text(word.as_str(), "dmy") {
            Ok(DateOrder::Dmy)
        } else if text::same_text(word.as_str(), "mdy") {
            Ok(DateOrder::Mdy)
        } else if text::same_text(word.as_str(), "ymd") {
            Ok(DateOrder::Ymd)
        } else {
            Err("date_order must be one of: dmy, mdy, ymd".to_string())
        }
    }
}

/// Reading the word for a `DateOrder` gives the value back.
pub proof fn law_date_order_reads_back(value: DateOrder)
    ensures
        date_order_reading(date_order_word(value)) == Ok::<DateOrder, Seq<char>>(value),
{
    reveal_strlit("dmy");
    reveal_strlit("mdy");
    reveal_strlit("ymd");
    text::lemma_plain_word("dmy"@);
    text::lemma_plain_word("mdy"@);
    text::lemma_plain_word("ymd"@);
}

/// Where an alarm runs.
#[derive(Clone, Copy, Debug, PartialEq, Eq, Structural)]
pub enum RunMode {
    Background,
    Foreground,
}

/// The word for a `RunMode`.
pub open spec fn run_mode_word(value: RunMode) -> Seq<char> {
    match value {
        RunMode::Background => "background"@,
        RunMode::Foreground => "foreground"@,
    }
}

/// What a text reads as a `RunMode`, white space around it and letter case aside.
pub open spec fn run_mode_reading(text: Seq<char>) -> Result<RunMode, Seq<char>> {
    let word = text::lowered(text::trimmed(text));
    if word == "background"@ || word == "bg"@ || word == "b"@ {
        Ok(RunMode::Background)
    } else if word == "foreground"@ || word == "fg"@ || word == "f"@ {
        Ok(RunMode::Foreground)
    } else {
        Err("run mode must be one of: background, foreground"@)
    }
}

/// The mode that a command asks for, or else the configured one.
pub open spec fn mode_in_effect(mode_override: Option<RunMode>, configured: RunMode) -> RunMode {
    match mode_override {
        Some(mode) => mode,
        None => configured,
    }
}

impl RunMode {
    /// The word for the value.
    pub fn to_string(&self) -> (r: String)
        ensures
            r@ == run_mode_word(*self),
    {
        match self {
            RunMode::Background => "background".to_string(),
            RunMode::Foreground => "foreground".to_string(),
        }
    }

    /// Reads a word.
    pub fn from_str(value: &str) -> (r: AppResult<RunMode>)
        ensures
            outcome(r) == run_mode_reading(value@),
    {
        let word = text::lower(text::trim(value));
        if text::same_text(word.as_str(), "background")
            || text::same_text(word.as_str(), "bg")
            || text::same_text(word.as_str(), "b") {
            Ok(RunMode::Background)
        } else if text::same_text(word.as_str(), "foreground")
            || text::same_text(word.as_str(), "fg")
            || text::same_text(word.as_str(), "f") {
            Ok(RunMode::Foreground)
        } else {
            Err("run mode must be one of: background, foreground".to_string())
        }
    }

    /// The mode that a command asks for, or else the configured one.
    pub fn resolve(mode_override: Option<RunMode>, configured: RunMode) -> (r: RunMode)
        ensures
            r == mode_in_effect(mode_override, configured),
    {
        match mode_override {
            Some(mode) => mode,
            None => configured,
        }
    }
}

impl Default for RunMode {
    fn default() -> (r: RunMode)
        ensures
            r == RunMode::Background,
    {
        RunMode::Background
    }
}

/// Reading the word for a `RunMode` gives the value back.
pub proof fn law_run_mode_reads_back(value: RunMode)
    ensures
        run_mode_reading(run_mode_word(value)) == Ok::<RunMode, Seq<char>>(value),
{
    reveal_strlit("background");
    reveal_strlit("bg");
    reveal_strlit("b");
    reveal_strlit("foreground");
    reveal_strlit("fg");
    reveal_strlit("f");
    text::lemma_plain_word("background"@);
    text::lemma_plain_word("foreground"@);
}

/// How times are written.
#[derive(Clone, Copy, Debug, PartialEq, Eq, Structural)]
pub enum TimeNotation {
    H24,
    H12,
}

/// The word for a `TimeNotation`.
pub open spec fn time_notation_word(value: TimeNotation) -> Seq<char> {
    match value {
        TimeNotation::H24 => "24h"@,
        TimeNotation::H12 => "12h"@,
    }
}

/// What a text reads as a `TimeNotation`, white space around it and letter case aside.
pub open spec fn time_notation_reading(text: Seq<char>) -> Result<TimeNotation, Seq<char>> {
    let word = text::lowered(text::trimmed(text));
    if word == "24h"@ {
        Ok(TimeNotation::H24)
    } else if word == "12h"@ {
        Ok(TimeNotation::H12)
    } else {
        Err("time_notation must be one of: 24h, 12h"@)
    }
}

impl TimeNotation {
    /// The word for the value.
    pub fn to_string(&self) -> (r: String)
        ensures
            r@ == time_notation_word(*self),
    {
        match self {
            TimeNotation::H24 => "24h".to_string(),
            TimeNotation::H12 => "12h".to_string(),
        }
    }

    /// Reads a word.
    pub fn from_str(value: &str) -> (r: AppResult<TimeNotation>)
        ensures
            outcome(r) == time_notation_reading(value@),
    {
        let word = text::lower(text::trim(value));
        if text::same_text(word.as_str(), "24h") {
            Ok(TimeNotation::H24)
        } else if text::same_text(word.as_str(), "12h") {
            Ok(TimeNotation::H12)
        } else {
            Err("time_notation must be one of: 24h, 12h".to_string())
        }
    }
}

/// Reading the word for a `TimeNotation` gives the value back.
pub proof fn law_time_notation_reads_back(value: TimeNotation)
    ensures
        time_notation_reading(time_notation_word(value)) == Ok::<TimeNotation, Seq<char>>(value),
{
    reveal_strlit("24h");
    reveal_strlit("12h");
    text::lemma_plain_word("24h"@);
    text::lemma_plain_word("12h"@);
}

/// How the time left is written.
#[derive(Clone, Copy, Debug, PartialEq, Eq, Structural)]
pub enum TimerStyle {
    Digital,
    Human,
}

/// The word for a `TimerStyle`.
pub open spec fn timer_style_word(value: TimerStyle) -> Seq<char> {
    match value {
        TimerStyle::Digital => "digital"@,
        TimerStyle::Human => "human"@,
    }
}

/// What a text reads as a `TimerStyle`, white space around it and letter case aside.
pub open spec fn timer_style_reading(text: Seq<char>) -> Result<TimerStyle, Seq<char>> {
    let word = text::lowered(text::trimmed(text));
    if word == "digital"@ {
        Ok(TimerStyle::Digital)
    } else if word == "human"@ {
        Ok(TimerStyle::Human)
    } else {
        Err("timer_style must be one of: digital, human"@)
    }
}

impl TimerStyle {
    /// The word for the value.
    pub fn to_string(&self) -> (r: String)
        ensures
            r@ == timer_style_word(*self),
    {
        match self {
            TimerStyle::Digital => "digital".to_string(),
            TimerStyle::Human => "human".to_string(),
        }
    }

    /// Reads a word.
    pub fn from_str(value: &str) -> (r: AppResult<TimerStyle>)
        ensures
            outcome(r) == timer_style_reading(value@),
    {
        let word = text::lower(text::trim(value));
        if text::same_text(word.as_str(), "digital") {
            Ok(TimerStyle::Digital)
        } else if text::same_text(word.as_str(), "human") {
            Ok(TimerStyle::Human)
        } else {
            Err("timer_style must be one of: digital, human".to_string())
        }
    }
}

impl Default for TimerStyle {
    fn default() -> (r: TimerStyle)
        ensures
            r == TimerStyle::Digital,
    {
        TimerStyle::Digital
    }
}

/// Reading the word for a `TimerStyle` gives the value back.
pub proof fn law_timer_style_reads_back(value: TimerStyle)
    ensures
        timer_style_reading(timer_style_word(value)) == Ok::<TimerStyle, Seq<char>>(value),
{
    reveal_strlit("digital");
    reveal_strlit("human");
    text::lemma_plain_word("digital"@);
    text::lemma_plain_word("human"@);
}

/// How the foreground display looks.
#[derive(Clone, Copy, Debug, PartialEq, Eq, Structural)]
pub struct ForegroundConfig {
    pub refresh_interval_ms: u64,
    pub show_current_datetime: bool,
    pub show_target_datetime: bool,
    pub show_remaining: bool,
    pub show_input: bool,
    pub timer_style: TimerStyle,
}

/// The foreground display before any setting.
pub open spec fn default_foreground() -> ForegroundConfig {
    ForegroundConfig {
        refresh_interval_ms: 250,
        show_current_datetime: true,
        show_target_datetime: true,
        show_remaining: true,
        show_input: true,
        timer_style: TimerStyle::Digital,
    }
}

impl Default for ForegroundConfig {
    fn default() -> (r: ForegroundConfig)
        ensures
            r == default_foreground(),
    {
        ForegroundConfig {
            refresh_interval_ms: 250,
            show_current_datetime: true,
            show_target_datetime: true,
            show_remaining: true,
            show_input: true,
            timer_style: TimerStyle::Digital,
        }
    }
}

/// How a background alarm notifies, as configured.
#[derive(Clone, Copy, Debug, PartialEq, Eq, Structural)]
pub struct NotificationConfig {
    pub enabled: bool,
    pub clickable: bool,
    pub timeout_ms: u32,
    pub show_stop_button: bool,
}

/// The notifications before any setting.
pub open spec fn default_notifications() -> NotificationConfig {
    NotificationConfig { enabled: true, clickable: true, timeout_ms: 0, show_stop_button: true }
}

impl Default for NotificationConfig {
    fn default() -> (r: NotificationConfig)
        ensures
            r == default_notifications(),
    {
        NotificationConfig { enabled: true, clickable: true, timeout_ms: 0, show_stop_button: true }
    }
}

/// How one alarm notifies.
#[derive(Clone, Copy, Debug, PartialEq, Eq, Structural)]
pub struct AlarmNotificationConfig {
    pub enabled: bool,
    pub clickable: bool,
    pub timeout_ms: u32,
    pub show_stop_button: bool,
}

/// The notifications of an alarm that follow the configuration.
pub open spec fn alarm_notifications(config: NotificationConfig) -> AlarmNotificationConfig {
    AlarmNotificationConfig {
        enabled: config.enabled,
        clickable: config.clickable,
        timeout_ms: config.timeout_ms,
        show_stop_button: config.show_stop_button,
    }
}

impl From<NotificationConfig> for AlarmNotificationConfig {
    fn from(value: NotificationConfig) -> (r: AlarmNotificationConfig) {
        AlarmNotificationConfig {
            enabled: value.enabled,
            clickable: value.clickable,
            timeout_ms: value.timeout_ms,
            show_stop_button: value.show_stop_button,
        }
    }
}

impl vstd::std_specs::convert::FromSpecImpl<NotificationConfig> for AlarmNotificationConfig {
    open spec fn obeys_from_spec() -> bool {
        true
    }

    open spec fn from_spec(value: NotificationConfig) -> AlarmNotificationConfig {
        alarm_notifications(value)
    }
}

/// How numeric dates are read.
#[derive(Clone, Copy, Debug, PartialEq, Eq, Structural)]
pub struct DateParseConfig {
    pub fallback_order: DateOrder,
    pub prefer_locale_order: bool,
    pub locale_order: Option<DateOrder>,
}

/// A loudness, as the bit pattern of an IEEE 754 double.
#[derive(Clone, Copy, Debug, PartialEq, Eq, Structural)]
pub struct Volume {
    pub bits: u64,
}

impl Volume {
    /// Whether the double lies from 0.0 to 1.0: the doubles without a sign are ordered as their
    /// bit patterns are, 1.0 is `0x3ff0_0000_0000_0000`, and -0.0 equals 0.0.
    pub open spec fn in_range(self) -> bool {
        self.bits <= 0x3ff0_0000_0000_0000 || self.bits == 0x8000_0000_0000_0000
    }
}

/// A word of a command line or of a setting, together with the bit pattern of the IEEE 754 double
/// that it reads as, if it reads as one.
#[derive(Clone, Debug)]
pub struct Argument {
    pub text: String,
    pub number: Option<u64>,
}

/// The view of an `Argument`.
#[verifier::ext_equal]
pub struct ArgumentView {
    pub text: Seq<char>,
    pub number: Option<u64>,
}

impl View for Argument {
    type V = ArgumentView;

    open spec fn view(&self) -> ArgumentView {
        ArgumentView { text: self.text@, number: self.number }
    }
}

/// The settings.
#[derive(Clone, Debug)]
pub struct Config {
    pub timezone: String,
    pub date_order: DateOrder,
    pub prefer_locale_date_order: bool,
    pub time_notation: TimeNotation,
    pub default_mode: RunMode,
    pub auto_stop_seconds: u64,
    pub volume: Volume,
    pub sound_file: Option<String>,
    pub notifications: NotificationConfig,
    pub foreground: ForegroundConfig,
}

/// The view of a `Config`.
pub struct ConfigView {
    pub timezone: Seq<char>,
    pub date_order: DateOrder,
    pub prefer_locale_date_order: bool,
    pub time_notation: TimeNotation,
    pub default_mode: RunMode,
    pub auto_stop_seconds: u64,
    pub volume: Volume,
    pub sound_file: Option<Seq<char>>,
    pub notifications: NotificationConfig,
    pub foreground: ForegroundConfig,
}

impl View for Config {
    type V = ConfigView;

    open spec fn view(&self) -> ConfigView {
        ConfigView {
            timezone: self.timezone@,
            date_order: self.date_order,
            prefer_locale_date_order: self.prefer_locale_date_order,
            time_notation: self.time_notation,
            default_mode: self.default_mode,
            auto_stop_seconds: self.auto_stop_seconds,
            volume: self.volume,
            sound_file: text::optional_text(self.sound_file),
            notifications: self.notifications,
            foreground: self.foreground,
        }
    }
}

/// What the user asks for.
#[derive(Debug)]
pub enum Command {
    Alarm {
        spec_text: String,
        dry_run: bool,
        timezone_override: Option<String>,
        mode_override: Option<RunMode>,
    },
    Worker {
        alarm_id: String,
        target_utc: UtcTime,
        auto_stop_seconds: u64,
        volume: Volume,
        sound_file: Option<String>,
        notifications: AlarmNotificationConfig,
    },
    Status,
    Stop { selector: Option<String>, all: bool },
    VolumeShow,
    VolumeSet { volume: Volume },
    VolumeTest { volume_override: Option<Volume> },
    ConfigInit,
    ConfigShow,
    ConfigPath,
    ConfigSet { key: String, value: Argument },
    Help,
}

/// The view of a `Command`.
#[verifier::ext_equal]
pub enum CommandView {
    Alarm {
        spec_text: Seq<char>,
        dry_run: bool,
        timezone_override: Option<Seq<char>>,
        mode_override: Option<RunMode>,
    },
    Worker {
        alarm_id: Seq<char>,
        target_utc: UtcTime,
        auto_stop_seconds: u64,
        volume: Volume,
        sound_file: Option<Seq<char>>,
        notifications: AlarmNotificationConfig,
    },
    Status,
    Stop { selector: Option<Seq<char>>, all: bool },
    VolumeShow,
    VolumeSet { volume: Volume },
    VolumeTest { volume_override: Option<Volume> },
    ConfigInit,
    ConfigShow,
    ConfigPath,
    ConfigSet { key: Seq<char>, value: ArgumentView },
    Help,
}

impl CommandView {
    /// Whether the volumes it holds are in range and its instant can be represented.
    pub open spec fn wf(self) -> bool {
        match self {
            CommandView::Worker { target_utc, volume, .. } => {
                target_utc.wf() && volume.in_range()
            },
            CommandView::VolumeSet { volume } => volume.in_range(),
            CommandView::VolumeTest { volume_override } => {
                volume_override matches Some(volume) ==> volume.in_range()
            },
            _ => true,
        }
    }
}

impl View for Command {
    type V = CommandView;

    open spec fn view(&self) -> CommandView {
        match *self {
            Command::Alarm { spec_text, dry_run, timezone_override, mode_override } => {
                CommandView::Alarm {
                    spec_text: spec_text@,
                    dry_run,
                    timezone_override: text::optional_text(timezone_override),
                    mode_override,
                }
            },
            Command::Worker {
                alarm_id,
                target_utc,
                auto_stop_seconds,
                volume,
                sound_file,
                notifications,
            } => {
                CommandView::Worker {
                    alarm_id: alarm_id@,
                    target_utc,
                    auto_stop_seconds,
                    volume,
                    sound_file: text::optional_text(sound_file),
                    notifications,
                }
            },
            Command::Status => CommandView::Status,
            Command::Stop { selector, all } => {
                CommandView::Stop { selector: text::optional_text(selector), all }
            },
            Command::VolumeShow => CommandView::VolumeShow,
            Command::VolumeSet { volume } => CommandView::VolumeSet { volume },
            Command::VolumeTest { volume_override } => CommandView::VolumeTest { volume_override },
            Command::ConfigInit => CommandView::ConfigInit,
            Command::ConfigShow => CommandView::ConfigShow,
            Command::ConfigPath => CommandView::ConfigPath,
            Command::ConfigSet { key, value } => {
                CommandView::ConfigSet { key: key@, value: value@ }
            },
            Command::Help => CommandView::Help,
        }
    }
}

/// When an alarm is due, as the user says it.
#[derive(Clone, Copy, Debug, PartialEq, Eq, Structural)]
pub enum AlarmSpec {
    /// After a span of time.
    Duration(TimeSpan),
    /// At an instant given with its offset from UTC.
    Explicit(ExplicitTime),
    /// At a local date and time.
    Absolute(LocalDateTime),
    /// At the next local time of day.
    TimeOfDay(ClockTime),
}

impl AlarmSpec {
    /// Whether what it holds is valid.
    pub open spec fn wf(self) -> bool {
        match self {
            AlarmSpec::Duration(span) => span.wf(),
            AlarmSpec::Explicit(time) => time.wf(),
            AlarmSpec::Absolute(local) => local.wf(),
            AlarmSpec::TimeOfDay(time) => time.wf(),
        }
    }
}

/// What an alarm sounds like. The volume is the bit pattern of an IEEE 754 single.
#[derive(Clone, Debug)]
pub struct AlarmAudioConfig {
    pub volume: u32,
    pub sound_file: Option<String>,
}

/// A background alarm that is under way, as it is stored. The volume is the bit pattern of an IEEE
/// 754 single.
#[derive(Clone, Debug)]
pub struct ActiveAlarmState {
    pub id: String,
    pub pid: u32,
    pub spec_text: String,
    pub target_utc: String,
    pub created_at_utc: String,
    pub auto_stop_seconds: u64,
    pub volume: u32,
    pub sound_file: Option<String>,
}

/// The view of an `ActiveAlarmState`.
#[verifier::ext_equal]
pub struct AlarmStateView {
    pub id: Seq<char>,
    pub pid: u32,
    pub spec_text: Seq<char>,
    pub target_utc: Seq<char>,
    pub created_at_utc: Seq<char>,
    pub auto_stop_seconds: u64,
    pub volume: u32,
    pub sound_file: Option<Seq<char>>,
}

impl View for ActiveAlarmState {
    type V = AlarmStateView;

    open spec fn view(&self) -> AlarmStateView {
        AlarmStateView {
            id: self.id@,
            pid: self.pid,
            spec_text: self.spec_text@,
            target_utc: self.target_utc@,
            created_at_utc: self.created_at_utc@,
            auto_stop_seconds: self.auto_stop_seconds,
            volume: self.volume,
            sound_file: text::optional_text(self.sound_file),
        }
    }
}

/// An order of dates is read from its word and from nothing else, white space around it and letter
/// case aside.
pub proof fn law_date_orders_are_read(text: Seq<char>)
    ensures
        ({
            let (word, answer) = (text::lowered(text::trimmed(text)), date_order_reading(text));
            &&& answer == Ok::<DateOrder, Seq<char>>(DateOrder::Dmy) <==> word == "dmy"@
            &&& answer == Ok::<DateOrder, Seq<char>>(DateOrder::Mdy) <==> word == "mdy"@
            &&& answer == Ok::<DateOrder, Seq<char>>(DateOrder::Ymd) <==> word == "ymd"@
            &&& answer matches Err(refusal) ==> refusal
                == "date_order must be one of: dmy, mdy, ymd"@
        }),
{
    reveal_strlit("dmy");
    reveal_strlit("mdy");
    reveal_strlit("ymd");
    assert("dmy"@[0] == 'd' && "mdy"@[0] == 'm' && "ymd"@[0] == 'y');
}

/// A mode is read from its word or from one of its short forms and from nothing else, white space
/// around it and letter case aside.
pub proof fn law_run_modes_are_read(text: Seq<char>)
    ensures
        ({
            let (word, answer) = (text::lowered(text::trimmed(text)), run_mode_reading(text));
            &&& answer == Ok::<RunMode, Seq<char>>(RunMode::Background) <==> word == "background"@
                || word == "bg"@ || word == "b"@
            &&& answer == Ok::<RunMode, Seq<char>>(RunMode::Foreground) <==> word == "foreground"@
                || word == "fg"@ || word == "f"@
            &&& answer matches Err(refusal) ==> refusal
                == "run mode must be one of: background, foreground"@
        }),
{
    reveal_strlit("background");
    reveal_strlit("bg");
    reveal_strlit("b");
    reveal_strlit("foreground");
    reveal_strlit("fg");
    reveal_strlit("f");
    assert("background"@[0] == 'b' && "bg"@[0] == 'b' && "b"@[0] == 'b');
    assert("foreground"@[0] == 'f' && "fg"@[0] == 'f' && "f"@[0] == 'f');
}

/// A notation of times is read from its word and from nothing else, white space around it and
/// letter case aside.
pub proof fn law_time_notations_are_read(text: Seq<char>)
    ensures
        ({
            let (word, answer) = (text::lowered(text::trimmed(text)), time_notation_reading(text));
            &&& answer == Ok::<TimeNotation, Seq<char>>(TimeNotation::H24) <==> word == "24h"@
            &&& answer == Ok::<TimeNotation, Seq<char>>(TimeNotation::H12) <==> word == "12h"@
            &&& answer matches Err(refusal) ==> refusal == "time_notation must be one of: 24h, 12h"@
        }),
{
    reveal_strlit("24h");
    reveal_strlit("12h");
    assert("24h"@[0] == '2' && "12h"@[0] == '1');
}

/// A style is read from its word and from nothing else, white space around it and letter case
/// aside.
pub proof fn law_timer_styles_are_read(text: Seq<char>)
    ensures
        ({
            let (word, answer) = (text::lowered(text::trimmed(text)), timer_style_reading(text));
            &&& answer == Ok::<TimerStyle, Seq<char>>(TimerStyle::Digital) <==> word == "digital"@
            &&& answer == Ok::<TimerStyle, Seq<char>>(TimerStyle::Human) <==> word == "human"@
            &&& answer matches Err(refusal) ==> refusal
                == "timer_style must be one of: digital, human"@
        }),
{
    reveal_strlit("digital");
    reveal_strlit("human");
    assert("digital"@[0] == 'd' && "human"@[0] == 'h');
}

/// The mode on the command line goes before the one that is set, which counts without one.
pub proof fn law_mode_in_effect(mode: RunMode, configured: RunMode)
    ensures
        mode_in_effect(Some(mode), configured) == mode,
        mode_in_effect(None, configured) == configured,
{
}

/// An alarm notifies as it is set, in every respect.
pub proof fn law_alarm_notifications(config: NotificationConfig)
    ensures
        alarm_notifications(config).enabled == config.enabled,
        alarm_notifications(config).clickable == config.clickable,
        alarm_notifications(config).timeout_ms == config.timeout_ms,
        alarm_notifications(config).show_stop_button == config.show_stop_button,
{
}

/// A volume is in range if its bits are those of a number from 0.0 to 1.0 or of -0.0.
pub proof fn law_volume_range(volume: Volume)
    ensures
        volume.in_range() <==> volume.bits <= 0x3ff0_0000_0000_0000 || volume.bits
            == 0x8000_0000_0000_0000,
{
}

/// The view of a record shows all of it.
pub proof fn law_record_view(state: ActiveAlarmState)
    ensures
        state@.id == state.id@,
        state@.pid == state.pid,
        state@.spec_text == state.spec_text@,
        state@.target_utc == state.target_utc@,
        state@.created_at_utc == state.created_at_utc@,
        state@.auto_stop_seconds == state.auto_stop_seconds,
        state@.volume == state.volume,
        match state.sound_file {
            Some(path) => state@.sound_file == Some(path@),
            None => state@.sound_file is None,
        },
{
}

/// The view of the settings shows all of them.
pub proof fn law_config_view(config: Config)
    ensures
        config@.timezone == config.timezone@,
        config@.date_order == config.date_order,
        config@.prefer_locale_date_order == config.prefer_locale_date_order,
        config@.time_notation == config.time_notation,
        config@.default_mode == config.default_mode,
        config@.auto_stop_seconds == config.auto_stop_seconds,
        config@.volume == config.volume,
        match config.sound_file {
            Some(path) => config@.sound_file == Some(path@),
            None => config@.sound_file is None,
        },
        config@.notifications == config.notifications,
        config@.foreground == config.foreground,
{
}

/// The view of a command shows what is asked for and all that is said of it.
pub proof fn law_command_view(command: Command)
    ensures
        match command {
            Command::Alarm { spec_text, dry_run, timezone_override, mode_override } => command@
                == (CommandView::Alarm {
                spec_text: spec_text@,
                dry_run,
                timezone_override: match timezone_override {
                    Some(name) => Some(name@),
                    None => None,
                },
                mode_override,
            }),
            Command::Worker {
                alarm_id,
                target_utc,
                auto_stop_seconds,
                volume,
                sound_file,
                notifications,
            } => command@ == (CommandView::Worker {
                alarm_id: alarm_id@,
                target_utc,
                auto_stop_seconds,
                volume,
                sound_file: match sound_file {
                    Some(path) => Some(path@),
                    None => None,
                },
                notifications,
            }),
            Command::Status => command@ is Status,
            Command::Stop { selector, all } => command@ == (CommandView::Stop {
                selector: match selector {
                    Some(id) => Some(id@),
                    None => None,
                },
                all,
            }),
            Command::VolumeShow => command@ is VolumeShow,
            Command::VolumeSet { volume } => command@ == (CommandView::VolumeSet { volume }),
            Command::VolumeTest { volume_override } => command@ == (CommandView::VolumeTest {
                volume_override,
            }),
            Command::ConfigInit => command@ is ConfigInit,
            Command::ConfigShow => command@ is ConfigShow,
            Command::ConfigPath => command@ is ConfigPath,
            Command::ConfigSet { key, value } => command@ == (CommandView::ConfigSet {
                key: key@,
                value: ArgumentView { text: value.text@, number: value.number },
            }),
            Command::Help => command@ is Help,
        },
{
}

/// The outcome of an operation is its value or its message.
pub proof fn law_outcomes<T>(value: T, message: String)
    ensures
        outcome(Ok::<T, String>(value)) == Ok::<T, Seq<char>>(value),
        outcome(Err::<T, String>(message)) == Err::<T, Seq<char>>(message@),
{
}

/// The outcome of an operation by its view is the view of its value or its message.
pub proof fn law_outcome_views<T: View>(value: T, message: String)
    ensures
        outcome_view(Ok::<T, String>(value)) == Ok::<T::V, Seq<char>>(value@),
        outcome_view(Err::<T, String>(message)) == Err::<T::V, Seq<char>>(message@),
{
}

} // verus!
