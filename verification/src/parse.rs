//! The command line, and how an alarm is described in words.
use vstd::prelude::*;
use vstd::string::*;

use crate::calendar::{self, ClockTime, ExplicitTime, LocalDateTime, TimeSpan, UtcTime};
use crate::config::{self, parse_bool, parse_notification_timeout_ms, parse_volume};
use crate::dates;
use crate::text;
use crate::types::{
    self, AlarmNotificationConfig, AlarmSpec, AppResult, Argument, ArgumentView, Command,
    CommandView, DateParseConfig, RunMode, Volume,
};
use crate::wording::{self, DURATION_DIGITS};

verus! {

/// How the program is used.
pub const HELP: &'static str = "\
tix - clock alarm timer

Usage:
  tix [--dry-run] [-f|--foreground] [-b|--background] [--timezone <IANA-TZ>] <when>
  tix status
  tix stop [<id>|--all]
  tix volume
  tix volume <0.0..=1.0>
  tix volume set <0.0..=1.0>
  tix volume test [<0.0..=1.0>]
  tix config init
  tix config show
  tix config path
  tix config set <key> <value>

Examples:
  tix 10m
  tix -f 10m
  tix -b 10m
  tix 13:30
  tix 01:30pm
  tix 12/31/2026 8:15pm
  tix 12.03.2026 13:30
  tix status
  tix stop 17fd2a
  tix stop --all
  tix volume
  tix volume 0.35
  tix volume test

Notes:
  - CLI mode flags override the configured default mode.
  - slash dates accept unambiguous inputs in any common order.
  - ambiguous slash dates follow the locale-aware config policy.
  - time-only alarms schedule today if still in the future, otherwise tomorrow.
  - multiple background alarms can be active at the same time.
";

/// The views of a list of arguments.
pub open spec fn arguments(list: Seq<Argument>) -> Seq<ArgumentView> {
    list.map_values(|item: Argument| item@)
}

/// What a word of an alarm command is.
#[derive(Clone, Copy, Debug, PartialEq, Eq, Structural)]
pub enum AlarmWord {
    DryRun,
    Mode(RunMode),
    Timezone,
    Part,
}

/// What a word of an alarm command says.
pub open spec fn alarm_word(word: Seq<char>) -> AlarmWord {
    if word == "--dry-run"@ {
        AlarmWord::DryRun
    } else if word == "--foreground"@ || word == "-f"@ {
        AlarmWord::Mode(RunMode::Foreground)
    } else if word == "--background"@ || word == "-b"@ {
        AlarmWord::Mode(RunMode::Background)
    } else if word == "--timezone"@ {
        AlarmWord::Timezone
    } else {
        AlarmWord::Part
    }
}

fn classify_alarm_word(word: &str) -> (r: AlarmWord)
    ensures
        r == alarm_word(word@),
{
    if text::same_text(word, "--dry-run") {
        AlarmWord::DryRun
    } else if text::same_text(word, "--foreground") || text::same_text(word, "-f") {
        AlarmWord::Mode(RunMode::Foreground)
    } else if text::same_text(word, "--background") || text::same_text(word, "-b") {
        AlarmWord::Mode(RunMode::Background)
    } else if text::same_text(word, "--timezone") {
        AlarmWord::Timezone
    } else {
        AlarmWord::Part
    }
}

/// What the words of an alarm command have said so far.
pub struct AlarmWords {
    pub dry_run: bool,
    pub mode_override: Option<RunMode>,
    pub timezone_override: Option<Seq<char>>,
    pub parts: Seq<Seq<char>>,
}

/// The mode flags so far with one more: two different ones are refused.
pub open spec fn mode_with(current: Option<RunMode>, mode: RunMode) -> Result<
    Option<RunMode>,
    Seq<char>,
> {
    if current is Some && current != Some(mode) {
        Err("cannot pass both foreground and background mode flags"@)
    } else {
        Ok(Some(mode))
    }
}

/// What the words say, read from the first to the last after those that said `so_far`.
pub open spec fn alarm_words(words: Seq<ArgumentView>, so_far: AlarmWords) -> Result<
    AlarmWords,
    Seq<char>,
>
    decreases words.len(),
{
    if words.len() == 0 {
        Ok(so_far)
    } else {
        match alarm_word(words[0].text) {
            AlarmWord::DryRun => alarm_words(words.skip(1), AlarmWords { dry_run: true, ..so_far }),
            AlarmWord::Mode(mode) => match mode_with(so_far.mode_override, mode) {
                Ok(mode_override) => alarm_words(
                    words.skip(1),
                    AlarmWords { mode_override, ..so_far },
                ),
                Err(refusal) => Err(refusal),
            },
            AlarmWord::Timezone => if words.len() == 1 {
                Err("--timezone requires a value"@)
            } else {
                alarm_words(
                    words.skip(2),
                    AlarmWords { timezone_override: Some(words[1].text), ..so_far },
                )
            },
            AlarmWord::Part => alarm_words(
                words.skip(1),
                AlarmWords { parts: so_far.parts.push(words[0].text), ..so_far },
            ),
        }
    }
}

/// What is known before the first word.
pub open spec fn no_alarm_words() -> AlarmWords {
    AlarmWords {
        dry_run: false,
        mode_override: None,
        timezone_override: None,
        parts: Seq::empty(),
    }
}

/// The alarm command that the words spell.
pub open spec fn alarm_command(words: Seq<ArgumentView>) -> Result<CommandView, Seq<char>> {
    match alarm_words(words, no_alarm_words()) {
        Ok(said) => if said.parts.len() == 0 {
            Err("missing alarm input\n\n"@ + HELP@)
        } else {
            Ok(
                CommandView::Alarm {
                    spec_text: text::joined(said.parts, " "@),
                    dry_run: said.dry_run,
                    timezone_override: said.timezone_override,
                    mode_override: said.mode_override,
                },
            )
        },
        Err(refusal) => Err(refusal),
    }
}

/// Adds a mode flag to those so far.
fn set_mode_override(current: Option<RunMode>, mode: RunMode) -> (r: AppResult<Option<RunMode>>)
    ensures
        types::outcome(r) == mode_with(current, mode),
{
    match current {
        Some(existing) => if existing != mode {
            Err("cannot pass both foreground and background mode flags".to_string())
        } else {
            Ok(Some(mode))
        },
        None => Ok(Some(mode)),
    }
}

/// Reads an alarm command.
fn parse_alarm_command(args: &[Argument]) -> (r: AppResult<Command>)
    ensures
        types::outcome_view(r) == alarm_command(arguments(args@)),
{
    let ghost words = arguments(args@);
    let mut dry_run = false;
    let mut mode_override: Option<RunMode> = None;
    let mut timezone_override: Option<String> = None;
    let mut parts: Vec<String> = Vec::new();
    let mut i: usize = 0;
    proof {
        assert(words.skip(0) =~= words);
        assert(text::texts(parts@) =~= Seq::<Seq<char>>::empty());
    }
    while i < args.len()
        invariant
            words == arguments(args@),
            i <= args@.len(),
            alarm_words(words, no_alarm_words()) == alarm_words(
                words.skip(i as int),
                AlarmWords {
                    dry_run,
                    mode_override,
                    timezone_override: text::optional_text(timezone_override),
                    parts: text::texts(parts@),
                },
            ),
        decreases args@.len() - i,
    {
        proof {
            let rest = words.skip(i as int);
            assert(rest[0] == args@[i as int]@);
            assert(rest.skip(1) =~= words.skip(i + 1));
            if i + 1 < args@.len() {
                assert(rest[1] == args@[i + 1]@);
                assert(rest.skip(2) =~= words.skip(i + 2));
            }
        }
        match classify_alarm_word(args[i].text.as_str()) {
            AlarmWord::DryRun => {
                dry_run = true;
                i = i + 1;
            },
            AlarmWord::Mode(mode) => {
                match set_mode_override(mode_override, mode) {
                    Ok(chosen) => {
                        mode_override = chosen;
                    },
                    Err(refusal) => {
                        return Err(refusal);
                    },
                }
                i = i + 1;
            },
            AlarmWord::Timezone => {
                if args.len() - i == 1 {
                    return Err("--timezone requires a value".to_string());
                }
                timezone_override = Some(args[i + 1].text.clone());
                i = i + 2;
            },
            AlarmWord::Part => {
                let ghost before = text::texts(parts@);
                parts.push(args[i].text.clone());
                assert(text::texts(parts@) =~= before.push(args@[i as int]@.text));
                i = i + 1;
            },
        }
    }
    assert(words.skip(i as int).len() == 0);
    if parts.len() == 0 {
        return Err(text::concat2("missing alarm input\n\n", HELP));
    }
    let spec_text = text::join(parts.as_slice(), " ");
    Ok(Command::Alarm { spec_text, dry_run, timezone_override, mode_override })
}

/// What follows `config` on the command line.
pub open spec fn config_command(args: Seq<ArgumentView>) -> Result<CommandView, Seq<char>> {
    if args.len() > 0 && args[0].text == "init"@ {
        Ok(CommandView::ConfigInit)
    } else if args.len() > 0 && args[0].text == "show"@ {
        Ok(CommandView::ConfigShow)
    } else if args.len() > 0 && args[0].text == "path"@ {
        Ok(CommandView::ConfigPath)
    } else if args.len() > 0 && args[0].text == "set"@ {
        if args.len() == 1 {
            Err("config set requires a key"@)
        } else if args.len() == 2 {
            Err("config set requires a value"@)
        } else if args.len() > 3 {
            Err("config set accepts exactly one key and one value"@)
        } else {
            Ok(CommandView::ConfigSet { key: args[1].text, value: args[2] })
        }
    } else {
        Err("supported config commands: init, show, path, set"@)
    }
}

/// A copy of an argument.
fn copy_argument(argument: &Argument) -> (r: Argument)
    ensures
        r@ == argument@,
{
    Argument { text: argument.text.clone(), number: argument.number }
}

/// Reads what follows the first word of a `config` command.
fn parse_config_command(args: &[Argument]) -> (r: AppResult<Command>)
    requires
        args@.len() > 0,
    ensures
        types::outcome_view(r) == config_command(arguments(args@).skip(1)),
{
    assert(args@.len() > 1 ==> arguments(args@).skip(1)[0] == args@[1]@);
    assert(args@.len() > 2 ==> arguments(args@).skip(1)[1] == args@[2]@);
    assert(args@.len() > 3 ==> arguments(args@).skip(1)[2] == args@[3]@);
    if args.len() == 1 {
        return Err("supported config commands: init, show, path, set".to_string());
    }
    let word = args[1].text.as_str();
    if text::same_text(word, "init") {
        Ok(Command::ConfigInit)
    } else if text::same_text(word, "show") {
        Ok(Command::ConfigShow)
    } else if text::same_text(word, "path") {
        Ok(Command::ConfigPath)
    } else if text::same_text(word, "set") {
        if args.len() == 2 {
            Err("config set requires a key".to_string())
        } else if args.len() == 3 {
            Err("config set requires a value".to_string())
        } else if args.len() > 4 {
            Err("config set accepts exactly one key and one value".to_string())
        } else {
            Ok(Command::ConfigSet { key: args[2].text.clone(), value: copy_argument(&args[3]) })
        }
    } else {
        Err("supported config commands: init, show, path, set".to_string())
    }
}

/// What follows `stop` on the command line.
pub open spec fn stop_command(args: Seq<ArgumentView>) -> Result<CommandView, Seq<char>> {
    if args.len() == 0 {
        Ok(CommandView::Stop { selector: None, all: false })
    } else if args[0].text == "--all"@ || args[0].text == "all"@ {
        if args.len() > 1 {
            Err("stop --all does not accept additional arguments"@)
        } else {
            Ok(CommandView::Stop { selector: None, all: true })
        }
    } else if args.len() > 1 {
        Err("stop accepts at most one alarm id selector"@)
    } else {
        Ok(CommandView::Stop { selector: Some(args[0].text), all: false })
    }
}

/// Reads what follows the first word of a `stop` command.
fn parse_stop_command(args: &[Argument]) -> (r: AppResult<Command>)
    requires
        args@.len() > 0,
    ensures
        types::outcome_view(r) == stop_command(arguments(args@).skip(1)),
{
    assert(args@.len() > 1 ==> arguments(args@).skip(1)[0] == args@[1]@);
    if args.len() == 1 {
        return Ok(Command::Stop { selector: None, all: false });
    }
    let word = args[1].text.as_str();
    if text::same_text(word, "--all") || text::same_text(word, "all") {
        if args.len() > 2 {
            return Err("stop --all does not accept additional arguments".to_string());
        }
        Ok(Command::Stop { selector: None, all: true })
    } else {
        if args.len() > 2 {
            return Err("stop accepts at most one alarm id selector".to_string());
        }
        Ok(Command::Stop { selector: Some(args[1].text.clone()), all: false })
    }
}

/// The command that sets the volume to what an argument reads as.
pub open spec fn volume_set_to(value: ArgumentView) -> Result<CommandView, Seq<char>> {
    match config::volume_reading(value.number) {
        Ok(volume) => Ok(CommandView::VolumeSet { volume }),
        Err(refusal) => Err(refusal),
    }
}

/// What follows `volume` on the command line.
pub open spec fn volume_command(args: Seq<ArgumentView>) -> Result<CommandView, Seq<char>> {
    if args.len() == 0 || args[0].text == "show"@ {
        Ok(CommandView::VolumeShow)
    } else if args[0].text == "set"@ {
        if args.len() == 1 {
            Err("volume set requires a numeric value"@)
        } else if args.len() > 2 {
            Err("volume set accepts exactly one numeric value"@)
        } else {
            volume_set_to(args[1])
        }
    } else if args[0].text == "test"@ {
        if args.len() == 1 {
            Ok(CommandView::VolumeTest { volume_override: None })
        } else {
            match config::volume_reading(args[1].number) {
                Ok(volume) => if args.len() > 2 {
                    Err("volume test accepts at most one numeric override"@)
                } else {
                    Ok(CommandView::VolumeTest { volume_override: Some(volume) })
                },
                Err(refusal) => Err(refusal),
            }
        }
    } else if args.len() > 1 {
        Err("volume command accepts at most one positional value"@)
    } else {
        volume_set_to(args[0])
    }
}

/// A value stands for the same volume alone, behind `set` and behind `test`, and none of the three
/// takes a further argument. Without arguments the volume is shown.
pub proof fn law_volume_commands_agree(
    value: ArgumentView,
    set: ArgumentView,
    test: ArgumentView,
    rest: Seq<ArgumentView>,
)
    requires
        value.text != "show"@ && value.text != "set"@ && value.text != "test"@,
        set.text == "set"@,
        test.text == "test"@,
    ensures
        volume_command(Seq::empty()) == Ok::<CommandView, Seq<char>>(CommandView::VolumeShow),
        match config::volume_reading(value.number) {
            Ok(volume) => {
                &&& volume.in_range()
                &&& volume_command(seq![value]) == Ok::<CommandView, Seq<char>>(
                    CommandView::VolumeSet { volume },
                )
                &&& volume_command(seq![set, value]) == Ok::<CommandView, Seq<char>>(
                    CommandView::VolumeSet { volume },
                )
                &&& volume_command(seq![test, value]) == Ok::<CommandView, Seq<char>>(
                    CommandView::VolumeTest { volume_override: Some(volume) },
                )
            },
            Err(refusal) => {
                &&& volume_command(seq![value]) == Err::<CommandView, Seq<char>>(refusal)
                &&& volume_command(seq![set, value]) == Err::<CommandView, Seq<char>>(refusal)
                &&& volume_command(seq![test, value]) == Err::<CommandView, Seq<char>>(refusal)
            },
        },
        rest.len() > 0 ==> {
            &&& volume_command(seq![value] + rest) is Err
            &&& volume_command(seq![set, value] + rest) is Err
            &&& volume_command(seq![test, value] + rest) is Err
        },
{
    reveal_strlit("show");
    reveal_strlit("set");
    reveal_strlit("test");
    assert("show"@.len() == 4 && "set"@.len() == 3 && "test"@.len() == 4);
    assert("show"@[0] == 's' && "test"@[0] == 't');
    assert((seq![value] + rest)[0] == value);
    assert((seq![set, value] + rest)[0] == set);
    assert((seq![test, value] + rest)[0] == test);
}

fn set_volume_to(value: &Argument) -> (r: AppResult<Command>)
    ensures
        types::outcome_view(r) == volume_set_to(value@),
{
    match parse_volume(value) {
        Ok(volume) => Ok(Command::VolumeSet { volume }),
        Err(refusal) => Err(refusal),
    }
}

/// Reads what follows the first word of a `volume` command.
fn parse_volume_command(args: &[Argument]) -> (r: AppResult<Command>)
    requires
        args@.len() > 0,
    ensures
        types::outcome_view(r) == volume_command(arguments(args@).skip(1)),
        r matches Ok(command) ==> command@.wf(),
{
    assert(args@.len() > 1 ==> arguments(args@).skip(1)[0] == args@[1]@);
    assert(args@.len() > 2 ==> arguments(args@).skip(1)[1] == args@[2]@);
    if args.len() == 1 {
        return Ok(Command::VolumeShow);
    }
    let word = args[1].text.as_str();
    if text::same_text(word, "show") {
        Ok(Command::VolumeShow)
    } else if text::same_text(word, "set") {
        if args.len() == 2 {
            return Err("volume set requires a numeric value".to_string());
        }
        if args.len() > 3 {
            return Err("volume set accepts exactly one numeric value".to_string());
        }
        set_volume_to(&args[2])
    } else if text::same_text(word, "test") {
        if args.len() == 2 {
            return Ok(Command::VolumeTest { volume_override: None });
        }
        match parse_volume(&args[2]) {
            Ok(volume) => {
                if args.len() > 3 {
                    return Err("volume test accepts at most one numeric override".to_string());
                }
                Ok(Command::VolumeTest { volume_override: Some(volume) })
            },
            Err(refusal) => Err(refusal),
        }
    } else {
        if args.len() > 2 {
            return Err("volume command accepts at most one positional value".to_string());
        }
        set_volume_to(&args[1])
    }
}


/// A flag of the command that runs a background alarm.
#[derive(Clone, Copy, Debug, PartialEq, Eq, Structural)]
pub enum WorkerFlag {
    AlarmId,
    TargetUtc,
    AutoStopSeconds,
    Volume,
    SoundFile,
    NotificationsEnabled,
    NotificationsClickable,
    NotificationsTimeoutMs,
    NotificationsShowStopButton,
}

/// The flag that a word is.
pub open spec fn worker_flag(word: Seq<char>) -> Option<WorkerFlag> {
    if word == "--alarm-id"@ {
        Some(WorkerFlag::AlarmId)
    } else if word == "--target-utc"@ {
        Some(WorkerFlag::TargetUtc)
    } else if word == "--auto-stop-seconds"@ {
        Some(WorkerFlag::AutoStopSeconds)
    } else if word == "--volume"@ {
        Some(WorkerFlag::Volume)
    } else if word == "--sound-file"@ {
        Some(WorkerFlag::SoundFile)
    } else if word == "--notifications-enabled"@ {
        Some(WorkerFlag::NotificationsEnabled)
    } else if word == "--notifications-clickable"@ {
        Some(WorkerFlag::NotificationsClickable)
    } else if word == "--notifications-timeout-ms"@ {
        Some(WorkerFlag::NotificationsTimeoutMs)
    } else if word == "--notifications-show-stop-button"@ {
        Some(WorkerFlag::NotificationsShowStopButton)
    } else {
        None
    }
}

fn find_worker_flag(word: &str) -> (r: Option<WorkerFlag>)
    ensures
        r == worker_flag(word@),
{
    if text::same_text(word, "--alarm-id") {
        Some(WorkerFlag::AlarmId)
    } else if text::same_text(word, "--target-utc") {
        Some(WorkerFlag::TargetUtc)
    } else if text::same_text(word, "--auto-stop-seconds") {
        Some(WorkerFlag::AutoStopSeconds)
    } else if text::same_text(word, "--volume") {
        Some(WorkerFlag::Volume)
    } else if text::same_text(word, "--sound-file") {
        Some(WorkerFlag::SoundFile)
    } else if text::same_text(word, "--notifications-enabled") {
        Some(WorkerFlag::NotificationsEnabled)
    } else if text::same_text(word, "--notifications-clickable") {
        Some(WorkerFlag::NotificationsClickable)
    } else if text::same_text(word, "--notifications-timeout-ms") {
        Some(WorkerFlag::NotificationsTimeoutMs)
    } else if text::same_text(word, "--notifications-show-stop-button") {
        Some(WorkerFlag::NotificationsShowStopButton)
    } else {
        None
    }
}

/// The refusal of a flag without its value.
pub open spec fn value_missing(flag: WorkerFlag) -> Seq<char> {
    match flag {
        WorkerFlag::AlarmId => "__worker requires --alarm-id <id>"@,
        WorkerFlag::TargetUtc => "__worker requires --target-utc <rfc3339>"@,
        WorkerFlag::AutoStopSeconds => "__worker requires --auto-stop-seconds <u64>"@,
        WorkerFlag::Volume => "__worker requires --volume <0.0..=1.0>"@,
        WorkerFlag::SoundFile => "__worker requires --sound-file <path>"@,
        WorkerFlag::NotificationsEnabled => {
            "__worker requires --notifications-enabled <true|false>"@
        },
        WorkerFlag::NotificationsClickable => {
            "__worker requires --notifications-clickable <true|false>"@
        },
        WorkerFlag::NotificationsTimeoutMs => "__worker requires --notifications-timeout-ms <u32>"@,
        WorkerFlag::NotificationsShowStopButton => {
            "__worker requires --notifications-show-stop-button <true|false>"@
        },
    }
}

fn refuse_missing_value(flag: WorkerFlag) -> (r: String)
    ensures
        r@ == value_missing(flag),
{
    match flag {
        WorkerFlag::AlarmId => "__worker requires --alarm-id <id>".to_string(),
        WorkerFlag::TargetUtc => "__worker requires --target-utc <rfc3339>".to_string(),
        WorkerFlag::AutoStopSeconds => "__worker requires --auto-stop-seconds <u64>".to_string(),
        WorkerFlag::Volume => "__worker requires --volume <0.0..=1.0>".to_string(),
        WorkerFlag::SoundFile => "__worker requires --sound-file <path>".to_string(),
        WorkerFlag::NotificationsEnabled => {
            "__worker requires --notifications-enabled <true|false>".to_string()
        },
        WorkerFlag::NotificationsClickable => {
            "__worker requires --notifications-clickable <true|false>".to_string()
        },
        WorkerFlag::NotificationsTimeoutMs => {
            "__worker requires --notifications-timeout-ms <u32>".to_string()
        },
        WorkerFlag::NotificationsShowStopButton => {
            "__worker requires --notifications-show-stop-button <true|false>".to_string()
        },
    }
}

/// What the flags of a worker command have said so far.
pub struct WorkerWords {
    pub alarm_id: Option<Seq<char>>,
    pub target_utc: Option<UtcTime>,
    pub auto_stop_seconds: u64,
    pub volume: Option<Volume>,
    pub sound_file: Option<Seq<char>>,
    pub notifications: AlarmNotificationConfig,
}

/// What is known before the first flag.
pub open spec fn no_worker_words() -> WorkerWords {
    WorkerWords {
        alarm_id: None,
        target_utc: None,
        auto_stop_seconds: 0,
        volume: None,
        sound_file: None,
        notifications: AlarmNotificationConfig {
            enabled: true,
            clickable: true,
            timeout_ms: 0,
            show_stop_button: true,
        },
    }
}

/// The notifications with one of their flags said, if the flag is one of theirs.
pub open spec fn notifications_with(
    so_far: AlarmNotificationConfig,
    flag: WorkerFlag,
    value: Seq<char>,
) -> Result<AlarmNotificationConfig, Seq<char>> {
    match flag {
        WorkerFlag::NotificationsEnabled => match config::bool_reading(value) {
            Ok(enabled) => Ok(AlarmNotificationConfig { enabled, ..so_far }),
            Err(refusal) => Err(refusal),
        },
        WorkerFlag::NotificationsClickable => match config::bool_reading(value) {
            Ok(clickable) => Ok(AlarmNotificationConfig { clickable, ..so_far }),
            Err(refusal) => Err(refusal),
        },
        WorkerFlag::NotificationsTimeoutMs => match config::timeout_reading(value) {
            Ok(timeout_ms) => Ok(AlarmNotificationConfig { timeout_ms, ..so_far }),
            Err(refusal) => Err(refusal),
        },
        WorkerFlag::NotificationsShowStopButton => match config::bool_reading(value) {
            Ok(show_stop_button) => Ok(AlarmNotificationConfig { show_stop_button, ..so_far }),
            Err(refusal) => Err(refusal),
        },
        _ => Ok(so_far),
    }
}

fn set_notifications(
    so_far: AlarmNotificationConfig,
    flag: WorkerFlag,
    value: &str,
) -> (r: AppResult<AlarmNotificationConfig>)
    ensures
        types::outcome(r) == notifications_with(so_far, flag, value@),
{
    match flag {
        WorkerFlag::NotificationsEnabled => match parse_bool(value) {
            Ok(enabled) => Ok(AlarmNotificationConfig { enabled, ..so_far }),
            Err(refusal) => Err(refusal),
        },
        WorkerFlag::NotificationsClickable => match parse_bool(value) {
            Ok(clickable) => Ok(AlarmNotificationConfig { clickable, ..so_far }),
            Err(refusal) => Err(refusal),
        },
        WorkerFlag::NotificationsTimeoutMs => match parse_notification_timeout_ms(value) {
            Ok(timeout_ms) => Ok(AlarmNotificationConfig { timeout_ms, ..so_far }),
            Err(refusal) => Err(refusal),
        },
        WorkerFlag::NotificationsShowStopButton => match parse_bool(value) {
            Ok(show_stop_button) => Ok(AlarmNotificationConfig { show_stop_button, ..so_far }),
            Err(refusal) => Err(refusal),
        },
        _ => Ok(so_far),
    }
}

/// The instant that the argument of `--target-utc` gives.
pub open spec fn worker_target(value: Seq<char>) -> Result<UtcTime, Seq<char>> {
    calendar::target_from(calendar::utc_reading(value), value, "invalid worker target time"@)
}

fn parse_worker_target(value: &str) -> (r: AppResult<UtcTime>)
    ensures
        types::outcome(r) == worker_target(value@),
        r matches Ok(target) ==> target.wf(),
{
    calendar::take_target(calendar::read_utc(value), value, "invalid worker target time")
}

/// What is said so far with one more flag.
pub open spec fn worker_with(so_far: WorkerWords, flag: WorkerFlag, value: ArgumentView) -> Result<
    WorkerWords,
    Seq<char>,
> {
    match flag {
        WorkerFlag::AlarmId => Ok(WorkerWords { alarm_id: Some(value.text), ..so_far }),
        WorkerFlag::TargetUtc => match worker_target(value.text) {
            Ok(target) => Ok(WorkerWords { target_utc: Some(target), ..so_far }),
            Err(refusal) => Err(refusal),
        },
        WorkerFlag::AutoStopSeconds => match text::unsigned_reading(value.text, u64::MAX as int) {
            Some(count) => Ok(WorkerWords { auto_stop_seconds: count as u64, ..so_far }),
            None => Err("worker auto-stop seconds must be an unsigned integer"@),
        },
        WorkerFlag::Volume => match config::volume_reading(value.number) {
            Ok(volume) => Ok(WorkerWords { volume: Some(volume), ..so_far }),
            Err(refusal) => Err(refusal),
        },
        WorkerFlag::SoundFile => Ok(WorkerWords { sound_file: Some(value.text), ..so_far }),
        _ => match notifications_with(so_far.notifications, flag, value.text) {
            Ok(notifications) => Ok(WorkerWords { notifications, ..so_far }),
            Err(refusal) => Err(refusal),
        },
    }
}

/// What the words say, read from the first to the last after those that said `so_far`.
pub open spec fn worker_words(words: Seq<ArgumentView>, so_far: WorkerWords) -> Result<
    WorkerWords,
    Seq<char>,
>
    decreases words.len(),
{
    if words.len() == 0 {
        Ok(so_far)
    } else {
        match worker_flag(words[0].text) {
            Some(flag) => if words.len() == 1 {
                Err(value_missing(flag))
            } else {
                match worker_with(so_far, flag, words[1]) {
                    Ok(said) => worker_words(words.skip(2), said),
                    Err(refusal) => Err(refusal),
                }
            },
            None => Err("unknown internal worker argument `"@ + words[0].text + "`"@),
        }
    }
}

/// The command that the flags spell, once all of them are read.
pub open spec fn worker_said(said: WorkerWords) -> Result<CommandView, Seq<char>> {
    match (said.alarm_id, said.target_utc, said.volume) {
        (Some(alarm_id), Some(target_utc), Some(volume)) => Ok(
            CommandView::Worker {
                alarm_id,
                target_utc,
                auto_stop_seconds: said.auto_stop_seconds,
                volume,
                sound_file: said.sound_file,
                notifications: said.notifications,
            },
        ),
        (None, _, _) => Err(value_missing(WorkerFlag::AlarmId)),
        (_, None, _) => Err(value_missing(WorkerFlag::TargetUtc)),
        (_, _, None) => Err(value_missing(WorkerFlag::Volume)),
    }
}

/// What follows `__worker` on the command line.
pub open spec fn worker_command(args: Seq<ArgumentView>) -> Result<CommandView, Seq<char>> {
    match worker_words(args, no_worker_words()) {
        Ok(said) => worker_said(said),
        Err(refusal) => Err(refusal),
    }
}

/// Whether the words are flags, each followed by an argument.
pub open spec fn is_flag_list(words: Seq<ArgumentView>) -> bool {
    &&& words.len() % 2 == 0
    &&& forall|i: int|
        0 <= i < words.len() / 2 ==> worker_flag((#[trigger] words[2 * i]).text) is Some
}

/// The flags on a worker command, each with its argument.
pub open spec fn flag_pairs(words: Seq<ArgumentView>) -> Seq<(WorkerFlag, ArgumentView)> {
    Seq::new(
        words.len() / 2,
        |i: int| (worker_flag(words[2 * i].text)->0, words[2 * i + 1]),
    )
}

/// Whether a pair is one of the given flag.
pub open spec fn of_flag(flag: WorkerFlag) -> spec_fn((WorkerFlag, ArgumentView)) -> bool {
    |pair: (WorkerFlag, ArgumentView)| pair.0 == flag
}

/// The last argument of a flag, if it is there.
pub open spec fn last_value(pairs: Seq<(WorkerFlag, ArgumentView)>, flag: WorkerFlag) -> Option<
    ArgumentView,
> {
    let given = pairs.filter(of_flag(flag));
    if given.len() == 0 {
        None
    } else {
        Some(given.last().1)
    }
}

/// Whether a flag takes an argument.
pub open spec fn flag_takes(flag: WorkerFlag, value: ArgumentView) -> bool {
    match flag {
        WorkerFlag::AlarmId | WorkerFlag::SoundFile => true,
        WorkerFlag::TargetUtc => worker_target(value.text) is Ok,
        WorkerFlag::AutoStopSeconds => text::unsigned_reading(
            value.text,
            u64::MAX as int,
        ) is Some,
        WorkerFlag::Volume => config::volume_reading(value.number) is Ok,
        WorkerFlag::NotificationsTimeoutMs => config::timeout_reading(value.text) is Ok,
        WorkerFlag::NotificationsEnabled
        | WorkerFlag::NotificationsClickable
        | WorkerFlag::NotificationsShowStopButton => config::bool_reading(value.text) is Ok,
    }
}

/// What a switch is set to by the last argument of its flag.
pub open spec fn switch_after(
    so_far: bool,
    pairs: Seq<(WorkerFlag, ArgumentView)>,
    flag: WorkerFlag,
) -> bool {
    match last_value(pairs, flag) {
        Some(value) => config::bool_reading(value.text)->Ok_0,
        None => so_far,
    }
}

/// What is said after the given pairs: each flag counts with its last argument.
pub open spec fn said_after(
    so_far: WorkerWords,
    pairs: Seq<(WorkerFlag, ArgumentView)>,
) -> WorkerWords {
    WorkerWords {
        alarm_id: match last_value(pairs, WorkerFlag::AlarmId) {
            Some(value) => Some(value.text),
            None => so_far.alarm_id,
        },
        target_utc: match last_value(pairs, WorkerFlag::TargetUtc) {
            Some(value) => Some(worker_target(value.text)->Ok_0),
            None => so_far.target_utc,
        },
        auto_stop_seconds: match last_value(pairs, WorkerFlag::AutoStopSeconds) {
            Some(value) => text::unsigned_reading(value.text, u64::MAX as int)->0 as u64,
            None => so_far.auto_stop_seconds,
        },
        volume: match last_value(pairs, WorkerFlag::Volume) {
            Some(value) => Some(config::volume_reading(value.number)->Ok_0),
            None => so_far.volume,
        },
        sound_file: match last_value(pairs, WorkerFlag::SoundFile) {
            Some(value) => Some(value.text),
            None => so_far.sound_file,
        },
        notifications: AlarmNotificationConfig {
            enabled: switch_after(
                so_far.notifications.enabled,
                pairs,
                WorkerFlag::NotificationsEnabled,
            ),
            clickable: switch_after(
                so_far.notifications.clickable,
                pairs,
                WorkerFlag::NotificationsClickable,
            ),
            timeout_ms: match last_value(pairs, WorkerFlag::NotificationsTimeoutMs) {
                Some(value) => config::timeout_reading(value.text)->Ok_0,
                None => so_far.notifications.timeout_ms,
            },
            show_stop_button: switch_after(
                so_far.notifications.show_stop_button,
                pairs,
                WorkerFlag::NotificationsShowStopButton,
            ),
        },
    }
}

/// Whether every flag takes its argument.
pub open spec fn all_taken(pairs: Seq<(WorkerFlag, ArgumentView)>) -> bool {
    forall|i: int| 0 <= i < pairs.len() ==> flag_takes((#[trigger] pairs[i]).0, pairs[i].1)
}

proof fn lemma_said_after_one_more(
    so_far: WorkerWords,
    flag: WorkerFlag,
    value: ArgumentView,
    rest: Seq<(WorkerFlag, ArgumentView)>,
)
    ensures
        worker_with(so_far, flag, value) is Ok <==> flag_takes(flag, value),
        worker_with(so_far, flag, value) matches Ok(said) ==> said_after(
            so_far,
            seq![(flag, value)] + rest,
        ) == said_after(said, rest),
{
    lemma_last_value_step(flag, value, rest, WorkerFlag::AlarmId);
    lemma_last_value_step(flag, value, rest, WorkerFlag::TargetUtc);
    lemma_last_value_step(flag, value, rest, WorkerFlag::AutoStopSeconds);
    lemma_last_value_step(flag, value, rest, WorkerFlag::Volume);
    lemma_last_value_step(flag, value, rest, WorkerFlag::SoundFile);
    lemma_last_value_step(flag, value, rest, WorkerFlag::NotificationsEnabled);
    lemma_last_value_step(flag, value, rest, WorkerFlag::NotificationsClickable);
    lemma_last_value_step(flag, value, rest, WorkerFlag::NotificationsTimeoutMs);
    lemma_last_value_step(flag, value, rest, WorkerFlag::NotificationsShowStopButton);
    match worker_with(so_far, flag, value) {
        Ok(said) => {
            let (whole, step) = (
                said_after(so_far, seq![(flag, value)] + rest),
                said_after(said, rest),
            );
            assert(whole.alarm_id == step.alarm_id);
            assert(whole.target_utc == step.target_utc);
            assert(whole.auto_stop_seconds == step.auto_stop_seconds);
            assert(whole.volume == step.volume);
            assert(whole.sound_file == step.sound_file);
            assert(whole.notifications.enabled == step.notifications.enabled);
            assert(whole.notifications.clickable == step.notifications.clickable);
            assert(whole.notifications.timeout_ms == step.notifications.timeout_ms);
            assert(whole.notifications.show_stop_button == step.notifications.show_stop_button);
        },
        Err(_) => {},
    }
}

proof fn lemma_last_value_step(
    flag: WorkerFlag,
    value: ArgumentView,
    rest: Seq<(WorkerFlag, ArgumentView)>,
    asked: WorkerFlag,
)
    ensures
        last_value(seq![(flag, value)] + rest, asked) == match last_value(rest, asked) {
            Some(last) => Some(last),
            None => if asked == flag {
                Some(value)
            } else {
                None
            },
        },
{
    text::lemma_filter_first((flag, value), rest, of_flag(asked));
}

proof fn lemma_worker_words(words: Seq<ArgumentView>, so_far: WorkerWords)
    requires
        is_flag_list(words),
    ensures
        worker_words(words, so_far) is Ok <==> all_taken(flag_pairs(words)),
        worker_words(words, so_far) matches Ok(said) ==> said == said_after(
            so_far,
            flag_pairs(words),
        ),
    decreases words.len(),
{
    let pairs = flag_pairs(words);
    if words.len() == 0 {
        reveal(Seq::filter);
    } else {
        let rest = words.skip(2);
        assert forall|i: int| 0 <= i < rest.len() / 2 implies worker_flag(
            (#[trigger] rest[2 * i]).text,
        ) is Some by {
            assert(rest[2 * i] == words[2 * (i + 1)]);
        }
        let (flag, value) = pairs[0];
        assert(worker_flag(words[2 * 0int].text) is Some);
        assert(pairs =~= seq![(flag, value)] + flag_pairs(rest)) by {
            assert forall|i: int| 0 < i < pairs.len() implies pairs[i] == flag_pairs(rest)[i - 1] by {
                assert(rest[2 * (i - 1)] == words[2 * i]);
                assert(rest[2 * (i - 1) + 1] == words[2 * i + 1]);
            }
        }
        lemma_said_after_one_more(so_far, flag, value, flag_pairs(rest));
        assert(all_taken(pairs) <==> flag_takes(flag, value) && all_taken(flag_pairs(rest))) by {
            assert forall|i: int| 0 <= i < flag_pairs(rest).len() implies #[trigger] flag_pairs(
                rest,
            )[i] == pairs[i + 1] by {}
        }
        match worker_with(so_far, flag, value) {
            Ok(said) => lemma_worker_words(rest, said),
            Err(_) => {},
        }
    }
}

/// A worker command that is understood is made of flags, each followed by an argument.
pub proof fn law_worker_line_is_flags(words: Seq<ArgumentView>)
    ensures
        worker_command(words) is Ok ==> is_flag_list(words),
{
    lemma_understood_words_are_flags(words, no_worker_words());
}

proof fn lemma_understood_words_are_flags(words: Seq<ArgumentView>, so_far: WorkerWords)
    ensures
        worker_words(words, so_far) is Ok ==> is_flag_list(words),
    decreases words.len(),
{
    if words.len() > 1 && worker_words(words, so_far) is Ok {
        let said = worker_with(so_far, worker_flag(words[0].text)->0, words[1])->Ok_0;
        let rest = words.skip(2);
        lemma_understood_words_are_flags(rest, said);
        assert forall|i: int| 0 <= i < words.len() / 2 implies worker_flag(
            (#[trigger] words[2 * i]).text,
        ) is Some by {
            if i > 0 {
                assert(rest[2 * (i - 1)] == words[2 * i]);
            }
        }
    }
}

/// A flag of a worker command that is given more than once counts with its last argument.
pub proof fn law_last_value_counts(words: Seq<ArgumentView>)
    requires
        is_flag_list(words),
    ensures
        all_taken(flag_pairs(words)) ==> worker_command(words) == worker_said(
            said_after(no_worker_words(), flag_pairs(words)),
        ),
        worker_command(words) is Ok ==> all_taken(flag_pairs(words)),
{
    lemma_worker_words(words, no_worker_words());
}

/// The order of different flags on a worker command changes nothing: two commands that hold the
/// same flags with the same arguments, and those of each flag in the same order, say the same.
pub proof fn law_flag_order_is_free(words: Seq<ArgumentView>, others: Seq<ArgumentView>)
    requires
        is_flag_list(words),
        is_flag_list(others),
        forall|flag: WorkerFlag| #[trigger]
            flag_pairs(words).filter(of_flag(flag)) == flag_pairs(others).filter(of_flag(flag)),
    ensures
        worker_command(words) is Ok <==> worker_command(others) is Ok,
        worker_command(words) is Ok ==> worker_command(others) == worker_command(words),
{
    let (left, right) = (flag_pairs(words), flag_pairs(others));
    assert forall|flag: WorkerFlag| #[trigger] last_value(left, flag) == last_value(right, flag) by {
        assert(left.filter(of_flag(flag)) == right.filter(of_flag(flag)));
    }
    lemma_same_pairs_are_taken(left, right);
    lemma_same_pairs_are_taken(right, left);
    law_last_value_counts(words);
    law_last_value_counts(others);
}

proof fn lemma_same_pairs_are_taken(
    left: Seq<(WorkerFlag, ArgumentView)>,
    right: Seq<(WorkerFlag, ArgumentView)>,
)
    requires
        forall|flag: WorkerFlag| #[trigger]
            left.filter(of_flag(flag)) == right.filter(of_flag(flag)),
    ensures
        all_taken(left) ==> all_taken(right),
{
    assert forall|i: int| all_taken(left) && 0 <= i < right.len() implies flag_takes(
        (#[trigger] right[i]).0,
        right[i].1,
    ) by {
        let p = of_flag(right[i].0);
        right.lemma_filter_contains(p, i);
        left.lemma_filter_contains_rev(p, right[i]);
        let k = choose|k: int| 0 <= k < left.len() && left[k] == right[i];
        assert(flag_takes(left[k].0, left[k].1));
    }
}

/// What the flags of a worker command have said so far.
struct WorkerArguments {
    alarm_id: Option<String>,
    target_utc: Option<UtcTime>,
    auto_stop_seconds: u64,
    volume: Option<Volume>,
    sound_file: Option<String>,
    notifications: AlarmNotificationConfig,
}

impl View for WorkerArguments {
    type V = WorkerWords;

    closed spec fn view(&self) -> WorkerWords {
        WorkerWords {
            alarm_id: text::optional_text(self.alarm_id),
            target_utc: self.target_utc,
            auto_stop_seconds: self.auto_stop_seconds,
            volume: self.volume,
            sound_file: text::optional_text(self.sound_file),
            notifications: self.notifications,
        }
    }
}

impl WorkerArguments {
    /// Whether the volume is in range and the instant can be represented.
    spec fn wf(self) -> bool {
        &&& self.target_utc matches Some(target) ==> target.wf()
        &&& self.volume matches Some(volume) ==> volume.in_range()
    }
}

/// Takes one more flag.
fn set_worker_flag(so_far: WorkerArguments, flag: WorkerFlag, value: &Argument) -> (r: AppResult<
    WorkerArguments,
>)
    requires
        so_far.wf(),
    ensures
        types::outcome_view(r) == worker_with(so_far@, flag, value@),
        r matches Ok(said) ==> said.wf(),
{
    match flag {
        WorkerFlag::AlarmId => Ok(
            WorkerArguments { alarm_id: Some(value.text.clone()), ..so_far },
        ),
        WorkerFlag::TargetUtc => match parse_worker_target(value.text.as_str()) {
            Ok(target) => Ok(WorkerArguments { target_utc: Some(target), ..so_far }),
            Err(refusal) => Err(refusal),
        },
        WorkerFlag::AutoStopSeconds => match text::parse_unsigned(value.text.as_str(), u64::MAX) {
            Some(count) => Ok(WorkerArguments { auto_stop_seconds: count, ..so_far }),
            None => Err("worker auto-stop seconds must be an unsigned integer".to_string()),
        },
        WorkerFlag::Volume => match parse_volume(value) {
            Ok(volume) => Ok(WorkerArguments { volume: Some(volume), ..so_far }),
            Err(refusal) => Err(refusal),
        },
        WorkerFlag::SoundFile => Ok(
            WorkerArguments { sound_file: Some(value.text.clone()), ..so_far },
        ),
        _ => match set_notifications(so_far.notifications, flag, value.text.as_str()) {
            Ok(notifications) => Ok(WorkerArguments { notifications, ..so_far }),
            Err(refusal) => Err(refusal),
        },
    }
}

/// Reads what follows the first word of a `__worker` command.
fn parse_worker_command(args: &[Argument]) -> (r: AppResult<Command>)
    requires
        args@.len() > 0,
    ensures
        types::outcome_view(r) == worker_command(arguments(args@).skip(1)),
        r matches Ok(command) ==> command@.wf(),
{
    let ghost words = arguments(args@).skip(1);
    let mut said = WorkerArguments {
        alarm_id: None,
        target_utc: None,
        auto_stop_seconds: 0,
        volume: None,
        sound_file: None,
        notifications: AlarmNotificationConfig {
            enabled: true,
            clickable: true,
            timeout_ms: 0,
            show_stop_button: true,
        },
    };
    let mut i: usize = 1;
    assert(words.skip(0) =~= words);
    while i < args.len()
        invariant
            words == arguments(args@).skip(1),
            1 <= i <= args@.len(),
            said.wf(),
            worker_words(words, no_worker_words()) == worker_words(words.skip(i - 1), said@),
        decreases args@.len() - i,
    {
        proof {
            let rest = words.skip(i - 1);
            assert(rest[0] == args@[i as int]@);
            if i + 1 < args@.len() {
                assert(rest[1] == args@[i + 1]@);
                assert(rest.skip(2) =~= words.skip(i + 1));
            }
        }
        match find_worker_flag(args[i].text.as_str()) {
            Some(flag) => {
                if args.len() - i == 1 {
                    return Err(refuse_missing_value(flag));
                }
                match set_worker_flag(said, flag, &args[i + 1]) {
                    Ok(more) => {
                        said = more;
                    },
                    Err(refusal) => {
                        return Err(refusal);
                    },
                }
                i = i + 2;
            },
            None => {
                let word = args[i].text.as_str();
                return Err(text::concat3("unknown internal worker argument `", word, "`"));
            },
        }
    }
    assert(words.skip(i - 1).len() == 0);
    match said.alarm_id {
        Some(alarm_id) => match said.target_utc {
            Some(target_utc) => match said.volume {
                Some(volume) => Ok(
                    Command::Worker {
                        alarm_id,
                        target_utc,
                        auto_stop_seconds: said.auto_stop_seconds,
                        volume,
                        sound_file: said.sound_file,
                        notifications: said.notifications,
                    },
                ),
                None => Err(refuse_missing_value(WorkerFlag::Volume)),
            },
            None => Err(refuse_missing_value(WorkerFlag::TargetUtc)),
        },
        None => Err(refuse_missing_value(WorkerFlag::AlarmId)),
    }
}

/// The command that the words of a command line spell.
pub open spec fn command_reading(args: Seq<ArgumentView>) -> Result<CommandView, Seq<char>> {
    if args.len() == 0 {
        Ok(CommandView::Help)
    } else {
        let word = args[0].text;
        if word == "--help"@ || word == "-h"@ {
            Ok(CommandView::Help)
        } else if word == "config"@ {
            config_command(args.skip(1))
        } else if word == "status"@ {
            Ok(CommandView::Status)
        } else if word == "stop"@ {
            stop_command(args.skip(1))
        } else if word == "volume"@ {
            volume_command(args.skip(1))
        } else if word == "__worker"@ {
            worker_command(args.skip(1))
        } else {
            alarm_command(args)
        }
    }
}

/// Reads a command line, without the name of the program.
pub fn parse_command(args: Vec<Argument>) -> (r: AppResult<Command>)
    ensures
        types::outcome_view(r) == command_reading(arguments(args@)),
        r matches Ok(command) ==> command@.wf(),
{
    if args.len() == 0 {
        return Ok(Command::Help);
    }
    let all = args.as_slice();
    let word = all[0].text.as_str();
    assert(arguments(args@)[0] == args@[0]@);
    if text::same_text(word, "--help") || text::same_text(word, "-h") {
        Ok(Command::Help)
    } else if text::same_text(word, "config") {
        parse_config_command(all)
    } else if text::same_text(word, "status") {
        Ok(Command::Status)
    } else if text::same_text(word, "stop") {
        parse_stop_command(all)
    } else if text::same_text(word, "volume") {
        parse_volume_command(all)
    } else if text::same_text(word, "__worker") {
        parse_worker_command(all)
    } else {
        parse_alarm_command(all)
    }
}

/// A date in numbers together with a time of day that was read beside it.
pub open spec fn local_from(
    date_input: Seq<char>,
    time: Option<ClockTime>,
    date_config: DateParseConfig,
) -> Result<Option<LocalDateTime>, Seq<char>> {
    match time {
        Some(time) => match dates::numeric_date(date_input, date_config) {
            Ok(Some(date)) => Ok(Some(LocalDateTime { date, time })),
            Ok(None) => Ok(None),
            Err(refusal) => Err(refusal),
        },
        None => Ok(None),
    }
}

/// Puts a date in numbers together with a time of day that was read beside it.
pub fn local_datetime_from(
    date_input: &str,
    time: Option<ClockTime>,
    date_config: DateParseConfig,
) -> (r: AppResult<Option<LocalDateTime>>)
    ensures
        types::outcome(r) == local_from(date_input@, time, date_config),
        (time matches Some(time) ==> time.wf()) ==> (r matches Ok(Some(local)) ==> local.wf()),
{
    match time {
        Some(time) => match dates::parse_numeric_date(date_input, date_config) {
            Ok(Some(date)) => Ok(Some(LocalDateTime { date, time })),
            Ok(None) => Ok(None),
            Err(refusal) => Err(refusal),
        },
        None => Ok(None),
    }
}

/// The local date and time that a wording reads as.
pub open spec fn local_reading(wording: Seq<char>, date_config: DateParseConfig) -> Result<
    Option<LocalDateTime>,
    Seq<char>,
> {
    match wording::date_and_time(wording) {
        Some(sides) => local_from(sides.0, wording::time_reading(sides.1), date_config),
        None => Ok(None),
    }
}

/// Reads a local date and time.
fn parse_local_datetime(input: &str, date_config: DateParseConfig) -> (r: AppResult<
    Option<LocalDateTime>,
>)
    ensures
        types::outcome(r) == local_reading(input@, date_config),
        r matches Ok(Some(local)) ==> local.wf(),
{
    match wording::split_absolute_datetime(input) {
        Some((date_input, time_input)) => {
            let time = wording::parse_time_only(time_input);
            local_datetime_from(date_input, time, date_config)
        },
        None => Ok(None),
    }
}

/// The instant with its offset that a wording reads as.
pub open spec fn explicit_reading(wording: Seq<char>) -> Option<ExplicitTime> {
    match calendar::rfc3339_reading(wording) {
        Ok(time) => Some(
            ExplicitTime {
                instant: UtcTime { secs: time.0 as i64, nanos: time.1 as u32 },
                offset_seconds: time.2 as i32,
            },
        ),
        Err(_) => None,
    }
}

fn parse_explicit(wording: &str) -> (r: Option<ExplicitTime>)
    ensures
        r == explicit_reading(wording@),
        r matches Some(time) ==> time.wf(),
{
    match calendar::read_rfc3339(wording) {
        Ok(time) => Some(time),
        Err(_) => None,
    }
}

/// The first of the things that a wording reads as: a span, an instant with its offset, a time of
/// day, a local date and time.
pub open spec fn spec_chosen(
    wording: Seq<char>,
    span: Option<TimeSpan>,
    explicit: Option<ExplicitTime>,
    time: Option<ClockTime>,
    local: Result<Option<LocalDateTime>, Seq<char>>,
) -> Result<AlarmSpec, Seq<char>> {
    if span is Some {
        Ok(AlarmSpec::Duration(span->0))
    } else if explicit is Some {
        Ok(AlarmSpec::Explicit(explicit->0))
    } else if time is Some {
        Ok(AlarmSpec::TimeOfDay(time->0))
    } else {
        match local {
            Ok(Some(local)) => Ok(AlarmSpec::Absolute(local)),
            Ok(None) => Err(
                "unsupported time format `"@ + wording
                    + "`\nsupported examples: `10m`, `1h30m`, `13:30`, `01:30pm`, `12/31/2026 8:15pm`, `12.03.2026 13:30`, `2026-03-12 13:30`"@,
            ),
            Err(refusal) => Err(refusal),
        }
    }
}

/// Chooses the first of the things that a wording was read as.
pub fn choose_alarm_spec(
    wording: &str,
    span: Option<TimeSpan>,
    explicit: Option<ExplicitTime>,
    time: Option<ClockTime>,
    local: AppResult<Option<LocalDateTime>>,
) -> (r: AppResult<AlarmSpec>)
    ensures
        types::outcome(r) == spec_chosen(wording@, span, explicit, time, types::outcome(local)),
{
    if let Some(span) = span {
        return Ok(AlarmSpec::Duration(span));
    }
    if let Some(explicit) = explicit {
        return Ok(AlarmSpec::Explicit(explicit));
    }
    if let Some(time) = time {
        return Ok(AlarmSpec::TimeOfDay(time));
    }
    match local {
        Ok(Some(local)) => Ok(AlarmSpec::Absolute(local)),
        Ok(None) => Err(
            text::concat3(
                "unsupported time format `",
                wording,
                "`\nsupported examples: `10m`, `1h30m`, `13:30`, `01:30pm`, `12/31/2026 8:15pm`, `12.03.2026 13:30`, `2026-03-12 13:30`",
            ),
        ),
        Err(refusal) => Err(refusal),
    }
}

/// What a wording in its one form says of an alarm, given the span that it reads as.
pub open spec fn wording_reading(
    wording: Seq<char>,
    span: Option<TimeSpan>,
    date_config: DateParseConfig,
) -> Result<AlarmSpec, Seq<char>> {
    if wording.len() == 0 {
        Err("empty alarm input"@)
    } else {
        spec_chosen(
            wording,
            span,
            explicit_reading(wording),
            wording::time_reading(wording),
            local_reading(wording, date_config),
        )
    }
}

/// Reads what a wording in its one form says of an alarm, given the span that it reads as.
pub fn parse_wording(wording: &str, span: Option<TimeSpan>, date_config: DateParseConfig) -> (r:
    AppResult<AlarmSpec>)
    ensures
        types::outcome(r) == wording_reading(wording@, span, date_config),
        (span matches Some(span) ==> span.wf()) ==> (r matches Ok(spec) ==> spec.wf()),
{
    if wording.is_empty() {
        return Err("empty alarm input".to_string());
    }
    let explicit = parse_explicit(wording);
    let time = wording::parse_time_only(wording);
    let local = parse_local_datetime(wording, date_config);
    choose_alarm_spec(wording, span, explicit, time, local)
}

/// What an input says of an alarm.
pub open spec fn alarm_spec_reading(input: Seq<char>, date_config: DateParseConfig) -> Result<
    AlarmSpec,
    Seq<char>,
> {
    let wording = wording::normalized(input);
    wording_reading(wording, wording::span_reading(wording), date_config)
}

/// Whether the part of an input that may be a duration can be read.
pub open spec fn readable_input(input: Seq<char>) -> bool {
    ||| wording::duration_digits(input) < DURATION_DIGITS
    ||| wording::readable_duration(wording::duration_part(wording::normalized(input)))
}

/// Reads what an input says of an alarm.
pub fn parse_alarm_spec(input: &str, date_config: DateParseConfig) -> (r: AppResult<AlarmSpec>)
    requires
        readable_input(input@),
    ensures
        types::outcome(r) == alarm_spec_reading(input@, date_config),
        r matches Ok(spec) ==> spec.wf(),
{
    let wording = wording::normalize_spec_text(input);
    proof {
        wording::lemma_digits_of_duration_part(input@);
    }
    let span = wording::parse_span(wording.as_str());
    parse_wording(wording.as_str(), span, date_config)
}

/// Reads what an input says of an alarm, or gives nothing where it cannot be read: its duration
/// reaches `u64::MAX` seconds and goes on.
pub fn try_parse_alarm_spec(input: &str, date_config: DateParseConfig) -> (r: Option<
    AppResult<AlarmSpec>,
>)
    ensures
        match r {
            Some(result) => {
                &&& readable_input(input@)
                &&& types::outcome(result) == alarm_spec_reading(input@, date_config)
                &&& result matches Ok(spec) ==> spec.wf()
            },
            None => !readable_input(input@),
        },
{
    let wording = wording::normalize_spec_text(input);
    proof {
        wording::lemma_digits_of_duration_part(input@);
    }
    if wording::is_readable_duration(wording::find_duration_part(wording.as_str())) {
        Some(parse_alarm_spec(input, date_config))
    } else {
        None
    }
}

/// A wording that reads as a span is one, whatever else it reads as; one that reads as an instant
/// with its offset is that very instant; and one that reads as a time of day is that time.
pub proof fn law_readings_go_in_order(
    wording: Seq<char>,
    span: TimeSpan,
    explicit: ExplicitTime,
    time: ClockTime,
    date_config: DateParseConfig,
)
    requires
        wording.len() > 0,
    ensures
        wording_reading(wording, Some(span), date_config) == Ok::<AlarmSpec, Seq<char>>(
            AlarmSpec::Duration(span),
        ),
        calendar::rfc3339_reading(wording) == Ok::<(int, int, int), Seq<char>>(
            (
                explicit.instant.secs as int,
                explicit.instant.nanos as int,
                explicit.offset_seconds as int,
            ),
        ) ==> wording_reading(wording, None, date_config) == Ok::<AlarmSpec, Seq<char>>(
            AlarmSpec::Explicit(explicit),
        ),
        calendar::rfc3339_reading(wording) is Err && wording::time_reading(wording) == Some(time)
            ==> wording_reading(wording, None, date_config) == Ok::<AlarmSpec, Seq<char>>(
            AlarmSpec::TimeOfDay(time),
        ),
{
}

/// A date and a text behind it that reads as a time of day, with a single space or a `T` between
/// them, are that date at exactly the time that the whole text behind it reads as when it stands
/// alone. A date whose order is not decided is refused, and what is no date is not supported.
pub proof fn law_date_beside_time(
    date_text: Seq<char>,
    time_text: Seq<char>,
    time: ClockTime,
    separator: char,
    date_config: DateParseConfig,
)
    requires
        date_text.len() > 0,
        time_text.len() > 0,
        !date_text.contains('T'),
        !date_text.contains(' '),
        text::trimmed(date_text) == date_text,
        text::trimmed(time_text) == time_text,
        separator == 'T' || (separator == ' ' && !time_text.contains('T')),
        calendar::rfc3339_reading(time_text) is Err,
        wording_reading(time_text, None, date_config) == Ok::<AlarmSpec, Seq<char>>(
            AlarmSpec::TimeOfDay(time),
        ),
        ({
            let whole = date_text + seq![separator] + time_text;
            calendar::rfc3339_reading(whole) is Err && wording::time_reading(whole) is None
        }),
    ensures
        ({
            let whole = date_text + seq![separator] + time_text;
            match dates::numeric_date(date_text, date_config) {
                Ok(Some(date)) => wording_reading(whole, None, date_config) == Ok::<
                    AlarmSpec,
                    Seq<char>,
                >(AlarmSpec::Absolute(LocalDateTime { date, time })),
                Ok(None) => wording_reading(whole, None, date_config) is Err,
                Err(refusal) => wording_reading(whole, None, date_config) == Err::<
                    AlarmSpec,
                    Seq<char>,
                >(refusal),
            }
        }),
{
    wording::law_date_and_time_are_parted(date_text, time_text);
    let alone = wording::time_reading(time_text);
    if alone is None {
        let local = local_reading(time_text, date_config);
        assert(spec_chosen(time_text, None, None, None, local) != Ok::<AlarmSpec, Seq<char>>(
            AlarmSpec::TimeOfDay(time),
        ));
    }
    assert(alone == Some(time));
}

/// An input says what its wording in its one form says, with the span that this reads as, so that
/// two inputs with the same form say the same.
pub proof fn law_input_says_what_its_form_says(
    input: Seq<char>,
    form: Seq<char>,
    span: TimeSpan,
    date_config: DateParseConfig,
)
    requires
        wording::normalized(input) == form,
    ensures
        form.len() == 0 ==> alarm_spec_reading(input, date_config) is Err,
        form.len() > 0 && wording::span_reading(form) == Some(span) ==> alarm_spec_reading(
            input,
            date_config,
        ) == Ok::<AlarmSpec, Seq<char>>(AlarmSpec::Duration(span)),
        wording::span_reading(form) is None ==> alarm_spec_reading(input, date_config)
            == wording_reading(form, None, date_config),
{
}

/// A wording that reads as nothing is refused, and so is an empty one.
pub proof fn law_nonsense_is_refused(wording: Seq<char>, date_config: DateParseConfig)
    ensures
        wording.len() == 0 ==> wording_reading(wording, None, date_config) == Err::<
            AlarmSpec,
            Seq<char>,
        >("empty alarm input"@),
        wording.len() > 0 && calendar::rfc3339_reading(wording) is Err && wording::time_reading(
            wording,
        ) is None && !wording.contains('T') && !wording.contains(' ') ==> wording_reading(
            wording,
            None,
            date_config,
        ) == Err::<AlarmSpec, Seq<char>>(
            "unsupported time format `"@ + wording
                + "`\nsupported examples: `10m`, `1h30m`, `13:30`, `01:30pm`, `12/31/2026 8:15pm`, `12.03.2026 13:30`, `2026-03-12 13:30`"@,
        ),
{
    if !wording.contains('T') && !wording.contains(' ') {
        wording::law_one_word_is_not_parted(wording);
    }
}

/// A date and a time of day beside it are put together as they are.
pub proof fn law_date_and_time_are_kept(
    date_input: Seq<char>,
    time: ClockTime,
    date_config: DateParseConfig,
)
    ensures
        match local_from(date_input, Some(time), date_config) {
            Ok(Some(local)) => local.time == time && dates::numeric_date(date_input, date_config)
                == Ok::<Option<calendar::CalendarDate>, Seq<char>>(Some(local.date)),
            Ok(None) => dates::numeric_date(date_input, date_config) == Ok::<
                Option<calendar::CalendarDate>,
                Seq<char>,
            >(None),
            Err(refusal) => dates::numeric_date(date_input, date_config) == Err::<
                Option<calendar::CalendarDate>,
                Seq<char>,
            >(refusal),
        },
        local_from(date_input, None, date_config) == Ok::<Option<LocalDateTime>, Seq<char>>(None),
{
}

/// Whether a word asks for a preview.
pub open spec fn asks_preview(word: ArgumentView) -> bool {
    word.text == "--dry-run"@
}

/// Whether a word asks for the foreground.
pub open spec fn asks_foreground(word: ArgumentView) -> bool {
    word.text == "--foreground"@ || word.text == "-f"@
}

/// Whether a word asks for the background.
pub open spec fn asks_background(word: ArgumentView) -> bool {
    word.text == "--background"@ || word.text == "-b"@
}

/// Whether a word is followed by the name of a time zone.
pub open spec fn names_timezone(word: ArgumentView) -> bool {
    word.text == "--timezone"@
}

/// Whether one of the words asks for a preview.
pub open spec fn preview_asked(words: Seq<ArgumentView>) -> bool {
    exists|i: int| 0 <= i < words.len() && asks_preview(#[trigger] words[i])
}

/// Whether one of the words asks for the foreground.
pub open spec fn foreground_asked(words: Seq<ArgumentView>) -> bool {
    exists|i: int| 0 <= i < words.len() && asks_foreground(#[trigger] words[i])
}

/// Whether one of the words asks for the background.
pub open spec fn background_asked(words: Seq<ArgumentView>) -> bool {
    exists|i: int| 0 <= i < words.len() && asks_background(#[trigger] words[i])
}

/// The texts of the words that ask for nothing by themselves, in order.
pub open spec fn plain_words(words: Seq<ArgumentView>) -> Seq<Seq<char>> {
    words.filter(
        |word: ArgumentView|
            !asks_preview(word) && !asks_foreground(word) && !asks_background(word),
    ).map_values(|word: ArgumentView| word.text)
}

/// The mode that the words ask for, after those that asked for `so_far`.
spec fn mode_asked(so_far: Option<RunMode>, words: Seq<ArgumentView>) -> Option<RunMode> {
    if foreground_asked(words) {
        Some(RunMode::Foreground)
    } else if background_asked(words) {
        Some(RunMode::Background)
    } else {
        so_far
    }
}

/// Whether both modes are asked for.
spec fn modes_conflict(so_far: Option<RunMode>, words: Seq<ArgumentView>) -> bool {
    (so_far == Some(RunMode::Foreground) || foreground_asked(words)) && (so_far == Some(
        RunMode::Background,
    ) || background_asked(words))
}

proof fn lemma_alarm_literals()
    ensures
        "--dry-run"@ != "--foreground"@,
        "--dry-run"@ != "-f"@,
        "--dry-run"@ != "--background"@,
        "--dry-run"@ != "-b"@,
        "--foreground"@ != "--background"@,
        "--foreground"@ != "-b"@,
        "-f"@ != "--background"@,
        "-f"@ != "-b"@,
        "--timezone"@ != "--dry-run"@,
        "--timezone"@ != "--foreground"@,
        "--timezone"@ != "--background"@,
        "--timezone"@ != "-f"@,
        "--timezone"@ != "-b"@,
{
    reveal_strlit("--dry-run");
    reveal_strlit("--foreground");
    reveal_strlit("-f");
    reveal_strlit("--background");
    reveal_strlit("-b");
    reveal_strlit("--timezone");
    assert("--dry-run"@.len() == 9);
    assert("--foreground"@.len() == 12);
    assert("-f"@.len() == 2);
    assert("--background"@.len() == 12);
    assert("-b"@.len() == 2);
    assert("--timezone"@.len() == 10);
    assert("--foreground"@[2] == 'f' && "--background"@[2] == 'b');
    assert("-f"@[1] == 'f' && "-b"@[1] == 'b');
}

proof fn lemma_asked_step(first: ArgumentView, rest: Seq<ArgumentView>)
    ensures
        preview_asked(seq![first] + rest) <==> asks_preview(first) || preview_asked(rest),
        foreground_asked(seq![first] + rest) <==> asks_foreground(first) || foreground_asked(rest),
        background_asked(seq![first] + rest) <==> asks_background(first) || background_asked(rest),
        plain_words(seq![first] + rest) == if asks_preview(first) || asks_foreground(first)
            || asks_background(first) {
            plain_words(rest)
        } else {
            seq![first.text] + plain_words(rest)
        },
{
    let words = seq![first] + rest;
    assert(words[0] == first);
    assert forall|i: int| 0 <= i < rest.len() implies words[i + 1] == #[trigger] rest[i] by {}
    assert forall|i: int| 0 < i < words.len() implies #[trigger] words[i] == rest[i - 1] by {}
    let p = |word: ArgumentView|
        !asks_preview(word) && !asks_foreground(word) && !asks_background(word);
    let said = |word: ArgumentView| word.text;
    text::lemma_filter_first(first, rest, p);
    assert((seq![first] + rest.filter(p)).map_values(said) =~= seq![first.text] + rest.filter(
        p,
    ).map_values(said));
    if preview_asked(rest) {
        let i = choose|i: int| 0 <= i < rest.len() && asks_preview(#[trigger] rest[i]);
        assert(asks_preview(words[i + 1]));
    }
    if foreground_asked(rest) {
        let i = choose|i: int| 0 <= i < rest.len() && asks_foreground(#[trigger] rest[i]);
        assert(asks_foreground(words[i + 1]));
    }
    if background_asked(rest) {
        let i = choose|i: int| 0 <= i < rest.len() && asks_background(#[trigger] rest[i]);
        assert(asks_background(words[i + 1]));
    }
}

proof fn lemma_nothing_asked(words: Seq<ArgumentView>)
    requires
        words.len() == 0,
    ensures
        plain_words(words) == Seq::<Seq<char>>::empty(),
{
    reveal(Seq::filter);
}

/// What words without the name of a time zone say.
proof fn lemma_alarm_words(words: Seq<ArgumentView>, so_far: AlarmWords)
    requires
        forall|i: int| 0 <= i < words.len() ==> !names_timezone(#[trigger] words[i]),
    ensures
        alarm_words(words, so_far) == if modes_conflict(so_far.mode_override, words) {
            Err::<AlarmWords, Seq<char>>(
                "cannot pass both foreground and background mode flags"@,
            )
        } else {
            Ok(
                AlarmWords {
                    dry_run: so_far.dry_run || preview_asked(words),
                    mode_override: mode_asked(so_far.mode_override, words),
                    timezone_override: so_far.timezone_override,
                    parts: so_far.parts + plain_words(words),
                },
            )
        },
    decreases words.len(),
{
    lemma_alarm_literals();
    if words.len() == 0 {
        lemma_nothing_asked(words);
        assert(so_far.parts + Seq::<Seq<char>>::empty() =~= so_far.parts);
    } else {
        let (first, rest) = (words[0], words.skip(1));
        assert(words =~= seq![first] + rest);
        assert(!names_timezone(words[0]));
        assert forall|i: int| 0 <= i < rest.len() implies !names_timezone(#[trigger] rest[i]) by {
            assert(rest[i] == words[i + 1]);
        }
        lemma_asked_step(first, rest);
        if rest.len() == 0 {
            lemma_nothing_asked(rest);
        }
        match alarm_word(first.text) {
            AlarmWord::DryRun => lemma_alarm_words(rest, AlarmWords { dry_run: true, ..so_far }),
            AlarmWord::Mode(mode) => {
                let other = match mode {
                    RunMode::Foreground => RunMode::Background,
                    RunMode::Background => RunMode::Foreground,
                };
                assert(so_far.mode_override is Some && so_far.mode_override != Some(mode)
                    ==> so_far.mode_override == Some(other));
                lemma_alarm_words(rest, AlarmWords { mode_override: Some(mode), ..so_far });
            },
            AlarmWord::Timezone => {
                assert(names_timezone(first));
            },
            AlarmWord::Part => {
                lemma_alarm_words(
                    rest,
                    AlarmWords { parts: so_far.parts.push(first.text), ..so_far },
                );
                assert(so_far.parts.push(first.text) + plain_words(rest) =~= so_far.parts + (seq![
                    first.text,
                ] + plain_words(rest)));
            },
        }
    }
}

/// An alarm command without the name of a time zone is asked for a preview if one of its words asks
/// for it, and for a mode if one of its words does, wherever they stand. Its input is all the other
/// words, in order and with single spaces between them. Both modes together are refused, and so is a
/// command without other words.
pub proof fn law_alarm_command(words: Seq<ArgumentView>)
    requires
        forall|i: int| 0 <= i < words.len() ==> !names_timezone(#[trigger] words[i]),
    ensures
        if foreground_asked(words) && background_asked(words) {
            alarm_command(words) == Err::<CommandView, Seq<char>>(
                "cannot pass both foreground and background mode flags"@,
            )
        } else if plain_words(words).len() == 0 {
            alarm_command(words) is Err
        } else {
            alarm_command(words) == Ok::<CommandView, Seq<char>>(
                CommandView::Alarm {
                    spec_text: text::joined(plain_words(words), " "@),
                    dry_run: preview_asked(words),
                    timezone_override: None,
                    mode_override: if foreground_asked(words) {
                        Some(RunMode::Foreground)
                    } else if background_asked(words) {
                        Some(RunMode::Background)
                    } else {
                        None
                    },
                },
            )
        },
{
    lemma_alarm_words(words, no_alarm_words());
    assert(Seq::<Seq<char>>::empty() + plain_words(words) =~= plain_words(words));
}

proof fn lemma_alarm_words_of_two(
    front: Seq<ArgumentView>,
    back: Seq<ArgumentView>,
    so_far: AlarmWords,
)
    requires
        forall|i: int| 0 <= i < front.len() ==> !names_timezone(#[trigger] front[i]),
    ensures
        alarm_words(front + back, so_far) == match alarm_words(front, so_far) {
            Ok(said) => alarm_words(back, said),
            Err(refusal) => Err(refusal),
        },
    decreases front.len(),
{
    lemma_alarm_literals();
    if front.len() == 0 {
        assert(front + back =~= back);
    } else {
        let (first, rest) = (front[0], front.skip(1));
        assert(!names_timezone(front[0]));
        assert forall|i: int| 0 <= i < rest.len() implies !names_timezone(#[trigger] rest[i]) by {
            assert(rest[i] == front[i + 1]);
        }
        assert((front + back)[0] == first);
        assert((front + back).skip(1) =~= rest + back);
        match alarm_word(first.text) {
            AlarmWord::DryRun => lemma_alarm_words_of_two(
                rest,
                back,
                AlarmWords { dry_run: true, ..so_far },
            ),
            AlarmWord::Mode(mode) => lemma_alarm_words_of_two(
                rest,
                back,
                AlarmWords { mode_override: Some(mode), ..so_far },
            ),
            AlarmWord::Timezone => {},
            AlarmWord::Part => lemma_alarm_words_of_two(
                rest,
                back,
                AlarmWords { parts: so_far.parts.push(first.text), ..so_far },
            ),
        }
    }
}

/// The name of a time zone may stand anywhere on an alarm command and adds itself alone: the command
/// is otherwise the one without it. Without a name behind it the word for it is refused.
pub proof fn law_timezone_stands_anywhere(
    front: Seq<ArgumentView>,
    word: ArgumentView,
    name: ArgumentView,
    back: Seq<ArgumentView>,
)
    requires
        names_timezone(word),
        forall|i: int| 0 <= i < front.len() ==> !names_timezone(#[trigger] front[i]),
        forall|i: int| 0 <= i < back.len() ==> !names_timezone(#[trigger] back[i]),
    ensures
        alarm_command(front + (seq![word, name] + back)) == match alarm_command(front + back) {
            Ok(CommandView::Alarm { spec_text, dry_run, timezone_override, mode_override }) => Ok::<
                CommandView,
                Seq<char>,
            >(
                CommandView::Alarm {
                    spec_text,
                    dry_run,
                    timezone_override: Some(name.text),
                    mode_override,
                },
            ),
            other => other,
        },
        alarm_command(front + seq![word]) is Err,
{
    lemma_alarm_literals();
    let none = no_alarm_words();
    lemma_alarm_words_of_two(front, seq![word, name] + back, none);
    lemma_alarm_words_of_two(front, back, none);
    lemma_alarm_words_of_two(front, seq![word], none);
    lemma_alarm_words(front, none);
    match alarm_words(front, none) {
        Ok(said) => {
            let named = AlarmWords { timezone_override: Some(name.text), ..said };
            let words = seq![word, name] + back;
            assert(words[0] == word && words[1] == name);
            assert(words.skip(2) =~= back);
            assert(alarm_words(words, said) == alarm_words(back, named));
            lemma_alarm_words(back, said);
            lemma_alarm_words(back, named);
        },
        Err(_) => {},
    }
}

/// The first word of a command line decides what is read, and without a word for a command it is an
/// alarm that all the words together spell.
pub proof fn law_first_word_decides(first: ArgumentView, rest: Seq<ArgumentView>)
    ensures
        command_reading(Seq::empty()) == Ok::<CommandView, Seq<char>>(CommandView::Help),
        ({
            let answer = command_reading(seq![first] + rest);
            &&& first.text == "--help"@ || first.text == "-h"@ ==> answer == Ok::<
                CommandView,
                Seq<char>,
            >(CommandView::Help)
            &&& first.text == "status"@ ==> answer == Ok::<CommandView, Seq<char>>(
                CommandView::Status,
            )
            &&& first.text == "config"@ ==> answer == config_command(rest)
            &&& first.text == "stop"@ ==> answer == stop_command(rest)
            &&& first.text == "volume"@ ==> answer == volume_command(rest)
            &&& first.text == "__worker"@ ==> answer == worker_command(rest)
            &&& first.text != "--help"@ && first.text != "-h"@ && first.text != "status"@
                && first.text != "config"@ && first.text != "stop"@ && first.text != "volume"@
                && first.text != "__worker"@ ==> answer == alarm_command(seq![first] + rest)
        }),
{
    reveal_strlit("__worker");
    reveal_strlit("--help");
    reveal_strlit("-h");
    reveal_strlit("config");
    reveal_strlit("status");
    reveal_strlit("stop");
    reveal_strlit("volume");
    assert("__worker"@.len() == 8);
    assert("--help"@.len() == 6);
    assert("-h"@.len() == 2);
    assert("config"@.len() == 6);
    assert("status"@.len() == 6);
    assert("stop"@.len() == 4);
    assert("volume"@.len() == 6);
    assert("--help"@[0] == '-' && "config"@[0] == 'c' && "status"@[0] == 's' && "volume"@[0]
        == 'v');
    assert((seq![first] + rest)[0] == first);
    assert((seq![first] + rest).skip(1) =~= rest);
}

/// Without arguments no alarm in particular is to be stopped; `--all` and `all` stand for all of
/// them, and any other argument for the one that it selects. More arguments are refused.
pub proof fn law_stop_commands(first: ArgumentView, rest: Seq<ArgumentView>)
    ensures
        stop_command(Seq::empty()) == Ok::<CommandView, Seq<char>>(
            CommandView::Stop { selector: None, all: false },
        ),
        first.text == "--all"@ || first.text == "all"@ ==> stop_command(seq![first]) == Ok::<
            CommandView,
            Seq<char>,
        >(CommandView::Stop { selector: None, all: true }),
        first.text != "--all"@ && first.text != "all"@ ==> stop_command(seq![first]) == Ok::<
            CommandView,
            Seq<char>,
        >(CommandView::Stop { selector: Some(first.text), all: false }),
        rest.len() > 0 ==> stop_command(seq![first] + rest) is Err,
{
}

/// The settings are made, shown and located by one word each, and changed by a key and a value, no
/// more and no less.
pub proof fn law_config_commands(
    first: ArgumentView,
    key: ArgumentView,
    value: ArgumentView,
    rest: Seq<ArgumentView>,
)
    ensures
        config_command(Seq::empty()) is Err,
        first.text == "init"@ ==> config_command(seq![first] + rest) == Ok::<
            CommandView,
            Seq<char>,
        >(CommandView::ConfigInit),
        first.text == "show"@ ==> config_command(seq![first] + rest) == Ok::<
            CommandView,
            Seq<char>,
        >(CommandView::ConfigShow),
        first.text == "path"@ ==> config_command(seq![first] + rest) == Ok::<
            CommandView,
            Seq<char>,
        >(CommandView::ConfigPath),
        first.text == "set"@ ==> {
            &&& config_command(seq![first, key, value]) == Ok::<CommandView, Seq<char>>(
                CommandView::ConfigSet { key: key.text, value },
            )
            &&& config_command(seq![first]) is Err
            &&& config_command(seq![first, key]) is Err
            &&& rest.len() > 0 ==> config_command(seq![first, key, value] + rest) is Err
        },
        first.text != "init"@ && first.text != "show"@ && first.text != "path"@ && first.text
            != "set"@ ==> config_command(seq![first] + rest) is Err,
{
    reveal_strlit("init");
    reveal_strlit("show");
    reveal_strlit("path");
    reveal_strlit("set");
    assert("init"@.len() == 4 && "show"@.len() == 4 && "path"@.len() == 4 && "set"@.len() == 3);
    assert("init"@[0] == 'i' && "show"@[0] == 's' && "path"@[0] == 'p');
    assert((seq![first] + rest)[0] == first);
    assert((seq![first, key, value] + rest)[0] == first);
}

/// A worker that is told no more than its alarm, its target and its volume never stops by itself,
/// has no sound file, and notifies with all there is for as long as it takes.
pub proof fn law_worker_defaults(
    words: Seq<ArgumentView>,
    target_utc: UtcTime,
    volume: Volume,
)
    requires
        words.len() == 6,
        words[0].text == "--alarm-id"@,
        words[2].text == "--target-utc"@,
        words[4].text == "--volume"@,
        calendar::utc_reading(words[3].text) == Ok::<UtcTime, Seq<char>>(target_utc),
        config::volume_reading(words[5].number) == Ok::<Volume, Seq<char>>(volume),
    ensures
        worker_command(words) == Ok::<CommandView, Seq<char>>(
            CommandView::Worker {
                alarm_id: words[1].text,
                target_utc,
                auto_stop_seconds: 0,
                volume,
                sound_file: None,
                notifications: AlarmNotificationConfig {
                    enabled: true,
                    clickable: true,
                    timeout_ms: 0,
                    show_stop_button: true,
                },
            },
        ),
{
    reveal_strlit("--alarm-id");
    reveal_strlit("--target-utc");
    reveal_strlit("--auto-stop-seconds");
    reveal_strlit("--volume");
    assert("--alarm-id"@.len() == 10);
    assert("--target-utc"@.len() == 12);
    assert("--auto-stop-seconds"@.len() == 19);
    assert("--volume"@.len() == 8);
    let (w1, w2) = (words.skip(2), words.skip(4));
    assert(words.skip(2).skip(2) =~= w2);
    assert(w1[0] == words[2] && w1[1] == words[3]);
    assert(w2[0] == words[4] && w2[1] == words[5]);
    assert(w2.skip(2).len() == 0);
    reveal_with_fuel(worker_words, 4);
}

/// A worker needs its alarm, its target and its volume: without one of them it is refused.
pub proof fn law_worker_needs(words: Seq<ArgumentView>)
    requires
        is_flag_list(words),
    ensures
        (exists|flag: WorkerFlag|
            {
                &&& flag == WorkerFlag::AlarmId || flag == WorkerFlag::TargetUtc || flag
                    == WorkerFlag::Volume
                &&& flag_pairs(words).filter(#[trigger] of_flag(flag)).len() == 0
            }) ==> worker_command(words) is Err,
{
    law_last_value_counts(words);
    if exists|flag: WorkerFlag|
        {
            &&& flag == WorkerFlag::AlarmId || flag == WorkerFlag::TargetUtc || flag
                == WorkerFlag::Volume
            &&& flag_pairs(words).filter(#[trigger] of_flag(flag)).len() == 0
        } {
        let flag = choose|flag: WorkerFlag|
            {
                &&& flag == WorkerFlag::AlarmId || flag == WorkerFlag::TargetUtc || flag
                    == WorkerFlag::Volume
                &&& flag_pairs(words).filter(#[trigger] of_flag(flag)).len() == 0
            };
        assert(last_value(flag_pairs(words), flag) is None);
    }
}

/// The views of a list of arguments are those of its items, one for one.
pub proof fn law_arguments(list: Seq<Argument>, i: int)
    requires
        0 <= i < list.len(),
    ensures
        arguments(list).len() == list.len(),
        arguments(list)[i].text == list[i].text@,
        arguments(list)[i].number == list[i].number,
{
}

/// The words of a volume command: `show` shows it whatever follows, `set` needs a value, and `test`
/// alone tests the volume that is set.
pub proof fn law_volume_words(word: ArgumentView, rest: Seq<ArgumentView>)
    ensures
        word.text == "show"@ ==> volume_command(seq![word] + rest) == Ok::<CommandView, Seq<char>>(
            CommandView::VolumeShow,
        ),
        word.text == "set"@ ==> volume_command(seq![word]) is Err,
        word.text == "test"@ ==> volume_command(seq![word]) == Ok::<CommandView, Seq<char>>(
            CommandView::VolumeTest { volume_override: None },
        ),
{
    reveal_strlit("show");
    reveal_strlit("set");
    reveal_strlit("test");
    assert("show"@.len() == 4 && "set"@.len() == 3 && "test"@.len() == 4);
    assert("show"@[0] == 's' && "test"@[0] == 't');
    assert((seq![word] + rest)[0] == word);
}

/// The flags of a worker are these and no others.
pub proof fn law_worker_flags(word: Seq<char>)
    ensures
        worker_flag(word) == Some(WorkerFlag::AlarmId) <==> word == "--alarm-id"@,
        worker_flag(word) == Some(WorkerFlag::TargetUtc) <==> word == "--target-utc"@,
        worker_flag(word) == Some(WorkerFlag::AutoStopSeconds) <==> word == "--auto-stop-seconds"@,
        worker_flag(word) == Some(WorkerFlag::Volume) <==> word == "--volume"@,
        worker_flag(word) == Some(WorkerFlag::SoundFile) <==> word == "--sound-file"@,
        worker_flag(word) == Some(WorkerFlag::NotificationsEnabled) <==> word
            == "--notifications-enabled"@,
        worker_flag(word) == Some(WorkerFlag::NotificationsClickable) <==> word
            == "--notifications-clickable"@,
        worker_flag(word) == Some(WorkerFlag::NotificationsTimeoutMs) <==> word
            == "--notifications-timeout-ms"@,
        worker_flag(word) == Some(WorkerFlag::NotificationsShowStopButton) <==> word
            == "--notifications-show-stop-button"@,
{
    reveal_strlit("--alarm-id");
    reveal_strlit("--target-utc");
    reveal_strlit("--auto-stop-seconds");
    reveal_strlit("--volume");
    reveal_strlit("--sound-file");
    reveal_strlit("--notifications-enabled");
    reveal_strlit("--notifications-clickable");
    reveal_strlit("--notifications-timeout-ms");
    reveal_strlit("--notifications-show-stop-button");
    assert("--alarm-id"@.len() == 10);
    assert("--target-utc"@.len() == 12);
    assert("--auto-stop-seconds"@.len() == 19);
    assert("--volume"@.len() == 8);
    assert("--sound-file"@.len() == 12);
    assert("--notifications-enabled"@.len() == 23);
    assert("--notifications-clickable"@.len() == 25);
    assert("--notifications-timeout-ms"@.len() == 26);
    assert("--notifications-show-stop-button"@.len() == 32);
    assert("--sound-file"@[2] == 's' && "--target-utc"@[2] == 't');
}

/// Words of a worker that are not all flags with an argument behind each are refused.
pub proof fn law_stray_worker_words_are_refused(words: Seq<ArgumentView>)
    ensures
        !is_flag_list(words) ==> worker_command(words) is Err,
        is_flag_list(words) && !all_taken(flag_pairs(words)) ==> worker_command(words) is Err,
{
    law_worker_line_is_flags(words);
    if is_flag_list(words) {
        law_last_value_counts(words);
    }
}

/// Whether a text with a unit behind it reads as `u64::MAX` whole seconds and more.
pub open spec fn reads_past_seconds(text: Seq<char>, unit: Seq<char>) -> bool {
    wording::duration_reading(text + unit) matches Some(span) && span.0 == u64::MAX && span.1 > 0
}

/// An input can be read unless its duration has 14 digits or more and a front part of it, with
/// another number behind it, reads as `u64::MAX` whole seconds, or one with a fraction behind it
/// reads as more than that.
pub proof fn law_readable_inputs(input: Seq<char>)
    ensures
        wording::duration_digits(input) < 14 ==> readable_input(input),
        !readable_input(input) ==> {
            let text = wording::duration_part(wording::normalized(input));
            exists|at: int|
                {
                    &&& 0 <= at < text.len()
                    &&& {
                        ||| '0' <= #[trigger] text[at] <= '9' && (wording::duration_reading(
                            text.take(at),
                        ) matches Some(span) && span.0 == u64::MAX)
                        ||| text[at] == '.' && (reads_past_seconds(text.take(at), "s"@)
                            || reads_past_seconds(text.take(at), "m"@) || reads_past_seconds(
                            text.take(at),
                            "ms"@,
                        ) || reads_past_seconds(text.take(at), "us"@))
                    }
                }
        },
{
    let text = wording::duration_part(wording::normalized(input));
    if !readable_input(input) {
        let at = choose|at: int| 0 <= at < text.len() && !#[trigger] wording::leaves_room(text, at);
        if text[at] == '.' {
            let k = choose|k: int|
                0 <= k < wording::fraction_units().len() && wording::exceeds_seconds(
                    text.take(at) + #[trigger] wording::fraction_units()[k],
                );
            assert(reads_past_seconds(text.take(at), wording::fraction_units()[k]));
        }
        assert(text[at] == text[at]);
    }
}

/// Of several names of time zones on an alarm command the last one counts.
pub proof fn law_last_timezone_counts(
    front: Seq<ArgumentView>,
    first: ArgumentView,
    earlier: ArgumentView,
    middle: Seq<ArgumentView>,
    second: ArgumentView,
    later: ArgumentView,
    back: Seq<ArgumentView>,
)
    requires
        names_timezone(first),
        names_timezone(second),
        forall|i: int| 0 <= i < front.len() ==> !names_timezone(#[trigger] front[i]),
        forall|i: int| 0 <= i < middle.len() ==> !names_timezone(#[trigger] middle[i]),
        forall|i: int| 0 <= i < back.len() ==> !names_timezone(#[trigger] back[i]),
    ensures
        alarm_command(
            front + (seq![first, earlier] + (middle + (seq![second, later] + back))),
        ) == alarm_command(front + (middle + (seq![second, later] + back))),
{
    lemma_alarm_literals();
    let none = no_alarm_words();
    let end = seq![second, later] + back;
    let rest = middle + end;
    let words = seq![first, earlier] + rest;
    lemma_alarm_words_of_two(front, words, none);
    lemma_alarm_words_of_two(front, rest, none);
    assert(end[0] == second && end[1] == later);
    assert(end.skip(2) =~= back);
    match alarm_words(front, none) {
        Ok(said) => {
            let named = AlarmWords { timezone_override: Some(earlier.text), ..said };
            assert(words[0] == first && words[1] == earlier);
            assert(words.skip(2) =~= rest);
            assert(alarm_words(words, said) == alarm_words(rest, named));
            lemma_alarm_words_of_two(middle, end, said);
            lemma_alarm_words_of_two(middle, end, named);
            lemma_alarm_words(middle, said);
            lemma_alarm_words(middle, named);
        },
        Err(_) => {},
    }
}

} // verus!
