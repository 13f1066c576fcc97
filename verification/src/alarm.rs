//! The course of one alarm: the wait for its target, its ringing, and its notification.
use vstd::prelude::*;
use vstd::string::*;

use crate::calendar::{self, TimeSpan, UtcTime};
use crate::text;
use crate::types::{AlarmAudioConfig, AlarmNotificationConfig, AppResult};

verus! {

/// How long a wait is at most, in nanoseconds, by the time that is left: the nearer the target, the
/// shorter.
pub open spec fn wait_slice(left: int) -> int {
    if left > 300_000_000_000 {
        30_000_000_000
    } else if left > 30_000_000_000 {
        5_000_000_000
    } else if left > 5_000_000_000 {
        1_000_000_000
    } else {
        200_000_000
    }
}

/// Finds how long a wait is at most.
pub fn next_wait_slice(remaining: TimeSpan) -> (r: TimeSpan)
    requires
        remaining.wf(),
    ensures
        r.wf(),
        r.total() == wait_slice(remaining.total()),
{
    if !TimeSpan::from_secs(300).at_least(&remaining) {
        TimeSpan::from_secs(30)
    } else if !TimeSpan::from_secs(30).at_least(&remaining) {
        TimeSpan::from_secs(5)
    } else if !TimeSpan::from_secs(5).at_least(&remaining) {
        TimeSpan::from_secs(1)
    } else {
        TimeSpan::from_millis(200)
    }
}

/// The smaller of two numbers.
pub open spec fn smaller(a: int, b: int) -> int {
    if b < a {
        b
    } else {
        a
    }
}

/// How long to wait before looking again: no longer than a slice, than the time between two
/// drawings of a display and than the time that is left.
pub open spec fn wait_time(left: int, refresh: Option<int>) -> int {
    match refresh {
        Some(interval) => smaller(smaller(wait_slice(left), interval), left),
        None => smaller(wait_slice(left), left),
    }
}

/// What to do while an alarm is waited for.
#[derive(Clone, Copy, Debug, PartialEq, Eq, Structural)]
pub enum WaitStep {
    /// The wait is over.
    Finish,
    /// Draw the display and look again after a time.
    Wait(TimeSpan),
}

/// Decides what to do while an alarm is waited for. The wait is over once it was stopped or the
/// target has come.
pub fn wait_step(stopped: bool, now: UtcTime, target: UtcTime, refresh: Option<TimeSpan>) -> (r:
    WaitStep)
    requires
        now.wf(),
        target.wf(),
        refresh matches Some(interval) ==> interval.wf(),
    ensures
        match r {
            WaitStep::Finish => stopped || !now.before(target),
            WaitStep::Wait(timeout) => {
                &&& !stopped && now.before(target)
                &&& timeout.wf()
                &&& timeout.total() == wait_time(
                    calendar::remaining(now, target),
                    match refresh {
                        Some(interval) => Some(interval.total()),
                        None => None,
                    },
                )
            },
        },
{
    if stopped || !now.is_before(&target) {
        return WaitStep::Finish;
    }
    let remaining = calendar::time_left(now, target);
    let coarse = next_wait_slice(remaining);
    match refresh {
        Some(interval) => WaitStep::Wait(coarse.shorter(interval).shorter(remaining)),
        None => WaitStep::Wait(coarse.shorter(remaining)),
    }
}

/// A wait never lasts longer than the time that is left, and it lasts some time. The one exception
/// to the latter is a wait from inside a leap second that ends a day, for a target that follows
/// within a second: no time is left between the two.
pub proof fn law_wait_ends_in_time(now: UtcTime, target: UtcTime, refresh: Option<int>)
    requires
        now.wf(),
        target.wf(),
        now.before(target),
        refresh matches Some(interval) ==> interval > 0,
    ensures
        wait_time(calendar::remaining(now, target), refresh) <= calendar::remaining(now, target),
        wait_time(calendar::remaining(now, target), refresh) > 0 <==> {
            ||| now.nanos < calendar::NANOS_PER_SEC
            ||| target.secs != now.secs + 1
            ||| calendar::second_of_day(target) != 0
            ||| now.nanos - calendar::NANOS_PER_SEC < target.nanos % calendar::NANOS_PER_SEC
        },
{
}

/// What ended a wait.
#[derive(Clone, Copy, Debug, PartialEq, Eq, Structural)]
pub enum Wake {
    /// Something asked for a look.
    Woken,
    /// The time was over.
    TimedOut,
    /// Nothing can ask for a look any more.
    Disconnected,
}

/// Whether to look again after a wait.
pub fn goes_on(wake: Wake) -> (r: bool)
    ensures
        r == (wake != Wake::Disconnected),
{
    match wake {
        Wake::Woken | Wake::TimedOut => true,
        Wake::Disconnected => false,
    }
}

/// What to do after the wait for an alarm.
#[derive(Debug)]
pub struct SessionPlan {
    /// What is to be printed, if anything.
    pub message: Option<&'static str>,
    /// Whether a notification is to be sent.
    pub notify: bool,
    /// Whether the alarm is to ring.
    pub ring: bool,
}

/// Decides what to do after the wait for an alarm: an alarm that was stopped does not ring, and
/// only one without a terminal notifies.
pub fn after_wait(stopped: bool, log_events: bool, detached: bool) -> (r: SessionPlan)
    ensures
        r.ring == !stopped,
        r.notify == (!stopped && detached),
        match r.message {
            Some(message) => log_events && message@ == if stopped {
                "alarm cancelled before trigger."@
            } else {
                "alarm ringing. press ctrl-c to stop."@
            },
            None => !log_events,
        },
{
    let message = if !log_events {
        None
    } else if stopped {
        Some("alarm cancelled before trigger.")
    } else {
        Some("alarm ringing. press ctrl-c to stop.")
    };
    SessionPlan { message, notify: !stopped && detached, ring: !stopped }
}

/// The time between two looks at an alarm that rings, in milliseconds.
pub const RING_LOOK_MS: u64 = 200;

/// What to do while an alarm rings.
#[derive(Clone, Copy, Debug, PartialEq, Eq, Structural)]
pub enum RingStep {
    /// The alarm was stopped.
    Finish,
    /// The alarm has rung for as long as it may.
    AutoStop,
    /// The alarm goes on ringing.
    Ring,
}

/// What to do while an alarm rings that has rung for a time, in nanoseconds. An alarm that stops by
/// itself after no time never does.
pub open spec fn ring_step_at(stopped: bool, elapsed: int, auto_stop_seconds: u64) -> RingStep {
    if stopped {
        RingStep::Finish
    } else if auto_stop_seconds > 0 && elapsed >= auto_stop_seconds * 1_000_000_000 {
        RingStep::AutoStop
    } else {
        RingStep::Ring
    }
}

/// Decides what to do while an alarm rings.
pub fn ring_step(stopped: bool, elapsed: TimeSpan, auto_stop_seconds: u64) -> (r: RingStep)
    requires
        elapsed.wf(),
    ensures
        r == ring_step_at(stopped, elapsed.total(), auto_stop_seconds),
{
    if stopped {
        RingStep::Finish
    } else if auto_stop_seconds > 0 && elapsed.at_least(&TimeSpan::from_secs(auto_stop_seconds)) {
        RingStep::AutoStop
    } else {
        RingStep::Ring
    }
}

/// An alarm goes on ringing until it is stopped, if it does not stop by itself, and otherwise until
/// its time is over and no longer.
pub proof fn law_ringing_ends(elapsed: int, auto_stop_seconds: u64)
    requires
        elapsed >= 0,
    ensures
        ring_step_at(true, elapsed, auto_stop_seconds) == RingStep::Finish,
        ring_step_at(false, elapsed, 0) == RingStep::Ring,
        auto_stop_seconds > 0 ==> (ring_step_at(false, elapsed, auto_stop_seconds)
            == RingStep::Ring <==> elapsed < auto_stop_seconds * 1_000_000_000),
{
}

/// What is printed when an alarm stops by itself.
pub fn auto_stop_message(auto_stop_seconds: u64) -> (r: String)
    ensures
        r@ == "alarm auto-stopped after "@ + text::decimal(auto_stop_seconds as int) + "s."@,
{
    let count = text::decimal_text(auto_stop_seconds);
    text::concat3("alarm auto-stopped after ", count.as_str(), "s.")
}

/// What makes the sound of an alarm.
#[derive(Debug)]
pub enum AlarmPlayer {
    /// A sound file that is played over and over.
    CustomSound { sound_file: String },
    /// A short tone that is played again whenever it has ended.
    TonePulse,
    /// The bell of the terminal, which rings again at a time since the alarm began to ring.
    BellOnly { next_pulse_at: TimeSpan },
}

/// The view of an `AlarmPlayer`.
#[verifier::ext_equal]
pub enum PlayerView {
    CustomSound { sound_file: Seq<char> },
    TonePulse,
    BellOnly { next_pulse_at: TimeSpan },
}

impl View for AlarmPlayer {
    type V = PlayerView;

    open spec fn view(&self) -> PlayerView {
        match *self {
            AlarmPlayer::CustomSound { sound_file } => {
                PlayerView::CustomSound { sound_file: sound_file@ }
            },
            AlarmPlayer::TonePulse => PlayerView::TonePulse,
            AlarmPlayer::BellOnly { next_pulse_at } => PlayerView::BellOnly { next_pulse_at },
        }
    }
}

/// What is to be played next.
#[derive(Debug)]
pub enum Sound {
    /// The sound file of the given name.
    File(String),
    /// The tone.
    Tone,
    /// The bell of the terminal.
    Bell,
    /// Nothing.
    Nothing,
}

/// The view of a `Sound`.
#[verifier::ext_equal]
pub enum SoundView {
    File(Seq<char>),
    Tone,
    Bell,
    Nothing,
}

impl View for Sound {
    type V = SoundView;

    open spec fn view(&self) -> SoundView {
        match *self {
            Sound::File(sound_file) => SoundView::File(sound_file@),
            Sound::Tone => SoundView::Tone,
            Sound::Bell => SoundView::Bell,
            Sound::Nothing => SoundView::Nothing,
        }
    }
}

impl AlarmPlayer {
    /// The player of an alarm where a sound device is there: the sound file, or the tone if there
    /// is none.
    pub fn new(audio: &AlarmAudioConfig) -> (r: AlarmPlayer)
        ensures
            r@ == match text::optional_text(audio.sound_file) {
                Some(sound_file) => PlayerView::CustomSound { sound_file },
                None => PlayerView::TonePulse,
            },
    {
        match &audio.sound_file {
            Some(sound_file) => AlarmPlayer::CustomSound { sound_file: sound_file.clone() },
            None => AlarmPlayer::TonePulse,
        }
    }

    /// The player of an alarm where no sound device is there: the bell, which rings at once.
    pub fn bell_only() -> (r: AlarmPlayer)
        ensures
            r@ == (PlayerView::BellOnly { next_pulse_at: TimeSpan { secs: 0, nanos: 0 } }),
    {
        AlarmPlayer::BellOnly { next_pulse_at: TimeSpan { secs: 0, nanos: 0 } }
    }

    /// What is to be played when the alarm begins to ring.
    pub fn start_ringing(&self) -> (r: Sound)
        ensures
            r@ == match self@ {
                PlayerView::CustomSound { sound_file } => SoundView::File(sound_file),
                PlayerView::TonePulse => SoundView::Tone,
                PlayerView::BellOnly { .. } => SoundView::Nothing,
            },
    {
        match self {
            AlarmPlayer::CustomSound { sound_file } => Sound::File(sound_file.clone()),
            AlarmPlayer::TonePulse => Sound::Tone,
            AlarmPlayer::BellOnly { .. } => Sound::Nothing,
        }
    }

    /// Falls back to the tone after a sound file could not be played, and says what is to be played
    /// instead.
    pub fn fall_back(&mut self) -> (r: Sound)
        ensures
            final(self)@ == match old(self)@ {
                PlayerView::CustomSound { .. } => PlayerView::TonePulse,
                other => other,
            },
            r@ == match old(self)@ {
                PlayerView::CustomSound { .. } => SoundView::Tone,
                _ => SoundView::Nothing,
            },
    {
        match self {
            AlarmPlayer::CustomSound { .. } => {
                *self = AlarmPlayer::TonePulse;
                Sound::Tone
            },
            _ => Sound::Nothing,
        }
    }

    /// What is to be played at a look at the alarm, a time after it began to ring: the tone if it
    /// has ended, and the bell once a second.
    pub fn tick(&mut self, elapsed: TimeSpan, silent: bool) -> (r: Sound)
        requires
            elapsed.wf(),
            elapsed.secs < u64::MAX,
            old(self)@ matches PlayerView::BellOnly { next_pulse_at } ==> next_pulse_at.wf(),
        ensures
            final(self)@ == match old(self)@ {
                PlayerView::BellOnly { next_pulse_at } => PlayerView::BellOnly {
                    next_pulse_at: if elapsed.total() >= next_pulse_at.total() {
                        TimeSpan { secs: (elapsed.secs + 1) as u64, nanos: elapsed.nanos }
                    } else {
                        next_pulse_at
                    },
                },
                other => other,
            },
            r@ == match old(self)@ {
                PlayerView::CustomSound { .. } => SoundView::Nothing,
                PlayerView::TonePulse => if silent {
                    SoundView::Tone
                } else {
                    SoundView::Nothing
                },
                PlayerView::BellOnly { next_pulse_at } => if elapsed.total()
                    >= next_pulse_at.total() {
                    SoundView::Bell
                } else {
                    SoundView::Nothing
                },
            },
    {
        match self {
            AlarmPlayer::CustomSound { .. } => Sound::Nothing,
            AlarmPlayer::TonePulse => {
                if silent {
                    Sound::Tone
                } else {
                    Sound::Nothing
                }
            },
            AlarmPlayer::BellOnly { next_pulse_at } => {
                if elapsed.at_least(next_pulse_at) {
                    *next_pulse_at = TimeSpan { secs: elapsed.secs + 1, nanos: elapsed.nanos };
                    Sound::Bell
                } else {
                    Sound::Nothing
                }
            },
        }
    }

    /// What is to be played for a test of the volume, where a test of the bell is one ring.
    pub fn start_test(&self) -> (r: Sound)
        ensures
            r@ == match self@ {
                PlayerView::CustomSound { sound_file } => SoundView::File(sound_file),
                PlayerView::TonePulse => SoundView::Tone,
                PlayerView::BellOnly { .. } => SoundView::Bell,
            },
    {
        match self {
            AlarmPlayer::CustomSound { sound_file } => Sound::File(sound_file.clone()),
            AlarmPlayer::TonePulse => Sound::Tone,
            AlarmPlayer::BellOnly { .. } => Sound::Bell,
        }
    }
}

/// How long a test of the volume lasts, in milliseconds, by what is played for it.
pub fn test_length_ms(sound: &Sound) -> (r: u64)
    ensures
        r == match sound@ {
            SoundView::File(_) => 2_000u64,
            SoundView::Tone => 900u64,
            SoundView::Bell => 0u64,
            SoundView::Nothing => 0u64,
        },
{
    match sound {
        Sound::File(_) => 2_000,
        Sound::Tone => 900,
        Sound::Bell | Sound::Nothing => 0,
    }
}

/// What came of a test of the volume.
#[derive(Debug)]
pub enum TestOutcome {
    Finished(AppResult<()>),
    TimedOut,
    Disconnected,
}

/// What is to be said of a test of the volume, and whether the bell of the terminal is to ring in
/// its place.
pub fn after_test(outcome: TestOutcome) -> (r: (bool, AppResult<()>))
    ensures
        match outcome {
            TestOutcome::Finished(result) => r == (false, result),
            TestOutcome::TimedOut => r == (true, Ok::<(), String>(())),
            TestOutcome::Disconnected => !r.0 && r.1 is Err && r.1->Err_0@
                == "volume test worker disconnected unexpectedly"@,
        },
{
    match outcome {
        TestOutcome::Finished(result) => (false, result),
        TestOutcome::TimedOut => (true, Ok(())),
        TestOutcome::Disconnected => (
            false,
            Err("volume test worker disconnected unexpectedly".to_string()),
        ),
    }
}

/// After what time a notification goes away.
#[derive(Clone, Copy, Debug, PartialEq, Eq, Structural)]
pub enum NotificationTimeout {
    Never,
    Milliseconds(u32),
}

/// After what time a notification goes away: never if none is set.
pub fn notification_timeout(timeout_ms: u32) -> (r: NotificationTimeout)
    ensures
        r == if timeout_ms == 0 {
            NotificationTimeout::Never
        } else {
            NotificationTimeout::Milliseconds(timeout_ms)
        },
{
    if timeout_ms == 0 {
        NotificationTimeout::Never
    } else {
        NotificationTimeout::Milliseconds(timeout_ms)
    }
}

/// The text of a notification.
pub open spec fn body_of(
    alarm_id: Option<Seq<char>>,
    clickable: bool,
    show_stop_button: bool,
) -> Seq<char> {
    match alarm_id {
        Some(id) => if clickable && show_stop_button {
            "alarm ringing. click or press stop or run tix stop "@ + id
        } else if clickable {
            "alarm ringing. click to stop or run tix stop "@ + id
        } else {
            "alarm ringing. run tix stop "@ + id
        },
        None => "alarm ringing"@,
    }
}

/// Writes the text of a notification.
pub fn notification_body(alarm_id: Option<&str>, clickable: bool, show_stop_button: bool) -> (r:
    String)
    ensures
        r@ == body_of(
            match alarm_id {
                Some(id) => Some(id@),
                None => None,
            },
            clickable,
            show_stop_button,
        ),
{
    match alarm_id {
        Some(id) => if clickable && show_stop_button {
            text::concat2("alarm ringing. click or press stop or run tix stop ", id)
        } else if clickable {
            text::concat2("alarm ringing. click to stop or run tix stop ", id)
        } else {
            text::concat2("alarm ringing. run tix stop ", id)
        },
        None => "alarm ringing".to_string(),
    }
}

/// What a desktop can do with a notification.
#[derive(Clone, Copy, Debug, PartialEq, Eq, Structural)]
pub enum Desktop {
    /// It shows actions and tells which of them was chosen.
    WithActions,
    /// It shows text alone.
    TextOnly,
}

/// How a background alarm notifies.
#[derive(Debug)]
pub struct NotificationPlan {
    pub body: String,
    pub timeout: NotificationTimeout,
    /// Whether the notification stays after an action was chosen.
    pub resident: bool,
    /// Whether a click stops the alarm.
    pub click_action: bool,
    /// Whether a button stops the alarm.
    pub stop_action: bool,
}

/// Plans the notification of a background alarm, if it notifies at all. Only a desktop with actions
/// is offered any, and the button goes with the click.
pub fn plan_notification(
    alarm_id: Option<&str>,
    notifications: AlarmNotificationConfig,
    desktop: Desktop,
) -> (r: Option<NotificationPlan>)
    ensures
        match r {
            Some(plan) => {
                let actions = desktop == Desktop::WithActions;
                &&& notifications.enabled
                &&& plan.body@ == body_of(
                    match alarm_id {
                        Some(id) => Some(id@),
                        None => None,
                    },
                    actions && notifications.clickable,
                    actions && notifications.show_stop_button,
                )
                &&& plan.timeout == if notifications.timeout_ms == 0 {
                    NotificationTimeout::Never
                } else {
                    NotificationTimeout::Milliseconds(notifications.timeout_ms)
                }
                &&& plan.resident == (actions && notifications.timeout_ms == 0)
                &&& plan.click_action == (actions && notifications.clickable)
                &&& plan.stop_action == (actions && notifications.clickable
                    && notifications.show_stop_button)
            },
            None => !notifications.enabled,
        },
{
    if !notifications.enabled {
        return None;
    }
    let actions = match desktop {
        Desktop::WithActions => true,
        Desktop::TextOnly => false,
    };
    let clickable = actions && notifications.clickable;
    let show_stop_button = actions && notifications.show_stop_button;
    Some(
        NotificationPlan {
            body: notification_body(alarm_id, clickable, show_stop_button),
            timeout: notification_timeout(notifications.timeout_ms),
            resident: actions && notifications.timeout_ms == 0,
            click_action: clickable,
            stop_action: clickable && show_stop_button,
        },
    )
}

/// Whether an action that was chosen stops the alarm: a click or the button.
pub fn action_stops(action: &str) -> (r: bool)
    ensures
        r == (action@ == "default"@ || action@ == "stop"@),
{
    text::same_text(action, "default") || text::same_text(action, "stop")
}

/// A wait lasts 30 seconds at most, 5 seconds within the last five minutes, one second within the
/// last 30 seconds, and a fifth of a second within the last five. It lasts no longer than the time
/// between two drawings nor than the time that is left, and as long as these allow.
pub proof fn law_wait_lengths(left: int, refresh: Option<int>)
    ensures
        ({
            let longest: int = if left <= 5_000_000_000 {
                200_000_000
            } else if left <= 30_000_000_000 {
                1_000_000_000
            } else if left <= 300_000_000_000 {
                5_000_000_000
            } else {
                30_000_000_000
            };
            let wait = wait_time(left, refresh);
            &&& wait <= longest && wait <= left
            &&& refresh matches Some(interval) ==> wait <= interval
            &&& wait == longest || wait == left || refresh == Some(wait)
        }),
{
}

/// What to do while an alarm rings depends on nothing but whether it was stopped and whether it has
/// rung for its time.
pub proof fn law_ring_steps(stopped: bool, elapsed: int, auto_stop_seconds: u64)
    ensures
        ring_step_at(stopped, elapsed, auto_stop_seconds) == RingStep::Finish <==> stopped,
        ring_step_at(stopped, elapsed, auto_stop_seconds) == RingStep::AutoStop <==> !stopped
            && auto_stop_seconds > 0 && elapsed >= auto_stop_seconds * 1_000_000_000,
{
}

/// A notification of a known alarm ends in the command that stops it, and names the click and the
/// button only where there are any. The button goes with the click.
pub proof fn law_notification_bodies(id: Seq<char>)
    ensures
        body_of(Some(id), true, true) == "alarm ringing. click or press stop or run tix stop "@ + id,
        body_of(Some(id), true, false) == "alarm ringing. click to stop or run tix stop "@ + id,
        body_of(Some(id), false, true) == "alarm ringing. run tix stop "@ + id,
        body_of(Some(id), false, false) == "alarm ringing. run tix stop "@ + id,
        forall|clickable: bool, button: bool| #[trigger]
            body_of(None, clickable, button) == "alarm ringing"@,
{
}

/// The views of a player and of a sound show all of them.
pub proof fn law_sound_views(name: String, at: TimeSpan)
    ensures
        (AlarmPlayer::CustomSound { sound_file: name })@ == (PlayerView::CustomSound {
            sound_file: name@,
        }),
        AlarmPlayer::TonePulse@ is TonePulse,
        (AlarmPlayer::BellOnly { next_pulse_at: at })@ == (PlayerView::BellOnly {
            next_pulse_at: at,
        }),
        Sound::File(name)@ == SoundView::File(name@),
        Sound::Tone@ is Tone,
        Sound::Bell@ is Bell,
        Sound::Nothing@ is Nothing,
{
}

} // verus!
