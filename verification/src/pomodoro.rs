//! The pomodoro timer: focus sessions and breaks, counted one second at a time.
use vstd::prelude::*;
use vstd::string::*;
use crate::text::{all_ascii, ascii_chars, ascii_string, decimal, lemma_decimal_digits, push_decimal};

verus! {

/// Seconds of a focus session.
pub const WORK_DURATION: u32 = 25 * 60;

/// Seconds of a short break.
pub const SHORT_BREAK_DURATION: u32 = 5 * 60;

/// Seconds of a long break.
pub const LONG_BREAK_DURATION: u32 = 15 * 60;

/// Focus sessions between two long breaks.
pub const POMODOROS_BEFORE_LONG_BREAK: u32 = 4;

/// How many counted seconds pass between two saves of a running timer.
pub const SECONDS_BETWEEN_SAVES: u32 = 30;

#[derive(Clone, Copy, PartialEq, Eq, Structural, Debug)]
pub enum PomodoroPhase {
    Idle,
    Working,
    ShortBreak,
    LongBreak,
}

impl PomodoroPhase {
    /// The name of the phase on the timer.
    pub fn label(&self) -> (res: &'static str)
        ensures
            res@ == (match self {
                PomodoroPhase::Idle => "就绪"@,
                PomodoroPhase::Working => "专注中"@,
                PomodoroPhase::ShortBreak => "短休息"@,
                PomodoroPhase::LongBreak => "长休息"@,
            }),
    {
        match self {
            PomodoroPhase::Idle => "就绪",
            PomodoroPhase::Working => "专注中",
            PomodoroPhase::ShortBreak => "短休息",
            PomodoroPhase::LongBreak => "长休息",
        }
    }

    /// The style class of the timer card in the phase.
    pub fn card_class(&self) -> (res: &'static str)
        ensures
            res@ == (match self {
                PomodoroPhase::Idle => "timer-card"@,
                PomodoroPhase::Working => "timer-card pomodoro-working"@,
                PomodoroPhase::ShortBreak => "timer-card pomodoro-short-break"@,
                PomodoroPhase::LongBreak => "timer-card pomodoro-long-break"@,
            }),
    {
        match self {
            PomodoroPhase::Idle => "timer-card",
            PomodoroPhase::Working => "timer-card pomodoro-working",
            PomodoroPhase::ShortBreak => "timer-card pomodoro-short-break",
            PomodoroPhase::LongBreak => "timer-card pomodoro-long-break",
        }
    }

    /// The style class of a history entry of the phase.
    pub fn history_class(&self) -> (res: &'static str)
        ensures
            res@ == (match self {
                PomodoroPhase::Working => "history-state working"@,
                PomodoroPhase::ShortBreak => "history-state shortbreak"@,
                PomodoroPhase::LongBreak => "history-state longbreak"@,
                PomodoroPhase::Idle => "history-state"@,
            }),
    {
        match self {
            PomodoroPhase::Working => "history-state working",
            PomodoroPhase::ShortBreak => "history-state shortbreak",
            PomodoroPhase::LongBreak => "history-state longbreak",
            PomodoroPhase::Idle => "history-state",
        }
    }

    /// The name of the phase in the history.
    pub fn history_label(&self) -> (res: &'static str)
        ensures
            res@ == (match self {
                PomodoroPhase::Working => "专注"@,
                PomodoroPhase::ShortBreak => "短休"@,
                PomodoroPhase::LongBreak => "长休"@,
                PomodoroPhase::Idle => ""@,
            }),
    {
        match self {
            PomodoroPhase::Working => "专注",
            PomodoroPhase::ShortBreak => "短休",
            PomodoroPhase::LongBreak => "长休",
            PomodoroPhase::Idle => "",
        }
    }
}

/// The timer of one user.
#[derive(Clone, PartialEq, Debug)]
pub struct PomodoroState {
    pub phase: PomodoroPhase,
    pub remaining_seconds: u32,
    pub total_seconds: u32,
    pub completed_count: u32,
    pub is_running: bool,
    pub associated_task: Option<String>,
    pub last_sync_epoch: i64,
}

/// A finished phase, as the history keeps it.
#[derive(Clone, PartialEq, Debug)]
pub struct PomodoroRecord {
    pub timestamp: String,
    pub phase: PomodoroPhase,
    pub duration_minutes: u32,
    pub task_name: String,
}

/// The counts that the timer page shows.
#[derive(Clone, PartialEq, Debug)]
pub struct PomodoroStats {
    pub today_count: u32,
    pub total_count: u32,
    pub today_focus_minutes: u32,
}

impl Default for PomodoroStats {
    fn default() -> (res: Self)
        ensures
            res.today_count == 0,
            res.total_count == 0,
            res.today_focus_minutes == 0,
    {
        PomodoroStats { today_count: 0, total_count: 0, today_focus_minutes: 0 }
    }
}

/// The state in which a timer starts, and to which a reset returns.
pub open spec fn initial_state(s: PomodoroState) -> bool {
    &&& s.phase == PomodoroPhase::Idle
    &&& s.remaining_seconds == 0
    &&& s.total_seconds == WORK_DURATION
    &&& s.completed_count == 0
    &&& !s.is_running
    &&& s.associated_task is None
    &&& s.last_sync_epoch == 0
}

impl Default for PomodoroState {
    fn default() -> (res: Self)
        ensures
            initial_state(res),
    {
        PomodoroState {
            phase: PomodoroPhase::Idle,
            remaining_seconds: 0,
            total_seconds: WORK_DURATION,
            completed_count: 0,
            is_running: false,
            associated_task: None,
            last_sync_epoch: 0,
        }
    }
}

/// What the timer page offers to do.
#[derive(Clone, Copy, PartialEq, Eq, Structural, Debug)]
pub enum Controls {
    /// Start a focus session.
    Start,
    /// Pause the running timer, or reset it.
    PauseOrReset,
    /// Resume the paused timer, or reset it.
    ResumeOrReset,
}

/// What one second of a running timer does.
pub enum Tick {
    /// The timer is not running; the loop that counts seconds ends.
    Stopped,
    /// The phase has ended: its record is kept, and the timer goes on in the
    /// next phase; this state is saved at once.
    PhaseDone { record: PomodoroRecord, next: PomodoroState },
    /// A second was counted; `save` says whether to save the state now.
    Counted { next: PomodoroState, sync_counter: u32, save: bool },
}

/// The phase after `phase` ends, once `completed` focus sessions are done.
pub open spec fn next_phase(phase: PomodoroPhase, completed: u32) -> PomodoroPhase {
    match phase {
        PomodoroPhase::Working => if completed % POMODOROS_BEFORE_LONG_BREAK == 0 {
            PomodoroPhase::LongBreak
        } else {
            PomodoroPhase::ShortBreak
        },
        PomodoroPhase::ShortBreak => PomodoroPhase::Working,
        PomodoroPhase::LongBreak => PomodoroPhase::Working,
        PomodoroPhase::Idle => PomodoroPhase::Idle,
    }
}

/// The length in seconds of a phase that starts.
pub open spec fn phase_seconds(phase: PomodoroPhase) -> u32 {
    match phase {
        PomodoroPhase::Working => WORK_DURATION,
        PomodoroPhase::ShortBreak => SHORT_BREAK_DURATION,
        PomodoroPhase::LongBreak => LONG_BREAK_DURATION,
        PomodoroPhase::Idle => 0,
    }
}

/// The state after the phase of `s` has ended, at time `now`.
pub open spec fn after_phase(s: PomodoroState, now: i64) -> PomodoroState {
    let completed = if s.phase == PomodoroPhase::Working {
        (s.completed_count + 1) as u32
    } else {
        s.completed_count
    };
    let phase = next_phase(s.phase, completed);
    PomodoroState {
        phase,
        remaining_seconds: if s.phase == PomodoroPhase::Idle {
            s.remaining_seconds
        } else {
            phase_seconds(phase)
        },
        total_seconds: if s.phase == PomodoroPhase::Idle {
            s.total_seconds
        } else {
            phase_seconds(phase)
        },
        completed_count: completed,
        is_running: true,
        associated_task: s.associated_task,
        last_sync_epoch: now,
    }
}

/// The timer after a focus session starts at `now` on `task`.
pub open spec fn started(s: PomodoroState, task: String, now: i64) -> PomodoroState {
    PomodoroState {
        phase: PomodoroPhase::Working,
        remaining_seconds: WORK_DURATION,
        total_seconds: WORK_DURATION,
        completed_count: s.completed_count,
        is_running: true,
        associated_task: if task@.len() == 0 {
            None
        } else {
            Some(task)
        },
        last_sync_epoch: now,
    }
}

pub open spec fn paused(s: PomodoroState, now: i64) -> PomodoroState {
    PomodoroState { is_running: false, last_sync_epoch: now, ..s }
}

pub open spec fn resumed(s: PomodoroState, now: i64) -> PomodoroState {
    PomodoroState { is_running: true, last_sync_epoch: now, ..s }
}

pub open spec fn reset_state(s: PomodoroState) -> PomodoroState {
    PomodoroState {
        phase: PomodoroPhase::Idle,
        remaining_seconds: 0,
        total_seconds: WORK_DURATION,
        completed_count: s.completed_count,
        is_running: false,
        associated_task: None,
        last_sync_epoch: 0,
    }
}

/// The timer after one more second of its phase has passed at `now`.
pub open spec fn counted(s: PomodoroState, now: i64) -> PomodoroState {
    PomodoroState { remaining_seconds: (s.remaining_seconds - 1) as u32, last_sync_epoch: now, ..s }
}

/// The seconds that have passed since the last save, as the `u32` that the
/// timer counts them in (a difference beyond `u32::MAX` wraps).
pub open spec fn elapsed_since(s: PomodoroState, now: i64) -> u32 {
    let d = now - s.last_sync_epoch;
    (if d > 0 {
        d
    } else {
        0
    }) as u32
}

/// Whether a loaded timer was running when it was saved, so that the time
/// since then is taken off it.
pub open spec fn catches_up(s: PomodoroState) -> bool {
    s.is_running && s.last_sync_epoch > 0
}

/// A loaded timer brought up to time `now`: the seconds since it was saved
/// are taken off a running timer, which stops at zero.
pub open spec fn compensated(s: PomodoroState, now: i64) -> PomodoroState {
    if catches_up(s) {
        let elapsed = elapsed_since(s, now);
        if elapsed >= s.remaining_seconds {
            PomodoroState { remaining_seconds: 0, is_running: false, ..s }
        } else {
            PomodoroState { remaining_seconds: (s.remaining_seconds - elapsed) as u32, ..s }
        }
    } else {
        s
    }
}

/// What one second does to the timer `s`, at time `now` (as `now_text` for
/// a record): it stops a timer that is not running; it ends a phase with no
/// second left, keeping its record; otherwise it counts the second, and asks
/// for a save every `SECONDS_BETWEEN_SAVES` seconds.
pub open spec fn tick_outcome(s: PomodoroState, sync_counter: u32, now: i64, now_text: String, res: Tick) -> bool {
    &&& !s.is_running ==> res is Stopped
    &&& s.is_running && s.remaining_seconds == 0 ==> match res {
        Tick::PhaseDone { record, next } => {
            &&& record.timestamp == now_text
            &&& record.phase == s.phase
            &&& record.duration_minutes == s.total_seconds / 60
            &&& record.task_name@ == (match s.associated_task {
                Some(t) => t@,
                None => no_task_name(),
            })
            &&& next == after_phase(s, now)
        },
        _ => false,
    }
    &&& s.is_running && s.remaining_seconds > 0 ==> match res {
        Tick::Counted { next, sync_counter: c, save } => {
            &&& next == counted(s, now)
            &&& save == (sync_counter + 1 >= SECONDS_BETWEEN_SAVES)
            &&& c == (if save {
                0
            } else {
                sync_counter + 1
            })
        },
        _ => false,
    }
}

/// What `restored_at` gives for the timer `s` at time `now`.
pub open spec fn restored_result(s: PomodoroState, now: i64) -> Option<PomodoroState> {
    if catches_up(s) && now - s.last_sync_epoch < i64::MIN {
        None
    } else {
        Some(compensated(s, now))
    }
}

/// The text of a number of seconds as minutes and seconds, `MM:SS`, each
/// part with at least two digits.
pub open spec fn two_digits(n: nat) -> Seq<u8> {
    if n < 10 {
        seq![48u8] + decimal(n)
    } else {
        decimal(n)
    }
}

pub open spec fn clock_text(seconds: nat) -> Seq<char> {
    ascii_chars(two_digits(seconds / 60) + seq![58u8] + two_digits(seconds % 60))
}

fn push_two_digits(buf: &mut Vec<u8>, n: u32)
    ensures
        final(buf)@ == old(buf)@ + two_digits(n as nat),
{
    if n < 10 {
        buf.push(48u8);
    }
    push_decimal(buf, n as u64);
    assert(final(buf)@ =~= old(buf)@ + two_digits(n as nat));
}

/// Seconds shown as `MM:SS`.
pub fn format_time(seconds: u32) -> (res: String)
    ensures
        res@ == clock_text(seconds as nat),
{
    let mut bytes = Vec::new();
    push_two_digits(&mut bytes, seconds / 60);
    bytes.push(58u8);
    push_two_digits(&mut bytes, seconds % 60);
    proof {
        let a = two_digits((seconds / 60) as nat);
        let b = two_digits((seconds % 60) as nat);
        lemma_decimal_digits((seconds / 60) as nat);
        lemma_decimal_digits((seconds % 60) as nat);
        assert(bytes@ =~= a + seq![58u8] + b);
        assert forall|i: int| 0 <= i < bytes@.len() implies #[trigger] bytes@[i] < 128 by {
            let x = seq![48u8] + decimal((seconds / 60) as nat);
            let y = seq![48u8] + decimal((seconds % 60) as nat);
            if i < a.len() {
                assert(bytes@[i] == a[i]);
                if (seconds / 60) < 10 && i > 0 {
                    assert(a[i] == decimal((seconds / 60) as nat)[i - 1]);
                }
            } else if i > a.len() {
                assert(bytes@[i] == b[i - a.len() - 1]);
                if (seconds % 60) < 10 && i > a.len() + 1 {
                    assert(b[i - a.len() - 1] == decimal((seconds % 60) as nat)[i - a.len() - 2]);
                }
            }
        }
    }
    ascii_string(bytes.as_slice())
}

/// Wraps `chrono::Utc::now().timestamp()`: the current time in seconds since
/// the Unix epoch, read from the system clock; nothing is promised of it.
#[verifier::external_body]
fn now_epoch() -> i64 {
    chrono::Utc::now().timestamp()
}

/// Wraps `chrono::Utc::now().format("%Y-%m-%d %H:%M")`: the current time as
/// text, read from the system clock; nothing is promised of it.
#[verifier::external_body]
fn now_iso() -> String {
    chrono::Utc::now().format("%Y-%m-%d %H:%M").to_string()
}

fn copy_task(task: &Option<String>) -> (res: Option<String>)
    ensures
        res == *task,
{
    match task {
        Some(t) => Some(t.clone()),
        None => None,
    }
}

/// The name that a record gives a session with no task.
pub open spec fn no_task_name() -> Seq<char> {
    "无任务"@
}

impl PomodoroState {
    /// The timer after a focus session starts at `now`, on `task` if it is
    /// not empty; the count of finished sessions stays.
    pub fn start(&self, task: String, now: i64) -> (res: PomodoroState)
        ensures
            res == started(*self, task, now),
    {
        let associated = if task.as_str().is_empty() {
            None
        } else {
            Some(task)
        };
        PomodoroState {
            phase: PomodoroPhase::Working,
            remaining_seconds: WORK_DURATION,
            total_seconds: WORK_DURATION,
            completed_count: self.completed_count,
            is_running: true,
            associated_task: associated,
            last_sync_epoch: now,
        }
    }

    /// The timer paused at `now`.
    pub fn pause(self, now: i64) -> (res: PomodoroState)
        ensures
            res == paused(self, now),
    {
        PomodoroState { is_running: false, last_sync_epoch: now, ..self }
    }

    /// The timer resumed at `now`.
    pub fn resume(self, now: i64) -> (res: PomodoroState)
        ensures
            res == resumed(self, now),
    {
        PomodoroState { is_running: true, last_sync_epoch: now, ..self }
    }

    /// The timer reset: the initial state, but with the count of finished
    /// sessions kept.
    pub fn reset(&self) -> (res: PomodoroState)
        ensures
            res == reset_state(*self),
    {
        let d = PomodoroState::default();
        PomodoroState { completed_count: self.completed_count, ..d }
    }

    /// What the next second does to a timer. `sync_counter` counts the
    /// seconds since the state was last saved; `now` and `now_text` are the
    /// time of the second.
    pub fn tick(&self, sync_counter: u32, now: i64, now_text: String) -> (res: Tick)
        requires
            sync_counter < u32::MAX,
            self.is_running && self.remaining_seconds == 0 && self.phase == PomodoroPhase::Working
                ==> self.completed_count < u32::MAX,
        ensures
            tick_outcome(*self, sync_counter, now, now_text, res),
    {
        if !self.is_running {
            return Tick::Stopped;
        }
        if self.remaining_seconds == 0 {
            let completed_phase = self.phase;
            let task_name = match &self.associated_task {
                Some(t) => t.clone(),
                None => "无任务".to_owned(),
            };
            let record = PomodoroRecord {
                timestamp: now_text,
                phase: completed_phase,
                duration_minutes: self.total_seconds / 60,
                task_name,
            };
            let completed = if completed_phase == PomodoroPhase::Working {
                self.completed_count + 1
            } else {
                self.completed_count
            };
            let (phase, remaining, total) = match completed_phase {
                PomodoroPhase::Working => {
                    if completed % POMODOROS_BEFORE_LONG_BREAK == 0 {
                        (PomodoroPhase::LongBreak, LONG_BREAK_DURATION, LONG_BREAK_DURATION)
                    } else {
                        (PomodoroPhase::ShortBreak, SHORT_BREAK_DURATION, SHORT_BREAK_DURATION)
                    }
                },
                PomodoroPhase::ShortBreak | PomodoroPhase::LongBreak => {
                    (PomodoroPhase::Working, WORK_DURATION, WORK_DURATION)
                },
                PomodoroPhase::Idle => (PomodoroPhase::Idle, self.remaining_seconds, self.total_seconds),
            };
            let next = PomodoroState {
                phase,
                remaining_seconds: remaining,
                total_seconds: total,
                completed_count: completed,
                is_running: true,
                associated_task: copy_task(&self.associated_task),
                last_sync_epoch: now,
            };
            return Tick::PhaseDone { record, next };
        }
        let next = PomodoroState {
            remaining_seconds: self.remaining_seconds - 1,
            last_sync_epoch: now,
            associated_task: copy_task(&self.associated_task),
            ..*self
        };
        let counted = sync_counter + 1;
        if counted >= SECONDS_BETWEEN_SAVES {
            Tick::Counted { next, sync_counter: 0, save: true }
        } else {
            Tick::Counted { next, sync_counter: counted, save: false }
        }
    }

    /// A loaded timer brought up to time `now`.
    pub fn compensate(self, now: i64) -> (res: PomodoroState)
        requires
            catches_up(self) ==> now - self.last_sync_epoch >= i64::MIN,
        ensures
            res == compensated(self, now),
    {
        if self.is_running && self.last_sync_epoch > 0 {
            let d = now - self.last_sync_epoch;
            let elapsed: u32 = (if d > 0 {
                d
            } else {
                0
            }) as u32;
            if elapsed >= self.remaining_seconds {
                PomodoroState { remaining_seconds: 0, is_running: false, ..self }
            } else {
                let left = self.remaining_seconds - elapsed;
                PomodoroState { remaining_seconds: left, ..self }
            }
        } else {
            self
        }
    }

    /// A loaded timer brought up to time `now`: `None` where the timer has to
    /// catch up and `now` and the saved time are so far apart that their
    /// difference does not fit an `i64`; otherwise the timer caught up.
    pub fn restored_at(self, now: i64) -> (res: Option<PomodoroState>)
        ensures
            res == restored_result(self, now),
    {
        if self.is_running && self.last_sync_epoch > 0 && now < i64::MIN + self.last_sync_epoch {
            None
        } else {
            Some(self.compensate(now))
        }
    }

    /// A loaded timer brought up to the present, read from the clock when the
    /// timer was running (see `restored_at`).
    pub fn restored(self) -> (res: Option<PomodoroState>)
        ensures
            !catches_up(self) ==> res == Some(self),
            res is None ==> catches_up(self),
            catches_up(self) ==> exists|now: i64|
                res == #[trigger] restored_result(self, now),
    {
        if self.is_running && self.last_sync_epoch > 0 {
            let now = now_epoch();
            let r = self.restored_at(now);
            assert(r == restored_result(self, now));
            r
        } else {
            Some(self)
        }
    }

    /// The time that the timer shows: a whole focus session while idle, the
    /// seconds left otherwise.
    pub fn timer_text(&self) -> (res: String)
        ensures
            res@ == clock_text(
                (if self.phase == PomodoroPhase::Idle {
                    WORK_DURATION
                } else {
                    self.remaining_seconds
                }) as nat,
            ),
    {
        if self.phase == PomodoroPhase::Idle {
            format_time(WORK_DURATION)
        } else {
            format_time(self.remaining_seconds)
        }
    }

    /// `start` at the present time, read from the clock.
    pub fn start_now(&self, task: String) -> (res: PomodoroState)
        ensures
            exists|now: i64| res == #[trigger] started(*self, task, now),
    {
        let now = now_epoch();
        self.start(task, now)
    }

    /// `pause` at the present time, read from the clock.
    pub fn pause_now(self) -> (res: PomodoroState)
        ensures
            exists|now: i64| res == #[trigger] paused(self, now),
    {
        let now = now_epoch();
        self.pause(now)
    }

    /// `resume` at the present time, read from the clock.
    pub fn resume_now(self) -> (res: PomodoroState)
        ensures
            exists|now: i64| res == #[trigger] resumed(self, now),
    {
        let now = now_epoch();
        self.resume(now)
    }

    /// `tick` at the present time, read from the clock (and written as text
    /// only when a phase ends).
    pub fn tick_now(&self, sync_counter: u32) -> (res: Tick)
        requires
            sync_counter < u32::MAX,
            self.is_running && self.remaining_seconds == 0 && self.phase == PomodoroPhase::Working
                ==> self.completed_count < u32::MAX,
        ensures
            exists|now: i64, now_text: String| #[trigger] tick_outcome(*self, sync_counter, now, now_text, res),
    {
        let now_text = if self.is_running && self.remaining_seconds == 0 {
            now_iso()
        } else {
            String::new()
        };
        let now = now_epoch();
        let res = self.tick(sync_counter, now, now_text);
        assert(tick_outcome(*self, sync_counter, now, now_text, res));
        res
    }

    /// What the page offers to do with the timer.
    pub fn controls(&self) -> (res: Controls)
        ensures
            res == (if self.phase == PomodoroPhase::Idle {
                Controls::Start
            } else if self.is_running {
                Controls::PauseOrReset
            } else {
                Controls::ResumeOrReset
            }),
    {
        if self.phase == PomodoroPhase::Idle {
            Controls::Start
        } else if self.is_running {
            Controls::PauseOrReset
        } else {
            Controls::ResumeOrReset
        }
    }
}

} // verus!
