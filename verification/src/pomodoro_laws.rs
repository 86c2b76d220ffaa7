//! What holds of the pomodoro timer across its operations.
use vstd::prelude::*;
use crate::text::decimal;
use crate::pomodoro::{
    clock_text, tick_outcome, two_digits, Tick,
    after_phase, compensated, counted, catches_up, initial_state, paused, phase_seconds, reset_state,
    restored_result, resumed, started, PomodoroPhase, PomodoroState, LONG_BREAK_DURATION, POMODOROS_BEFORE_LONG_BREAK,
    SHORT_BREAK_DURATION, WORK_DURATION,
};

verus! {

/// The seconds left never exceed the length of the phase.
pub open spec fn within_phase(s: PomodoroState) -> bool {
    s.remaining_seconds <= s.total_seconds
}

/// Every operation of the timer keeps the seconds left within the length of
/// the phase, starting from the initial state.
pub proof fn law_timer_stays_within_phase(s: PomodoroState, task: String, now: i64)
    requires
        within_phase(s),
    ensures
        within_phase(started(s, task, now)),
        within_phase(paused(s, now)),
        within_phase(resumed(s, now)),
        within_phase(reset_state(s)),
        s.remaining_seconds > 0 ==> within_phase(counted(s, now)),
        within_phase(after_phase(s, now)),
        within_phase(compensated(s, now)),
{
}

/// The initial state is within its phase.
pub proof fn law_initial_within_phase(s: PomodoroState)
    requires
        initial_state(s),
    ensures
        within_phase(s),
{
}

/// When a focus session ends, the count of sessions goes up by one, and a
/// break follows: a long one after every fourth session, a short one
/// otherwise; the break starts full and the timer keeps running.
pub proof fn law_focus_session_ends_in_break(s: PomodoroState, now: i64)
    requires
        s.phase == PomodoroPhase::Working,
        s.completed_count < u32::MAX,
    ensures
        ({
            let n = after_phase(s, now);
            &&& n.completed_count == s.completed_count + 1
            &&& n.phase == (if (s.completed_count + 1) % (POMODOROS_BEFORE_LONG_BREAK as int) == 0 {
                PomodoroPhase::LongBreak
            } else {
                PomodoroPhase::ShortBreak
            })
            &&& n.remaining_seconds == n.total_seconds
            &&& n.total_seconds == (if n.phase == PomodoroPhase::LongBreak {
                LONG_BREAK_DURATION
            } else {
                SHORT_BREAK_DURATION
            })
            &&& n.is_running
            &&& n.associated_task == s.associated_task
        }),
{
}

/// When a break ends, a full focus session follows, and the count of
/// sessions stays.
pub proof fn law_break_ends_in_focus(s: PomodoroState, now: i64)
    requires
        s.phase == PomodoroPhase::ShortBreak || s.phase == PomodoroPhase::LongBreak,
    ensures
        after_phase(s, now).phase == PomodoroPhase::Working,
        after_phase(s, now).remaining_seconds == WORK_DURATION,
        after_phase(s, now).total_seconds == WORK_DURATION,
        after_phase(s, now).completed_count == s.completed_count,
        after_phase(s, now).is_running,
{
}

/// A second of a running phase takes exactly one second off it and changes
/// nothing else but the time of the last save.
pub proof fn law_second_counts_down(s: PomodoroState, now: i64)
    requires
        s.remaining_seconds > 0,
    ensures
        counted(s, now).remaining_seconds == s.remaining_seconds - 1,
        counted(s, now) == (PomodoroState {
            remaining_seconds: counted(s, now).remaining_seconds,
            last_sync_epoch: now,
            ..s
        }),
{
}

/// Pausing and then resuming a timer gives it back as it was, but for the
/// time of the last save.
pub proof fn law_pause_then_resume(s: PomodoroState, paused_at: i64, resumed_at: i64)
    requires
        s.is_running,
    ensures
        resumed(paused(s, paused_at), resumed_at) == (PomodoroState {
            last_sync_epoch: resumed_at,
            ..s
        }),
{
}

/// A reset gives the initial state, but keeps the count of finished sessions.
pub proof fn law_reset_keeps_count(s: PomodoroState, fresh: PomodoroState)
    requires
        initial_state(fresh),
    ensures
        reset_state(s) == (PomodoroState { completed_count: s.completed_count, ..fresh }),
{
}

/// Bringing a loaded timer up to date never adds time, changes nothing but
/// the seconds left and whether it runs, and stops it only at zero.
pub proof fn law_catching_up_only_takes_time_off(s: PomodoroState, now: i64)
    ensures
        compensated(s, now).remaining_seconds <= s.remaining_seconds,
        compensated(s, now) == (PomodoroState {
            remaining_seconds: compensated(s, now).remaining_seconds,
            is_running: compensated(s, now).is_running,
            ..s
        }),
        catches_up(s) && !compensated(s, now).is_running ==> compensated(s, now).remaining_seconds
            == 0,
        !catches_up(s) ==> compensated(s, now) == s,
{
}

/// A loaded timer that was not running, or carries no time of its last
/// save, is restored exactly as it was saved, whatever the time.
pub proof fn law_idle_timer_restores_as_saved(s: PomodoroState, now: i64)
    requires
        !catches_up(s),
    ensures
        restored_result(s, now) == Some(s),
{
}

/// A phase that runs out of seconds is recorded as the phase that ended,
/// breaks as breaks and focus sessions as focus sessions, with the minutes
/// of its whole length; the timer then runs on in another phase (an idle
/// timer stays idle).
pub proof fn law_phase_end_records_its_own_phase(
    s: PomodoroState,
    sync_counter: u32,
    now: i64,
    now_text: String,
    res: Tick,
)
    requires
        tick_outcome(s, sync_counter, now, now_text, res),
        s.is_running,
        s.remaining_seconds == 0,
    ensures
        res matches Tick::PhaseDone { record, next } && record.phase == s.phase
            && record.duration_minutes == s.total_seconds / 60 && record.timestamp == now_text
            && (s.phase != PomodoroPhase::Idle ==> next.phase != s.phase),
{
}

/// A running timer counts one second down at a time, keeping its phase,
/// and asks for a save on every thirtieth second it counts; a stopped timer
/// counts nothing.
pub proof fn law_tick_counts_one_second(
    s: PomodoroState,
    sync_counter: u32,
    now: i64,
    now_text: String,
    res: Tick,
)
    requires
        tick_outcome(s, sync_counter, now, now_text, res),
        s.is_running ==> s.remaining_seconds > 0,
    ensures
        !s.is_running ==> res is Stopped,
        s.is_running ==> (res matches Tick::Counted { next, sync_counter: c, save }
            && next.remaining_seconds + 1 == s.remaining_seconds && next.phase == s.phase
            && next.total_seconds == s.total_seconds && next.is_running
            && next.completed_count == s.completed_count && next.last_sync_epoch == now
            && save == (sync_counter + 1 >= 30) && c == (if save { 0 } else { sync_counter + 1 })),
{
}

/// A loaded running timer loses exactly the seconds since its last save:
/// while they are fewer than the seconds left, it keeps running with that
/// many seconds less; once they reach the seconds left, it stops at zero;
/// a save time in the future takes nothing off.
pub proof fn law_catching_up_takes_off_the_elapsed_time(s: PomodoroState, now: i64)
    requires
        s.is_running,
        s.last_sync_epoch > 0,
    ensures
        0 <= now - s.last_sync_epoch < s.remaining_seconds ==> {
            &&& compensated(s, now).remaining_seconds == s.remaining_seconds - (now
                - s.last_sync_epoch)
            &&& compensated(s, now).is_running
        },
        s.remaining_seconds <= now - s.last_sync_epoch <= u32::MAX ==> {
            &&& compensated(s, now).remaining_seconds == 0
            &&& !compensated(s, now).is_running
        },
        now <= s.last_sync_epoch && s.remaining_seconds > 0 ==> compensated(s, now) == s,
{
}

/// A focus session starts full: a running focus phase of 25 minutes with
/// all its seconds left, keeping the count of finished sessions.
pub proof fn law_focus_starts_full(s: PomodoroState, task: String, now: i64)
    ensures
        started(s, task, now).phase == PomodoroPhase::Working,
        started(s, task, now).total_seconds == 1500,
        started(s, task, now).remaining_seconds == started(s, task, now).total_seconds,
        started(s, task, now).is_running,
        started(s, task, now).completed_count == s.completed_count,
        started(s, task, now).last_sync_epoch == now,
{
}

/// The character of the decimal digit `d`.
pub open spec fn digit_char(d: nat) -> char {
    (48 + d) as char
}

/// Each part of the clock is padded to two digits only below ten.
pub proof fn law_parts_padded_below_ten(n: nat)
    ensures
        n < 10 ==> two_digits(n) == seq![48u8, (48 + n) as u8],
        10 <= n ==> two_digits(n) == decimal(n),
        n < 100 ==> two_digits(n).len() == 2,
{
    reveal_with_fuel(decimal, 2);
}

/// Below a hundred minutes the clock is five characters: two digits of
/// minutes, a colon, two digits of seconds.
pub proof fn law_clock_text_digits(seconds: nat)
    requires
        seconds < 6000,
    ensures
        ({
            let m = seconds / 60;
            let r = seconds % 60;
            clock_text(seconds) == seq![
                digit_char(m / 10),
                digit_char(m % 10),
                ':',
                digit_char(r / 10),
                digit_char(r % 10),
            ]
        }),
{
    let m = seconds / 60;
    let r = seconds % 60;
    reveal_with_fuel(decimal, 2);
    assert(two_digits(m) =~= seq![(48 + m / 10) as u8, (48 + m % 10) as u8]);
    assert(two_digits(r) =~= seq![(48 + r / 10) as u8, (48 + r % 10) as u8]);
    let bytes = two_digits(m) + seq![58u8] + two_digits(r);
    assert(clock_text(seconds) =~= seq![
        digit_char(m / 10),
        digit_char(m % 10),
        ':',
        digit_char(r / 10),
        digit_char(r % 10),
    ]);
}

/// The lengths of the phases.
pub proof fn law_phase_lengths()
    ensures
        phase_seconds(PomodoroPhase::Working) == 1500,
        phase_seconds(PomodoroPhase::ShortBreak) == 300,
        phase_seconds(PomodoroPhase::LongBreak) == 900,
{
}

} // verus!
