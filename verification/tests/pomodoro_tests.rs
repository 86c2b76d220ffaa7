use taskmanager::pomodoro::{
    format_time, Controls, PomodoroPhase, PomodoroState, PomodoroStats, Tick, LONG_BREAK_DURATION,
    SHORT_BREAK_DURATION, WORK_DURATION,
};

fn running(phase: PomodoroPhase, remaining: u32, total: u32, count: u32) -> PomodoroState {
    PomodoroState {
        phase,
        remaining_seconds: remaining,
        total_seconds: total,
        completed_count: count,
        is_running: true,
        associated_task: Some("write report".to_string()),
        last_sync_epoch: 100,
    }
}

#[test]
fn default_state_is_idle() {
    let s = PomodoroState::default();
    assert_eq!(s.phase, PomodoroPhase::Idle);
    assert_eq!(s.remaining_seconds, 0);
    assert_eq!(s.total_seconds, 1500);
    assert_eq!(s.completed_count, 0);
    assert!(!s.is_running);
    assert_eq!(s.associated_task, None);
    assert_eq!(s.last_sync_epoch, 0);
    assert_eq!(PomodoroStats::default(), PomodoroStats { today_count: 0, total_count: 0, today_focus_minutes: 0 });
}

#[test]
fn phase_texts() {
    assert_eq!(PomodoroPhase::Idle.label(), "就绪");
    assert_eq!(PomodoroPhase::Working.label(), "专注中");
    assert_eq!(PomodoroPhase::ShortBreak.label(), "短休息");
    assert_eq!(PomodoroPhase::LongBreak.label(), "长休息");
    assert_eq!(PomodoroPhase::Working.card_class(), "timer-card pomodoro-working");
    assert_eq!(PomodoroPhase::Idle.card_class(), "timer-card");
    assert_eq!(PomodoroPhase::LongBreak.history_class(), "history-state longbreak");
    assert_eq!(PomodoroPhase::Idle.history_class(), "history-state");
    assert_eq!(PomodoroPhase::ShortBreak.history_label(), "短休");
    assert_eq!(PomodoroPhase::Idle.history_label(), "");
}

#[test]
fn format_time_pads_minutes_and_seconds() {
    assert_eq!(format_time(0), "00:00");
    assert_eq!(format_time(1500), "25:00");
    assert_eq!(format_time(65), "01:05");
    assert_eq!(format_time(599), "09:59");
    assert_eq!(format_time(6000), "100:00");
}

#[test]
fn start_pause_resume_reset() {
    let s = PomodoroState { completed_count: 3, ..PomodoroState::default() };
    let started = s.start(String::new(), 50);
    assert_eq!(started.phase, PomodoroPhase::Working);
    assert_eq!(started.remaining_seconds, WORK_DURATION);
    assert_eq!(started.completed_count, 3);
    assert!(started.is_running);
    assert_eq!(started.associated_task, None);
    assert_eq!(started.last_sync_epoch, 50);
    let on_task = s.start("read notes".to_string(), 51);
    assert_eq!(on_task.associated_task, Some("read notes".to_string()));

    let paused = started.clone().pause(60);
    assert!(!paused.is_running);
    assert_eq!(paused.last_sync_epoch, 60);
    let resumed = paused.resume(70);
    assert_eq!(resumed, PomodoroState { last_sync_epoch: 70, ..started.clone() });

    let reset = resumed.reset();
    assert_eq!(reset, PomodoroState { completed_count: 3, ..PomodoroState::default() });
}

#[test]
fn tick_counts_down_and_saves_every_thirty_seconds() {
    let s = running(PomodoroPhase::Working, 10, WORK_DURATION, 0);
    match s.tick(5, 200, "t".to_string()) {
        Tick::Counted { next, sync_counter, save } => {
            assert_eq!(next.remaining_seconds, 9);
            assert_eq!(next.last_sync_epoch, 200);
            assert_eq!(sync_counter, 6);
            assert!(!save);
        }
        _ => panic!("counted"),
    }
    match s.tick(29, 201, "t".to_string()) {
        Tick::Counted { sync_counter, save, .. } => {
            assert_eq!(sync_counter, 0);
            assert!(save);
        }
        _ => panic!("counted"),
    }
    let stopped = PomodoroState { is_running: false, ..s };
    assert!(matches!(stopped.tick(0, 0, String::new()), Tick::Stopped));
}

#[test]
fn fourth_session_is_followed_by_a_long_break() {
    let s = running(PomodoroPhase::Working, 0, WORK_DURATION, 3);
    match s.tick(7, 300, "2024-01-01 10:00".to_string()) {
        Tick::PhaseDone { record, next } => {
            assert_eq!(record.timestamp, "2024-01-01 10:00");
            assert_eq!(record.phase, PomodoroPhase::Working);
            assert_eq!(record.duration_minutes, 25);
            assert_eq!(record.task_name, "write report");
            assert_eq!(next.completed_count, 4);
            assert_eq!(next.phase, PomodoroPhase::LongBreak);
            assert_eq!(next.remaining_seconds, LONG_BREAK_DURATION);
            assert_eq!(next.total_seconds, LONG_BREAK_DURATION);
            assert!(next.is_running);
            assert_eq!(next.last_sync_epoch, 300);
        }
        _ => panic!("phase done"),
    }
    let s = running(PomodoroPhase::Working, 0, WORK_DURATION, 0);
    match s.tick(0, 1, String::new()) {
        Tick::PhaseDone { next, .. } => {
            assert_eq!(next.phase, PomodoroPhase::ShortBreak);
            assert_eq!(next.remaining_seconds, SHORT_BREAK_DURATION);
            assert_eq!(next.completed_count, 1);
        }
        _ => panic!("phase done"),
    }
}

#[test]
fn break_is_followed_by_focus() {
    let mut s = running(PomodoroPhase::ShortBreak, 0, SHORT_BREAK_DURATION, 1);
    s.associated_task = None;
    match s.tick(0, 9, String::new()) {
        Tick::PhaseDone { record, next } => {
            assert_eq!(record.task_name, "无任务");
            assert_eq!(record.duration_minutes, 5);
            assert_eq!(next.phase, PomodoroPhase::Working);
            assert_eq!(next.remaining_seconds, WORK_DURATION);
            assert_eq!(next.completed_count, 1);
        }
        _ => panic!("phase done"),
    }
}

#[test]
fn compensate_takes_off_elapsed_time() {
    let s = running(PomodoroPhase::Working, 100, WORK_DURATION, 0);
    let later = s.clone().compensate(130);
    assert_eq!(later.remaining_seconds, 70);
    assert!(later.is_running);
    let much_later = s.clone().compensate(1000);
    assert_eq!(much_later.remaining_seconds, 0);
    assert!(!much_later.is_running);
    let clock_behind = s.clone().compensate(50);
    assert_eq!(clock_behind.remaining_seconds, 100);
    let paused = PomodoroState { is_running: false, ..s.clone() };
    assert_eq!(paused.clone().compensate(1000), paused);
    let never_saved = PomodoroState { last_sync_epoch: 0, ..s };
    assert_eq!(never_saved.clone().restored(), Some(never_saved));
}

#[test]
fn timer_text_and_controls() {
    let idle = PomodoroState::default();
    assert_eq!(idle.timer_text(), "25:00");
    assert_eq!(idle.controls(), Controls::Start);
    let s = running(PomodoroPhase::ShortBreak, 61, SHORT_BREAK_DURATION, 1);
    assert_eq!(s.timer_text(), "01:01");
    assert_eq!(s.controls(), Controls::PauseOrReset);
    let p = s.pause(0);
    assert_eq!(p.controls(), Controls::ResumeOrReset);
}

#[test]
fn clock_reading_operations_use_the_present() {
    let s = PomodoroState::default();
    let started = s.start_now(String::new());
    assert!(started.last_sync_epoch > 1_600_000_000);
    let paused = started.clone().pause_now();
    assert!(paused.last_sync_epoch >= started.last_sync_epoch);
    assert!(!paused.is_running);
    let resumed = paused.resume_now();
    assert!(resumed.is_running);
    let done = running(PomodoroPhase::LongBreak, 0, LONG_BREAK_DURATION, 4);
    match done.tick_now(0) {
        Tick::PhaseDone { record, next } => {
            assert_eq!(record.timestamp.len(), 16);
            assert_eq!(&record.timestamp[4..5], "-");
            assert!(next.last_sync_epoch > 1_600_000_000);
            assert_eq!(next.phase, PomodoroPhase::Working);
        }
        _ => panic!("phase done"),
    }
    let behind = PomodoroState { last_sync_epoch: 1, ..running(PomodoroPhase::Working, 100, WORK_DURATION, 0) };
    let caught_up = behind.restored().unwrap();
    assert_eq!(caught_up.remaining_seconds, 0);
    assert!(!caught_up.is_running);
}

#[test]
fn restored_at_catches_up_or_refuses_an_overflowing_clock() {
    let s = running(PomodoroPhase::Working, 100, WORK_DURATION, 0);
    assert_eq!(s.clone().restored_at(130).unwrap().remaining_seconds, 70);
    let far = PomodoroState { last_sync_epoch: i64::MAX, ..s.clone() };
    assert_eq!(far.restored_at(-10), None);
    let paused = PomodoroState { is_running: false, ..s };
    assert_eq!(paused.clone().restored_at(i64::MIN), Some(paused));
}
