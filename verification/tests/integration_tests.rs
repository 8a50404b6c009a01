use pomodori::database::{complete_session, create_session, get_sessions, get_stats, SessionStore};
use pomodori::timer::{SessionType, Timer, TimerState};

fn setup_test_db() -> SessionStore {
    SessionStore::new()
}

#[test]
fn complete_work_session_creates_and_completes_db_record() {
    let mut pool = setup_test_db();
    let mut timer = Timer::with_duration(SessionType::Work, 3);
    let started_at = "2025-01-15T10:00:00Z";

    timer.start();
    let session_id =
        create_session(&mut pool, "work", started_at, timer.total_secs() as i64).unwrap();

    timer.tick();
    timer.tick();
    timer.tick();
    assert!(timer.is_finished());

    complete_session(&mut pool, session_id, "2025-01-15T10:00:03Z").unwrap();

    let sessions = get_sessions(&pool, None, None).unwrap();

    assert_eq!(sessions.len(), 1);
    assert!(sessions[0].completed);
    assert_eq!(sessions[0].session_type, "work");
    assert_eq!(sessions[0].duration_in_secs, 3);
}

#[test]
fn pause_resume_produces_single_completed_session() {
    let mut pool = setup_test_db();
    let mut timer = Timer::with_duration(SessionType::Work, 5);
    let started_at = "2025-01-15T10:00:00Z";

    timer.start();
    let session_id =
        create_session(&mut pool, "work", started_at, timer.total_secs() as i64).unwrap();

    timer.tick();
    timer.tick();

    timer.pause();
    assert_eq!(timer.state(), TimerState::Paused);

    let sessions_mid = get_sessions(&pool, None, None).unwrap();
    assert_eq!(sessions_mid.len(), 1);
    assert!(!sessions_mid[0].completed);

    timer.resume();
    assert_eq!(timer.state(), TimerState::Running);

    timer.tick();
    timer.tick();
    timer.tick();
    assert!(timer.is_finished());

    complete_session(&mut pool, session_id, "2025-01-15T10:00:10Z").unwrap();

    let sessions_final = get_sessions(&pool, None, None).unwrap();

    assert_eq!(sessions_final.len(), 1);
    assert!(sessions_final[0].completed);
}

#[test]
fn stop_mid_session_leaves_session_incomplete() {
    let mut pool = setup_test_db();
    let mut timer = Timer::with_duration(SessionType::Work, 10);
    let started_at = "2025-01-15T10:00:00Z";

    timer.start();
    let _session_id =
        create_session(&mut pool, "work", started_at, timer.total_secs() as i64).unwrap();

    timer.tick();
    timer.tick();
    timer.tick();

    timer.stop();
    assert_eq!(timer.state(), TimerState::Idle);
    assert_eq!(timer.remaining_secs(), 10);

    let sessions = get_sessions(&pool, None, None).unwrap();

    assert_eq!(sessions.len(), 1);
    assert!(!sessions[0].completed);
    assert!(sessions[0].ended_at.is_none());
}

#[test]
fn session_type_switch_records_correct_types() {
    let mut pool = setup_test_db();

    let mut work_timer = Timer::with_duration(SessionType::Work, 2);
    work_timer.start();
    let work_id = create_session(&mut pool, "work", "2025-01-15T10:00:00Z", 2).unwrap();
    work_timer.tick();
    work_timer.tick();
    complete_session(&mut pool, work_id, "2025-01-15T10:00:02Z").unwrap();

    let mut break_timer = Timer::with_duration(SessionType::ShortBreak, 2);
    break_timer.start();
    let break_id = create_session(&mut pool, "short-break", "2025-01-15T10:00:02Z", 2).unwrap();
    break_timer.tick();
    break_timer.tick();
    complete_session(&mut pool, break_id, "2025-01-15T10:00:04Z").unwrap();

    let sessions = get_sessions(&pool, None, None).unwrap();

    assert_eq!(sessions.len(), 2);

    let work_session = sessions.iter().find(|s| s.session_type == "work").unwrap();
    let break_session = sessions.iter().find(|s| s.session_type == "short-break").unwrap();

    assert!(work_session.completed);
    assert!(break_session.completed);
}

#[test]
fn stats_aggregate_multiple_session_types() {
    let mut pool = setup_test_db();

    let work1_id = create_session(&mut pool, "work", "2025-01-15T10:00:00Z", 1500).unwrap();
    complete_session(&mut pool, work1_id, "2025-01-15T10:25:00Z").unwrap();

    let break1_id =
        create_session(&mut pool, "short-break", "2025-01-15T10:25:00Z", 300).unwrap();
    complete_session(&mut pool, break1_id, "2025-01-15T10:30:00Z").unwrap();

    let work2_id = create_session(&mut pool, "work", "2025-01-15T10:30:00Z", 1500).unwrap();
    complete_session(&mut pool, work2_id, "2025-01-15T10:55:00Z").unwrap();

    let break2_id =
        create_session(&mut pool, "short-break", "2025-01-15T10:55:00Z", 300).unwrap();
    complete_session(&mut pool, break2_id, "2025-01-15T11:00:00Z").unwrap();

    let long_break_id =
        create_session(&mut pool, "long-break", "2025-01-15T11:00:00Z", 900).unwrap();
    complete_session(&mut pool, long_break_id, "2025-01-15T11:15:00Z").unwrap();

    let stats = get_stats(&pool, None, None).unwrap();

    assert_eq!(stats.total_sessions, 5);
    assert_eq!(stats.completed_sessions, 5);
    assert_eq!(stats.total_work_time_in_secs, 3000);
    assert_eq!(stats.total_break_time_in_secs, 1500);
}

#[test]
fn incomplete_sessions_excluded_from_time_stats() {
    let mut pool = setup_test_db();

    let completed_id = create_session(&mut pool, "work", "2025-01-15T10:00:00Z", 1500).unwrap();
    complete_session(&mut pool, completed_id, "2025-01-15T10:25:00Z").unwrap();

    let _incomplete_id = create_session(&mut pool, "work", "2025-01-15T10:30:00Z", 1500).unwrap();

    let stats = get_stats(&pool, None, None).unwrap();

    assert_eq!(stats.total_sessions, 2);
    assert_eq!(stats.completed_sessions, 1);
    assert_eq!(stats.total_work_time_in_secs, 1500);
}

#[test]
fn multiple_work_sessions_accumulate_time() {
    let mut pool = setup_test_db();

    for i in 0..4 {
        let started_at = format!("2025-01-15T{:02}:00:00Z", 10 + i);
        let ended_at = format!("2025-01-15T{:02}:25:00Z", 10 + i);

        let id = create_session(&mut pool, "work", &started_at, 1500).unwrap();
        complete_session(&mut pool, id, &ended_at).unwrap();
    }

    let stats = get_stats(&pool, None, None).unwrap();

    assert_eq!(stats.completed_sessions, 4);
    assert_eq!(stats.total_work_time_in_secs, 6000);
}

#[test]
fn timer_state_transitions_reflect_in_session_handling() {
    let mut pool = setup_test_db();
    let mut timer = Timer::with_duration(SessionType::Work, 5);

    assert_eq!(timer.state(), TimerState::Idle);

    timer.start();
    assert_eq!(timer.state(), TimerState::Running);
    let session_id = create_session(&mut pool, "work", "2025-01-15T10:00:00Z", 5).unwrap();

    timer.tick();
    timer.pause();
    assert_eq!(timer.state(), TimerState::Paused);

    let mid_sessions = get_sessions(&pool, None, None).unwrap();
    assert!(!mid_sessions[0].completed);

    timer.resume();
    assert_eq!(timer.state(), TimerState::Running);

    timer.tick();
    timer.tick();
    timer.tick();
    timer.tick();
    assert!(timer.is_finished());
    assert_eq!(timer.state(), TimerState::Idle);

    complete_session(&mut pool, session_id, "2025-01-15T10:00:10Z").unwrap();

    let final_sessions = get_sessions(&pool, None, None).unwrap();
    assert!(final_sessions[0].completed);
}

#[test]
fn daily_stats_filter_correctly() {
    let mut pool = setup_test_db();

    let yesterday_id = create_session(&mut pool, "work", "2025-01-14T10:00:00Z", 1500).unwrap();
    complete_session(&mut pool, yesterday_id, "2025-01-14T10:25:00Z").unwrap();

    let today_id = create_session(&mut pool, "work", "2025-01-15T10:00:00Z", 1500).unwrap();
    complete_session(&mut pool, today_id, "2025-01-15T10:25:00Z").unwrap();

    let today_stats = get_stats(
        &pool,
        Some("2025-01-15T00:00:00Z"),
        Some("2025-01-15T23:59:59Z"),
    )
    .unwrap();

    assert_eq!(today_stats.total_sessions, 1);
    assert_eq!(today_stats.completed_sessions, 1);
    assert_eq!(today_stats.total_work_time_in_secs, 1500);

    let all_stats = get_stats(&pool, None, None).unwrap();
    assert_eq!(all_stats.total_sessions, 2);
}

#[test]
fn pomodoro_cycle_four_work_one_long_break() {
    let mut pool = setup_test_db();
    let base_time = 10;

    for i in 0..4 {
        let hour = base_time + i;
        let work_started = format!("2025-01-15T{:02}:00:00Z", hour);
        let work_ended = format!("2025-01-15T{:02}:25:00Z", hour);

        let work_id = create_session(&mut pool, "work", &work_started, 1500).unwrap();
        complete_session(&mut pool, work_id, &work_ended).unwrap();

        if i < 3 {
            let break_started = format!("2025-01-15T{:02}:25:00Z", hour);
            let break_ended = format!("2025-01-15T{:02}:30:00Z", hour);

            let break_id = create_session(&mut pool, "short-break", &break_started, 300).unwrap();
            complete_session(&mut pool, break_id, &break_ended).unwrap();
        }
    }

    let long_break_id =
        create_session(&mut pool, "long-break", "2025-01-15T13:25:00Z", 900).unwrap();
    complete_session(&mut pool, long_break_id, "2025-01-15T13:40:00Z").unwrap();

    let stats = get_stats(&pool, None, None).unwrap();

    assert_eq!(stats.total_sessions, 8);
    assert_eq!(stats.completed_sessions, 8);
    assert_eq!(stats.total_work_time_in_secs, 6000);
    assert_eq!(stats.total_break_time_in_secs, 1800);
}

#[test]
fn custom_duration_session_records_correctly() {
    let mut pool = setup_test_db();
    let custom_duration_in_secs = 3600;

    let mut timer = Timer::with_duration(SessionType::Work, custom_duration_in_secs);
    timer.start();

    let session_id = create_session(
        &mut pool,
        "work",
        "2025-01-15T10:00:00Z",
        custom_duration_in_secs as i64,
    )
    .unwrap();

    for _ in 0..custom_duration_in_secs {
        timer.tick();
    }
    assert!(timer.is_finished());

    complete_session(&mut pool, session_id, "2025-01-15T11:00:00Z").unwrap();

    let stats = get_stats(&pool, None, None).unwrap();

    assert_eq!(stats.total_work_time_in_secs, custom_duration_in_secs as i64);
}

#[test]
fn reset_timer_during_session_allows_fresh_start() {
    let mut pool = setup_test_db();
    let mut timer = Timer::with_duration(SessionType::Work, 10);

    timer.start();
    let _first_session_id = create_session(&mut pool, "work", "2025-01-15T10:00:00Z", 10).unwrap();

    timer.tick();
    timer.tick();
    timer.tick();

    timer.reset();
    assert_eq!(timer.state(), TimerState::Idle);
    assert_eq!(timer.remaining_secs(), 10);

    timer.start();
    let second_session_id =
        create_session(&mut pool, "work", "2025-01-15T10:01:00Z", 10).unwrap();

    for _ in 0..10 {
        timer.tick();
    }
    assert!(timer.is_finished());

    complete_session(&mut pool, second_session_id, "2025-01-15T10:01:10Z").unwrap();

    let sessions = get_sessions(&pool, None, None).unwrap();
    let completed_count = sessions.iter().filter(|s| s.completed).count();

    assert_eq!(sessions.len(), 2);
    assert_eq!(completed_count, 1);
}
