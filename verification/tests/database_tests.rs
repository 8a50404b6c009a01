use pomodori::database::{complete_session, create_session, get_sessions, get_stats, SessionStore};

fn setup_test_db() -> SessionStore {
    SessionStore::new()
}

#[test]
fn create_session_returns_valid_id() {
    let mut pool = setup_test_db();

    let id = create_session(&mut pool, "work", "2025-01-15T10:00:00Z", 1500).unwrap();

    assert!(id > 0);
}

#[test]
fn create_session_increments_id() {
    let mut pool = setup_test_db();

    let first_id = create_session(&mut pool, "work", "2025-01-15T10:00:00Z", 1500).unwrap();
    let second_id =
        create_session(&mut pool, "short-break", "2025-01-15T10:25:00Z", 300).unwrap();

    assert_eq!(second_id, first_id + 1);
}

#[test]
fn get_sessions_returns_empty_for_new_db() {
    let pool = setup_test_db();

    let sessions = get_sessions(&pool, None, None).unwrap();

    assert!(sessions.is_empty());
}

#[test]
fn get_sessions_returns_created_sessions() {
    let mut pool = setup_test_db();
    create_session(&mut pool, "work", "2025-01-15T10:00:00Z", 1500).unwrap();
    create_session(&mut pool, "short-break", "2025-01-15T10:25:00Z", 300).unwrap();

    let sessions = get_sessions(&pool, None, None).unwrap();

    assert_eq!(sessions.len(), 2);
}

#[test]
fn get_sessions_orders_by_started_at_descending() {
    let mut pool = setup_test_db();
    create_session(&mut pool, "work", "2025-01-15T10:00:00Z", 1500).unwrap();
    create_session(&mut pool, "short-break", "2025-01-15T10:25:00Z", 300).unwrap();

    let sessions = get_sessions(&pool, None, None).unwrap();

    assert_eq!(sessions[0].started_at, "2025-01-15T10:25:00Z");
    assert_eq!(sessions[1].started_at, "2025-01-15T10:00:00Z");
}

#[test]
fn get_sessions_filters_by_from_date() {
    let mut pool = setup_test_db();
    create_session(&mut pool, "work", "2025-01-14T10:00:00Z", 1500).unwrap();
    create_session(&mut pool, "work", "2025-01-15T10:00:00Z", 1500).unwrap();

    let sessions = get_sessions(&pool, Some("2025-01-15T00:00:00Z"), None).unwrap();

    assert_eq!(sessions.len(), 1);
    assert_eq!(sessions[0].started_at, "2025-01-15T10:00:00Z");
}

#[test]
fn get_sessions_filters_by_to_date() {
    let mut pool = setup_test_db();
    create_session(&mut pool, "work", "2025-01-14T10:00:00Z", 1500).unwrap();
    create_session(&mut pool, "work", "2025-01-15T10:00:00Z", 1500).unwrap();

    let sessions = get_sessions(&pool, None, Some("2025-01-14T23:59:59Z")).unwrap();

    assert_eq!(sessions.len(), 1);
    assert_eq!(sessions[0].started_at, "2025-01-14T10:00:00Z");
}

#[test]
fn get_sessions_filters_by_date_range() {
    let mut pool = setup_test_db();
    create_session(&mut pool, "work", "2025-01-13T10:00:00Z", 1500).unwrap();
    create_session(&mut pool, "work", "2025-01-14T10:00:00Z", 1500).unwrap();
    create_session(&mut pool, "work", "2025-01-15T10:00:00Z", 1500).unwrap();

    let sessions = get_sessions(
        &pool,
        Some("2025-01-14T00:00:00Z"),
        Some("2025-01-14T23:59:59Z"),
    )
    .unwrap();

    assert_eq!(sessions.len(), 1);
    assert_eq!(sessions[0].started_at, "2025-01-14T10:00:00Z");
}

#[test]
fn created_session_starts_incomplete() {
    let mut pool = setup_test_db();
    create_session(&mut pool, "work", "2025-01-15T10:00:00Z", 1500).unwrap();

    let sessions = get_sessions(&pool, None, None).unwrap();

    assert!(!sessions[0].completed);
    assert!(sessions[0].ended_at.is_none());
}

#[test]
fn complete_session_marks_as_completed() {
    let mut pool = setup_test_db();
    let id = create_session(&mut pool, "work", "2025-01-15T10:00:00Z", 1500).unwrap();

    complete_session(&mut pool, id, "2025-01-15T10:25:00Z").unwrap();

    let sessions = get_sessions(&pool, None, None).unwrap();

    assert!(sessions[0].completed);
    assert_eq!(sessions[0].ended_at, Some("2025-01-15T10:25:00Z".to_string()));
}

#[test]
fn complete_session_only_affects_specified_id() {
    let mut pool = setup_test_db();
    let first_id = create_session(&mut pool, "work", "2025-01-15T10:00:00Z", 1500).unwrap();
    let second_id = create_session(&mut pool, "work", "2025-01-15T10:30:00Z", 1500).unwrap();

    complete_session(&mut pool, first_id, "2025-01-15T10:25:00Z").unwrap();

    let sessions = get_sessions(&pool, None, None).unwrap();
    let first_session = sessions.iter().find(|s| s.id == first_id).unwrap();
    let second_session = sessions.iter().find(|s| s.id == second_id).unwrap();

    assert!(first_session.completed);
    assert!(!second_session.completed);
}

#[test]
fn get_stats_returns_zero_for_empty_db() {
    let pool = setup_test_db();

    let stats = get_stats(&pool, None, None).unwrap();

    assert_eq!(stats.total_sessions, 0);
    assert_eq!(stats.completed_sessions, 0);
    assert_eq!(stats.total_work_time_in_secs, 0);
    assert_eq!(stats.total_break_time_in_secs, 0);
}

#[test]
fn get_stats_counts_total_sessions() {
    let mut pool = setup_test_db();
    create_session(&mut pool, "work", "2025-01-15T10:00:00Z", 1500).unwrap();
    create_session(&mut pool, "work", "2025-01-15T10:30:00Z", 1500).unwrap();

    let stats = get_stats(&pool, None, None).unwrap();

    assert_eq!(stats.total_sessions, 2);
}

#[test]
fn get_stats_counts_completed_sessions() {
    let mut pool = setup_test_db();
    let completed_id =
        create_session(&mut pool, "work", "2025-01-15T10:00:00Z", 1500).unwrap();
    create_session(&mut pool, "work", "2025-01-15T10:30:00Z", 1500).unwrap();

    complete_session(&mut pool, completed_id, "2025-01-15T10:25:00Z").unwrap();

    let stats = get_stats(&pool, None, None).unwrap();

    assert_eq!(stats.total_sessions, 2);
    assert_eq!(stats.completed_sessions, 1);
}

#[test]
fn get_stats_sums_work_time_for_completed_sessions() {
    let mut pool = setup_test_db();
    let first_id = create_session(&mut pool, "work", "2025-01-15T10:00:00Z", 1500).unwrap();
    let second_id = create_session(&mut pool, "work", "2025-01-15T10:30:00Z", 1500).unwrap();
    create_session(&mut pool, "work", "2025-01-15T11:00:00Z", 1500).unwrap();

    complete_session(&mut pool, first_id, "2025-01-15T10:25:00Z").unwrap();
    complete_session(&mut pool, second_id, "2025-01-15T10:55:00Z").unwrap();

    let stats = get_stats(&pool, None, None).unwrap();

    assert_eq!(stats.total_work_time_in_secs, 3000);
}

#[test]
fn get_stats_sums_break_time_separately() {
    let mut pool = setup_test_db();
    let work_id = create_session(&mut pool, "work", "2025-01-15T10:00:00Z", 1500).unwrap();
    let break_id =
        create_session(&mut pool, "short-break", "2025-01-15T10:25:00Z", 300).unwrap();

    complete_session(&mut pool, work_id, "2025-01-15T10:25:00Z").unwrap();
    complete_session(&mut pool, break_id, "2025-01-15T10:30:00Z").unwrap();

    let stats = get_stats(&pool, None, None).unwrap();

    assert_eq!(stats.total_work_time_in_secs, 1500);
    assert_eq!(stats.total_break_time_in_secs, 300);
}

#[test]
fn get_stats_includes_long_break_in_break_time() {
    let mut pool = setup_test_db();
    let short_break_id =
        create_session(&mut pool, "short-break", "2025-01-15T10:25:00Z", 300).unwrap();
    let long_break_id =
        create_session(&mut pool, "long-break", "2025-01-15T12:00:00Z", 900).unwrap();

    complete_session(&mut pool, short_break_id, "2025-01-15T10:30:00Z").unwrap();
    complete_session(&mut pool, long_break_id, "2025-01-15T12:15:00Z").unwrap();

    let stats = get_stats(&pool, None, None).unwrap();

    assert_eq!(stats.total_break_time_in_secs, 1200);
}

#[test]
fn get_stats_filters_by_from_date() {
    let mut pool = setup_test_db();
    let old_id = create_session(&mut pool, "work", "2025-01-14T10:00:00Z", 1500).unwrap();
    let new_id = create_session(&mut pool, "work", "2025-01-15T10:00:00Z", 1500).unwrap();

    complete_session(&mut pool, old_id, "2025-01-14T10:25:00Z").unwrap();
    complete_session(&mut pool, new_id, "2025-01-15T10:25:00Z").unwrap();

    let stats = get_stats(&pool, Some("2025-01-15T00:00:00Z"), None).unwrap();

    assert_eq!(stats.total_sessions, 1);
    assert_eq!(stats.completed_sessions, 1);
}

#[test]
fn get_stats_filters_by_to_date() {
    let mut pool = setup_test_db();
    let old_id = create_session(&mut pool, "work", "2025-01-14T10:00:00Z", 1500).unwrap();
    let new_id = create_session(&mut pool, "work", "2025-01-15T10:00:00Z", 1500).unwrap();

    complete_session(&mut pool, old_id, "2025-01-14T10:25:00Z").unwrap();
    complete_session(&mut pool, new_id, "2025-01-15T10:25:00Z").unwrap();

    let stats = get_stats(&pool, None, Some("2025-01-14T23:59:59Z")).unwrap();

    assert_eq!(stats.total_sessions, 1);
    assert_eq!(stats.completed_sessions, 1);
}

#[test]
fn get_stats_filters_by_date_range() {
    let mut pool = setup_test_db();
    let first_id = create_session(&mut pool, "work", "2025-01-13T10:00:00Z", 1500).unwrap();
    let second_id = create_session(&mut pool, "work", "2025-01-14T10:00:00Z", 1500).unwrap();
    let third_id = create_session(&mut pool, "work", "2025-01-15T10:00:00Z", 1500).unwrap();

    complete_session(&mut pool, first_id, "2025-01-13T10:25:00Z").unwrap();
    complete_session(&mut pool, second_id, "2025-01-14T10:25:00Z").unwrap();
    complete_session(&mut pool, third_id, "2025-01-15T10:25:00Z").unwrap();

    let stats = get_stats(
        &pool,
        Some("2025-01-14T00:00:00Z"),
        Some("2025-01-14T23:59:59Z"),
    )
    .unwrap();

    assert_eq!(stats.total_sessions, 1);
    assert_eq!(stats.completed_sessions, 1);
    assert_eq!(stats.total_work_time_in_secs, 1500);
}

#[test]
fn session_row_to_session_converts_completed_correctly() {
    let mut pool = setup_test_db();
    let id = create_session(&mut pool, "work", "2025-01-15T10:00:00Z", 1500).unwrap();

    let sessions_before = get_sessions(&pool, None, None).unwrap();
    assert!(!sessions_before[0].completed);

    complete_session(&mut pool, id, "2025-01-15T10:25:00Z").unwrap();

    let sessions_after = get_sessions(&pool, None, None).unwrap();
    assert!(sessions_after[0].completed);
}

#[test]
fn session_preserves_all_fields() {
    let mut pool = setup_test_db();
    let id = create_session(&mut pool, "work", "2025-01-15T10:00:00Z", 1500).unwrap();

    complete_session(&mut pool, id, "2025-01-15T10:25:00Z").unwrap();

    let sessions = get_sessions(&pool, None, None).unwrap();
    let session = &sessions[0];

    assert_eq!(session.id, id);
    assert_eq!(session.session_type, "work");
    assert_eq!(session.started_at, "2025-01-15T10:00:00Z");
    assert_eq!(session.ended_at, Some("2025-01-15T10:25:00Z".to_string()));
    assert_eq!(session.duration_in_secs, 1500);
    assert!(session.completed);
}
