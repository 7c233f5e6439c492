use agda_detector::event_log::{EventLog, WINDOW_SECONDS};

const NOW: i64 = 1_000_000_000;

#[test]
fn record_is_idempotent_and_keeps_first_timestamp() {
    let mut log = EventLog::new();
    log.record(1, 7, 42, NOW);
    log.record(1, 7, 42, NOW + 50);
    assert_eq!(log.len(), 1);
    let e = log.get(0);
    assert_eq!(e.msg_id, 1);
    assert_eq!(e.chat_id, 7);
    assert_eq!(e.user_id, 42);
    assert_eq!(e.timestamp, NOW);
}

#[test]
fn same_msg_id_in_other_conversation_is_a_new_entry() {
    let mut log = EventLog::new();
    log.record(1, 7, 42, NOW);
    log.record(1, 8, 42, NOW);
    assert_eq!(log.len(), 2);
}

#[test]
fn erase_removes_the_entry() {
    let mut log = EventLog::new();
    log.record(1, 7, 42, NOW);
    log.record(2, 7, 42, NOW);
    log.erase(1, 7);
    assert_eq!(log.len(), 1);
    assert_eq!(log.get(0).msg_id, 2);
}

#[test]
fn erase_of_absent_key_is_a_noop() {
    let mut log = EventLog::new();
    log.record(1, 7, 42, NOW);
    log.erase(99, 7);
    log.erase(1, 8);
    assert_eq!(log.len(), 1);
    let mut empty = EventLog::new();
    empty.erase(1, 7);
    assert_eq!(empty.len(), 0);
}

#[test]
fn counts_for_unknown_user_are_zero() {
    let log = EventLog::new();
    assert_eq!(log.total_by_user(5), 0);
    assert_eq!(log.recent_by_user(5, NOW), 0);
    let mut log = EventLog::new();
    log.record(1, 7, 42, NOW);
    assert_eq!(log.total_by_user(5), 0);
    assert_eq!(log.recent_by_user(5, NOW), 0);
}

#[test]
fn user_counts_respect_the_window() {
    let mut log = EventLog::new();
    log.record(1, 7, 42, NOW - WINDOW_SECONDS - 1); // too old
    log.record(2, 7, 42, NOW - WINDOW_SECONDS); // exactly on the cutoff
    log.record(3, 7, 42, NOW);
    assert_eq!(log.total_by_user(42), 3);
    assert_eq!(log.recent_by_user(42, NOW), 2);
}

#[test]
fn conversation_counts_are_scoped() {
    let mut log = EventLog::new();
    log.record(1, 7, 42, NOW);
    log.record(2, 7, 43, NOW - WINDOW_SECONDS - 10);
    log.record(3, 8, 42, NOW);
    assert_eq!(log.total_by_conversation(7), 2);
    assert_eq!(log.recent_by_conversation(7, NOW), 1);
    assert_eq!(log.total_by_conversation(8), 1);
    assert_eq!(log.total_by_conversation(9), 0);
    assert_eq!(log.recent_by_conversation(9, NOW), 0);
}

#[test]
fn leaderboard_orders_by_count_descending() {
    let mut log = EventLog::new();
    let mut msg: i64 = 0;
    for _ in 0..2 {
        msg += 1;
        log.record(msg, 7, 100, NOW);
    }
    for _ in 0..5 {
        msg += 1;
        log.record(msg, 7, 200, NOW);
    }
    for _ in 0..3 {
        msg += 1;
        log.record(msg, 7, 300, NOW);
    }
    let rows = log.leaderboard(7, NOW, 5);
    assert_eq!(rows.len(), 3);
    assert_eq!(rows[0].user_id, 200);
    assert_eq!(rows[0].count, 5);
    assert_eq!(rows[1].user_id, 300);
    assert_eq!(rows[1].count, 3);
    assert_eq!(rows[2].user_id, 100);
    assert_eq!(rows[2].count, 2);
}

#[test]
fn leaderboard_truncates_to_limit() {
    let mut log = EventLog::new();
    // Seven users; user u sends u matching messages.
    let mut msg: i64 = 0;
    for u in 1..=7_i64 {
        for _ in 0..u {
            msg += 1;
            log.record(msg, 7, u, NOW);
        }
    }
    let rows = log.leaderboard(7, NOW, 5);
    assert_eq!(rows.len(), 5);
    let counts: Vec<u64> = rows.iter().map(|r| r.count).collect();
    assert_eq!(counts, vec![7, 6, 5, 4, 3]);
    for w in rows.windows(2) {
        assert!(w[0].count >= w[1].count);
    }
}

#[test]
fn leaderboard_ignores_old_and_foreign_entries() {
    let mut log = EventLog::new();
    log.record(1, 7, 42, NOW - WINDOW_SECONDS - 1); // too old
    log.record(2, 8, 42, NOW); // other conversation
    let rows = log.leaderboard(7, NOW, 5);
    assert_eq!(rows.len(), 0);
}

#[test]
fn leaderboard_tie_keeps_both_users() {
    let mut log = EventLog::new();
    log.record(1, 7, 100, NOW);
    log.record(2, 7, 100, NOW);
    log.record(3, 7, 200, NOW);
    log.record(4, 7, 200, NOW);
    let rows = log.leaderboard(7, NOW, 5);
    assert_eq!(rows.len(), 2);
    assert_eq!(rows[0].count, 2);
    assert_eq!(rows[1].count, 2);
    let users: Vec<i64> = rows.iter().map(|r| r.user_id).collect();
    assert!(users.contains(&100) && users.contains(&200));
}
