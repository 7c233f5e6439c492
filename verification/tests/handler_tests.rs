use agda_detector::classify::Symbol;
use agda_detector::event_log::{EventLog, WINDOW_SECONDS};
use agda_detector::handlers::{
    edit_message_handler, group_stat_command, hash, inline_handler, message_handler, ChatKind,
    Command, ReactionUpdate,
};

const NOW: i64 = 1_000_000_000;

#[test]
fn message_then_edits_toggle_the_entry() {
    let mut log = EventLog::new();
    // New matching message: one entry, fire reaction.
    let r = message_handler(&mut log, 1, 7, 42, Some("喔喔"), NOW);
    assert_eq!(r, ReactionUpdate::Attach(Symbol::Fire));
    assert_eq!(log.len(), 1);
    // Edit to a non-match: entry erased, reaction cleared.
    let r = edit_message_handler(&mut log, 1, 7, 42, Some("hello"), NOW + 10);
    assert_eq!(r, ReactionUpdate::Clear);
    assert_eq!(log.len(), 0);
    // Edit back to a match: entry recreated with the new timestamp.
    let r = edit_message_handler(&mut log, 1, 7, 42, Some("喔喔"), NOW + 20);
    assert_eq!(r, ReactionUpdate::Attach(Symbol::Fire));
    assert_eq!(log.len(), 1);
    assert_eq!(log.get(0).timestamp, NOW + 20);
}

#[test]
fn non_matching_new_message_does_nothing() {
    let mut log = EventLog::new();
    let r = message_handler(&mut log, 1, 7, 42, Some("hello"), NOW);
    assert_eq!(r, ReactionUpdate::Leave);
    assert_eq!(log.len(), 0);
    let r = message_handler(&mut log, 2, 7, 42, None, NOW);
    assert_eq!(r, ReactionUpdate::Leave);
    assert_eq!(log.len(), 0);
}

#[test]
fn duplicate_delivery_of_a_message_counts_once() {
    let mut log = EventLog::new();
    message_handler(&mut log, 1, 7, 42, Some("喔喔"), NOW);
    message_handler(&mut log, 1, 7, 42, Some("喔喔"), NOW + 5);
    assert_eq!(log.len(), 1);
    assert_eq!(log.get(0).timestamp, NOW);
}

#[test]
fn non_text_edit_is_ignored() {
    let mut log = EventLog::new();
    message_handler(&mut log, 1, 7, 42, Some("喔喔"), NOW);
    let r = edit_message_handler(&mut log, 1, 7, 42, None, NOW + 10);
    assert_eq!(r, ReactionUpdate::Leave);
    assert_eq!(log.len(), 1);
    assert_eq!(log.get(0).timestamp, NOW);
}

#[test]
fn inline_query_reports_both_counts() {
    let mut log = EventLog::new();
    message_handler(&mut log, 1, 7, 42, Some("喔喔"), NOW - WINDOW_SECONDS - 1);
    message_handler(&mut log, 2, 7, 42, Some("哦哦"), NOW);
    message_handler(&mut log, 3, 7, 99, Some("喔喔"), NOW);
    let (total, recent) = inline_handler(&log, 42, NOW);
    assert_eq!(total, 2);
    assert_eq!(recent, 1);
    let (total, recent) = inline_handler(&log, 7777, NOW);
    assert_eq!(total, 0);
    assert_eq!(recent, 0);
}

#[test]
fn stats_refused_outside_groups() {
    let log = EventLog::new();
    assert!(group_stat_command(&log, 7, ChatKind::Private, NOW).is_none());
    assert!(group_stat_command(&log, 7, ChatKind::Channel, NOW).is_none());
    assert!(group_stat_command(&log, 7, ChatKind::Group, NOW).is_some());
    assert!(group_stat_command(&log, 7, ChatKind::Supergroup, NOW).is_some());
}

#[test]
fn stats_aggregate_a_conversation() {
    let mut log = EventLog::new();
    // User 100: three recent matches and one older than the window;
    // user 200: two recent matches.
    message_handler(&mut log, 1, 7, 100, Some("喔喔"), NOW - WINDOW_SECONDS - 1);
    message_handler(&mut log, 2, 7, 100, Some("喔喔"), NOW - 100);
    message_handler(&mut log, 3, 7, 100, Some("哦喔"), NOW - 50);
    message_handler(&mut log, 4, 7, 100, Some("喔哦"), NOW);
    message_handler(&mut log, 5, 7, 200, Some("喔喔"), NOW - 30);
    message_handler(&mut log, 6, 7, 200, Some("喔喔"), NOW);
    let stats = group_stat_command(&log, 7, ChatKind::Group, NOW).unwrap();
    assert_eq!(stats.total, 6);
    assert_eq!(stats.recent, 5);
    assert_eq!(stats.board.len(), 2);
    assert_eq!(stats.board[0].user_id, 100);
    assert_eq!(stats.board[0].count, 3);
    assert_eq!(stats.board[1].user_id, 200);
    assert_eq!(stats.board[1].count, 2);
}

#[test]
fn help_text_lists_the_commands() {
    let s = Command::descriptions();
    assert!(s.contains("/help"));
    assert!(s.contains("/stats"));
}

#[test]
fn hash_distinguishes_the_two_inline_results() {
    // The two inline results need identifiers distinct enough to avoid
    // client-side ambiguity within one response.
    let a = hash(&String::from("total"));
    let b = hash(&String::from("today"));
    assert_ne!(a, b);
}

#[test]
fn edit_between_two_matching_texts_keeps_first_timestamp() {
    // An edit from one matching text to another is an idempotent re-record:
    // the entry and its original timestamp survive.
    let mut log = EventLog::new();
    message_handler(&mut log, 1, 7, 42, Some("喔喔"), NOW);
    let r = edit_message_handler(&mut log, 1, 7, 42, Some("啊啊"), NOW + 10);
    assert_eq!(r, ReactionUpdate::Attach(Symbol::Think));
    assert_eq!(log.len(), 1);
    assert_eq!(log.get(0).timestamp, NOW);
}

#[test]
fn command_descriptions_are_stable() {
    assert_eq!(Command::Help.description(), "显示帮助信息.");
    assert_eq!(Command::Stats.description(), "查看阿鸽打统计.");
}
