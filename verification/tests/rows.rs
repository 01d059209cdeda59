use boa::rows::{archive_successor, SessionRow};
use boa::rows::{restore_cursor, RowKey};

fn rows() -> Vec<RowKey> {
    vec![
        RowKey::Group("work".to_string()),
        RowKey::Session("a".to_string()),
        RowKey::Other,
        RowKey::Group("play".to_string()),
        RowKey::Session("b".to_string()),
    ]
}

#[test]
fn cursor_follows_the_selected_session() {
    assert_eq!(restore_cursor(&rows(), Some("b"), None, 0), 4);
    assert_eq!(restore_cursor(&rows(), Some("a"), Some("play"), 4), 1);
}

#[test]
fn cursor_follows_the_selected_group_when_no_session_was_selected() {
    assert_eq!(restore_cursor(&rows(), None, Some("play"), 0), 3);
}

#[test]
fn cursor_stays_or_is_pulled_back_when_the_row_is_gone() {
    assert_eq!(restore_cursor(&rows(), Some("gone"), None, 2), 2);
    assert_eq!(restore_cursor(&rows(), Some("gone"), None, 9), 4);
    assert_eq!(restore_cursor(&[], Some("gone"), None, 3), 3);
    assert_eq!(restore_cursor(&rows(), None, None, 7), 4);
}

#[test]
fn a_group_key_does_not_match_a_session_of_the_same_name() {
    let rows = vec![RowKey::Session("x".to_string()), RowKey::Group("x".to_string())];
    assert_eq!(restore_cursor(&rows, None, Some("x"), 0), 1);
    assert_eq!(restore_cursor(&rows, Some("x"), None, 1), 0);
}

fn session(id: &str, active: bool) -> Option<SessionRow> {
    Some(SessionRow { id: id.to_string(), active })
}

#[test]
fn successor_is_the_next_active_session_below() {
    let rows = vec![None, session("a", true), session("b", true), None, session("c", false), session("d", true)];
    assert_eq!(archive_successor(&rows, 2, "b"), Some(5));
    assert_eq!(archive_successor(&rows, 1, "a"), Some(2));
}

#[test]
fn successor_falls_back_to_the_nearest_above() {
    let rows = vec![session("a", true), None, session("b", true), session("c", true), session("d", false)];
    assert_eq!(archive_successor(&rows, 3, "c"), Some(2));
    assert_eq!(archive_successor(&rows, 9, "x"), Some(3));
}

#[test]
fn no_successor_when_nothing_else_is_active() {
    let rows = vec![None, session("a", true), session("b", false)];
    assert_eq!(archive_successor(&rows, 1, "a"), None);
    assert_eq!(archive_successor(&[], 0, "a"), None);
}
