use boa::dwell::{UnreadDwell, UNREAD_DWELL_MS};

#[test]
fn marker_clears_after_two_seconds_on_the_row() {
    let mut d = UnreadDwell::new();
    assert!(!d.tick(true, false, Some("a"), 1000, true));
    assert!(!d.tick(true, false, Some("a"), 2999, true));
    assert!(d.tick(true, false, Some("a"), 3000, true));
    assert_eq!(UNREAD_DWELL_MS, 2000);
}

#[test]
fn read_row_reports_nothing_to_clear() {
    let mut d = UnreadDwell::new();
    assert!(!d.tick(true, false, Some("a"), 0, false));
    assert!(!d.tick(true, false, Some("a"), 5000, false));
}

#[test]
fn moving_the_cursor_restarts_the_clock() {
    let mut d = UnreadDwell::new();
    assert!(!d.tick(true, false, Some("a"), 0, true));
    assert!(!d.tick(true, false, Some("b"), 1500, true));
    assert!(!d.tick(true, false, Some("b"), 3000, true));
    assert!(d.tick(true, false, Some("b"), 3500, true));
    assert_eq!(d.clock, Some(("b".to_string(), 1500)));
}

#[test]
fn dialog_or_disabled_feature_resets_the_clock() {
    let mut d = UnreadDwell::new();
    assert!(!d.tick(true, false, Some("a"), 0, true));
    assert!(!d.tick(true, true, Some("a"), 2500, true));
    assert_eq!(d.clock, None);
    assert!(!d.tick(true, false, Some("a"), 2600, true));
    assert!(!d.tick(false, false, Some("a"), 5000, true));
    assert!(!d.tick(true, false, None, 6000, true));
    assert_eq!(d.clock, None);
}

#[test]
fn manual_flag_is_held_until_the_cursor_leaves() {
    let mut d = UnreadDwell::new();
    assert!(!d.tick(true, false, Some("a"), 0, true));
    d.after_manual_toggle("a", true);
    assert!(!d.tick(true, false, Some("a"), 10_000, true));
    assert_eq!(d.hold, Some("a".to_string()));
    assert!(!d.tick(true, false, Some("b"), 11_000, false));
    assert_eq!(d.hold, None);
    assert!(!d.tick(true, false, Some("a"), 12_000, true));
    assert!(d.tick(true, false, Some("a"), 14_000, true));
}

#[test]
fn toggling_back_to_read_drops_the_hold() {
    let mut d = UnreadDwell::new();
    d.after_manual_toggle("a", true);
    d.after_manual_toggle("a", false);
    assert_eq!(d.hold, None);
    d.after_manual_toggle("a", true);
    d.release_on_view("b");
    assert_eq!(d.hold, Some("a".to_string()));
    d.release_on_view("a");
    assert_eq!(d.hold, None);
}
