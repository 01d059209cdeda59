use boa::preview::{PreviewCapture, PreviewSelection, PreviewTextView, Rect};
use boa::reload::ReloadFailureState;
use boa::watch::{plan_config_rewire, plan_disk_rewire, GlobalWatch};
use boa::watch::{invalidated_watches, watch_invalidated, WatchedDir};

fn names(xs: &[&str]) -> Vec<String> {
    xs.iter().map(|s| s.to_string()).collect()
}

// ---------------------------------------------------------------------------
// Watch rewiring
// ---------------------------------------------------------------------------

#[test]
fn same_set_disk_rewire_is_a_noop() {
    assert!(plan_disk_rewire(&names(&["a", "b"]), &names(&["b", "a"]), &[], false).is_none());
    // A stale init failure forces a pass even on the same set.
    let p = plan_disk_rewire(&names(&["a"]), &names(&["a"]), &[], true).unwrap();
    assert!(p.to_remove.is_empty() && p.to_add.is_empty() && !p.kick);
}

#[test]
fn disk_rewire_diffs_the_sets() {
    let p = plan_disk_rewire(&names(&["a", "b", "c"]), &names(&["b", "d"]), &[], false).unwrap();
    assert_eq!(p.to_remove, names(&["a", "c"]));
    assert_eq!(p.to_add, names(&["d"]));
    assert!(!p.kick);
}

#[test]
fn replaced_directory_is_rebuilt_and_kicks() {
    let p = plan_disk_rewire(&names(&["a", "b"]), &names(&["a", "b"]), &names(&["b"]), false).unwrap();
    assert_eq!(p.to_remove, names(&["b"]));
    assert_eq!(p.to_add, names(&["b"]));
    assert!(p.kick);
}

#[test]
fn config_rewire_keeps_a_current_global() {
    assert!(plan_config_rewire(GlobalWatch::Current, &names(&["a"]), &names(&["a"]), &[], false).is_none());
    let p = plan_config_rewire(GlobalWatch::Missing, &names(&["a"]), &names(&["a"]), &[], false).unwrap();
    assert!(p.install_global && !p.drop_global && !p.kick);
    let p = plan_config_rewire(GlobalWatch::Stale, &[], &names(&["x"]), &[], false).unwrap();
    assert!(p.install_global && p.drop_global && p.kick);
    assert_eq!(p.to_add, names(&["x"]));
}

// ---------------------------------------------------------------------------
// Preview geometry
// ---------------------------------------------------------------------------

fn view() -> PreviewTextView {
    PreviewTextView {
        pane: Rect { x: 10, y: 5, width: 20, height: 4 },
        first_line: 100,
        total_lines: 110,
    }
}

#[test]
fn rect_edges_saturate_and_contain() {
    let r = Rect { x: 65530, y: 0, width: 10, height: 2 };
    assert_eq!(r.right(), 65535);
    assert_eq!(r.bottom(), 2);
    assert!(r.contains(65534, 1));
    assert!(!r.contains(65535, 1));
}

#[test]
fn screen_cells_map_to_content_and_clamp() {
    let v = view();
    assert!(v.contains(10, 5));
    assert!(!v.contains(30, 5));
    assert_eq!(v.abs_line_at_row(5), 100);
    assert_eq!(v.abs_line_at_row(7), 102);
    // Rows below the pane clamp to its last row; lines clamp to the scrollback.
    assert_eq!(v.abs_line_at_row(50), 103);
    assert_eq!(v.screen_to_content(12, 6), (2, 8));
    assert_eq!(v.screen_to_content(0, 0), (0, 9));
    assert_eq!(v.screen_to_content(99, 6), (19, 8));
    assert_eq!(v.abs_from_bottom(8), 101);
    assert_eq!(v.abs_from_bottom(500), 0);
    let empty = PreviewTextView { total_lines: 0, ..view() };
    assert!(!empty.contains(10, 5));
}

#[test]
fn selection_orders_in_reading_order() {
    let v = view();
    // Anchor lower on screen (closer to the bottom) than the extent.
    let sel = PreviewSelection { anchor: (3, 7), extent: (9, 8), finalized: false };
    assert_eq!(sel.ordered_abs(v), ((9, 101), (3, 102)));
    let same_line = PreviewSelection { anchor: (9, 8), extent: (2, 8), finalized: true };
    assert_eq!(same_line.ordered_abs(v), ((2, 101), (9, 101)));
}

#[test]
fn flow_rects_cover_the_visible_rows() {
    let v = view();
    // From line 101 col 4 to line 103 col 2.
    let sel = PreviewSelection { anchor: (4, 8), extent: (2, 6), finalized: false };
    let rects = sel.screen_flow_rects(v);
    assert_eq!(
        rects,
        vec![
            Rect { x: 14, y: 6, width: 16, height: 1 },
            Rect { x: 10, y: 7, width: 20, height: 1 },
            Rect { x: 10, y: 8, width: 3, height: 1 },
        ]
    );
    // A selection entirely above the window paints nothing.
    let above = PreviewSelection { anchor: (0, 109), extent: (5, 109), finalized: false };
    assert!(above.screen_flow_rects(v).is_empty());
    let zero = PreviewTextView { pane: Rect { x: 0, y: 0, width: 0, height: 3 }, ..v };
    assert!(sel.screen_flow_rects(zero).is_empty());
}

// ---------------------------------------------------------------------------
// Reload failures
// ---------------------------------------------------------------------------

#[test]
fn a_failure_notifies_once_until_recovery() {
    let mut s = ReloadFailureState::new();
    assert!(!s.has_any_failure());
    assert!(!s.record_storage(&Err("bad json".to_string())));
    assert!(s.has_unacknowledged_failure());
    s.acknowledge_dialog();
    assert!(!s.has_unacknowledged_failure());
    // The same source failing again stays acknowledged.
    s.record_storage(&Err("still bad".to_string()));
    assert!(!s.has_unacknowledged_failure());
    // A new source failing re-arms the dialog.
    s.record_config(&Err("bad toml".to_string()));
    assert!(s.has_unacknowledged_failure());
    s.acknowledge_dialog();
    assert!(s.record_storage(&Ok(())));
    assert!(s.has_any_failure());
    assert!(s.record_config(&Ok(())));
    assert!(!s.record_config(&Ok(())));
    assert!(!s.has_any_failure());
}

#[test]
fn dialog_body_lists_each_degraded_source() {
    let mut s = ReloadFailureState::new();
    s.record_storage(&Err("bad json".to_string()));
    s.record_disk_watcher_init_failure("work", "inotify limit".to_string());
    s.record_config_watcher_init_failure(None, "denied".to_string());
    assert_eq!(
        s.build_dialog_body(),
        "The following reload sources are degraded:\n- Storage: bad json\n- Disk watcher init: work: inotify limit\n- Config watcher init: global config: denied\n\nIn-memory state preserved; sources retry automatically."
    );
    assert!(s.disk_watcher_init_error_references_missing_profile(&names(&["home"])));
    assert!(!s.disk_watcher_init_error_references_missing_profile(&names(&["work"])));
    assert!(!s.config_watcher_init_error_references_missing_profile(&names(&[])));
    s.clear_disk_watcher_init_failure();
    s.clear_config_watcher_init_failure();
    assert!(s.has_any_failure());
}

#[test]
fn captures_count_their_lines() {
    let mut c = PreviewCapture::new();
    assert_eq!(c.captured_lines, 0);
    assert_eq!(c.store_capture("a\nb\n".to_string(), "s1".to_string(), (80, 24)), 2);
    assert_eq!(c.captured_lines, 2);
    assert_eq!(c.session_id.as_deref(), Some("s1"));
    assert_eq!(c.dimensions, (80, 24));
    assert_eq!(c.store_capture("a\r\nb".to_string(), "s2".to_string(), (1, 1)), 2);
    assert_eq!(c.store_capture("\n".to_string(), "s3".to_string(), (1, 1)), 1);
    assert_eq!(c.store_capture(String::new(), "s4".to_string(), (1, 1)), 0);
    assert_eq!(c.content, "");
}

#[test]
fn reload_dialog_is_presented_once_per_burst() {
    let mut s = ReloadFailureState::new();
    assert_eq!(s.present_dialog(None), None);
    s.record_config(&Err("bad toml".to_string()));
    // Another dialog on screen keeps the failure waiting.
    assert_eq!(s.present_dialog(Some(("Rename Failed", "x"))), None);
    assert!(s.has_unacknowledged_failure());
    let body = s.present_dialog(None).expect("first tick presents");
    assert_eq!(
        body,
        "The following reload sources are degraded:\n- Config: bad toml\n\nIn-memory state preserved; sources retry automatically."
    );
    assert!(!s.has_unacknowledged_failure());
    // The next tick sees its own dialog with the same body: nothing to do.
    assert_eq!(s.present_dialog(Some(("Reload Failed", &body))), None);
    // Dismissed by the user: an acknowledged burst does not come back.
    assert_eq!(s.present_dialog(None), None);
    // A changed body refreshes the open dialog without a new notification.
    s.record_config(&Err("worse toml".to_string()));
    let refreshed = s.present_dialog(Some(("Reload Failed", &body))).expect("refresh");
    assert!(refreshed.contains("worse toml"));
    assert!(!s.clear_recovered_dialog(Some("Reload Failed")));
    s.record_config(&Ok(()));
    assert!(s.clear_recovered_dialog(Some("Reload Failed")));
    assert!(!s.clear_recovered_dialog(Some("Other")));
}

fn dir(name: &str, installed: &str, current: Option<&str>, identity_changed: Option<bool>) -> WatchedDir {
    WatchedDir {
        name: name.to_string(),
        installed_canonical: installed.to_string(),
        current_canonical: current.map(|s| s.to_string()),
        identity_changed,
    }
}

#[test]
fn watch_is_stale_when_gone_moved_or_replaced() {
    assert!(!watch_invalidated(&dir("a", "/p/a", Some("/p/a"), Some(false))));
    assert!(!watch_invalidated(&dir("a", "/p/a", Some("/p/a"), None)));
    assert!(watch_invalidated(&dir("a", "/p/a", None, None)));
    assert!(watch_invalidated(&dir("a", "/p/a", Some("/q/a"), Some(false))));
    assert!(watch_invalidated(&dir("a", "/p/a", Some("/p/a"), Some(true))));
}

#[test]
fn invalidated_watches_feed_the_rewire() {
    let dirs = vec![
        dir("a", "/p/a", Some("/p/a"), Some(false)),
        dir("b", "/p/b", None, None),
        dir("c", "/p/c", Some("/p/c"), Some(true)),
    ];
    let invalidated = invalidated_watches(&dirs);
    assert_eq!(invalidated, names(&["b", "c"]));
    let plan = plan_disk_rewire(&names(&["a", "b", "c"]), &names(&["a", "b", "c"]), &invalidated, false).unwrap();
    assert_eq!(plan.to_remove, names(&["b", "c"]));
    assert_eq!(plan.to_add, names(&["b", "c"]));
    assert!(plan.kick);
}
