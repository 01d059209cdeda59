use boa::save::{merge_saved_groups, merge_saved_rows};

fn v(xs: &[&str]) -> Vec<String> {
    xs.iter().map(|s| s.to_string()).collect()
}

#[test]
fn save_merges_known_rows_and_appends_added_ones() {
    let r = merge_saved_rows(&v(&["a", "b", "c"]), &v(&["b"]), &v(&["a", "c", "d"]), &v(&["d"]));
    assert_eq!(r.stored, v(&["a", "c", "d"]));
    assert!(r.peer_deleted.is_empty());
}

#[test]
fn rows_missing_on_disk_and_not_added_were_removed_by_a_peer() {
    let r = merge_saved_rows(&v(&["a"]), &v(&[]), &v(&["a", "x", "y"]), &v(&["y"]));
    assert_eq!(r.stored, v(&["a", "y"]));
    assert_eq!(r.peer_deleted, v(&["x"]));
}

#[test]
fn peer_rows_on_disk_are_kept() {
    let r = merge_saved_rows(&v(&["a", "peer"]), &v(&[]), &v(&["a"]), &v(&[]));
    assert_eq!(r.stored, v(&["a", "peer"]));
}

#[test]
fn save_merges_group_paths() {
    assert_eq!(
        merge_saved_groups(&v(&["work", "old", "play"]), &v(&["old"]), &v(&["work", "new"])),
        v(&["work", "play", "new"])
    );
}

use boa::save::tombstones_to_drain;

#[test]
fn failed_write_keeps_pending_changes() {
    assert_eq!(tombstones_to_drain(&[true, true, false, true]), 2);
    assert_eq!(tombstones_to_drain(&[false, true]), 0);
    assert_eq!(tombstones_to_drain(&[true, true]), 2);
    assert_eq!(tombstones_to_drain(&[]), 0);
}
