use boa::home::Status;
use boa::startup::{
    initial_layout, orphaned_creating, recovery_picks, status_hook_profile_names, GroupByMode, HomeLayout, SavedLayout,
    DEFAULT_LIST_WIDTH,
};

fn saved(has_seen_welcome: bool) -> SavedLayout {
    SavedLayout {
        has_seen_welcome,
        group_by: None,
        list_width: None,
        show_preview_info: None,
        archived_section_collapsed: None,
        sidebar_collapsed: None,
    }
}

#[test]
fn new_user_gets_project_grouping() {
    let layout = initial_layout(None);
    assert_eq!(
        layout,
        HomeLayout {
            group_by: GroupByMode::Project,
            list_width: 35,
            show_preview_info: true,
            archived_section_collapsed: true,
            sidebar_collapsed: false,
        }
    );
    assert_eq!(initial_layout(Some(saved(false))).group_by, GroupByMode::Project);
}

#[test]
fn returning_user_keeps_manual_grouping() {
    assert_eq!(initial_layout(Some(saved(true))).group_by, GroupByMode::Manual);
    assert_eq!(initial_layout(Some(saved(true))).list_width, DEFAULT_LIST_WIDTH);
}

#[test]
fn saved_choices_win() {
    let s = SavedLayout {
        has_seen_welcome: false,
        group_by: Some(GroupByMode::Manual),
        list_width: Some(50),
        show_preview_info: Some(false),
        archived_section_collapsed: Some(false),
        sidebar_collapsed: Some(true),
    };
    assert_eq!(
        initial_layout(Some(s)),
        HomeLayout {
            group_by: GroupByMode::Manual,
            list_width: 50,
            show_preview_info: false,
            archived_section_collapsed: false,
            sidebar_collapsed: true,
        }
    );
}

#[test]
fn orphaned_creating_sessions_are_found() {
    let statuses = [Status::Running, Status::Creating, Status::Idle, Status::Creating];
    assert_eq!(orphaned_creating(&statuses), vec![1, 3]);
    assert!(orphaned_creating(&[Status::Running, Status::Error]).is_empty());
}

#[test]
fn recovery_skips_live_panes_and_non_candidates() {
    let alive = [true, false, false, true];
    let qualifies = [true, true, false, false];
    assert_eq!(recovery_picks(&alive, &qualifies), vec![1]);
    assert!(recovery_picks(&[], &[]).is_empty());
}

#[test]
fn status_hook_profiles_include_the_default_sorted_once() {
    let loaded = vec!["work".to_string(), "default".to_string(), "alpha".to_string()];
    assert_eq!(
        status_hook_profile_names(None, &loaded, "default"),
        vec!["alpha".to_string(), "default".to_string(), "work".to_string()]
    );
    assert_eq!(
        status_hook_profile_names(Some("work"), &loaded, "default"),
        vec!["default".to_string(), "work".to_string()]
    );
    assert_eq!(status_hook_profile_names(Some("main"), &[], "main"), vec!["main".to_string()]);
    let dup = vec!["b".to_string(), "a".to_string(), "b".to_string()];
    assert_eq!(
        status_hook_profile_names(None, &dup, "c"),
        vec!["a".to_string(), "b".to_string(), "c".to_string()]
    );
}

use boa::startup::{loaded_profiles, reconcile_storages, tag_rows};

fn strs(xs: &[&str]) -> Vec<String> {
    xs.iter().map(|s| s.to_string()).collect()
}

#[test]
fn active_profile_loads_alone() {
    assert_eq!(loaded_profiles(Some("work"), &strs(&["a", "work"])), strs(&["work"]));
    assert_eq!(loaded_profiles(None, &strs(&["a", "work"])), strs(&["a", "work"]));
}

#[test]
fn rows_are_tagged_with_their_profile() {
    let loads = vec![("a".to_string(), strs(&["s1", "s2"])), ("b".to_string(), strs(&["s3"]))];
    let rows = tag_rows(&loads);
    let expected: Vec<(String, String)> = vec![
        ("s1".to_string(), "a".to_string()),
        ("s2".to_string(), "a".to_string()),
        ("s3".to_string(), "b".to_string()),
    ];
    assert_eq!(rows, expected);
    assert!(tag_rows(&[]).is_empty());
}

#[test]
fn unified_reload_opens_new_and_closes_gone_profiles() {
    let r = reconcile_storages(true, &strs(&["a", "b"]), &strs(&["b", "c"]));
    assert_eq!(r.open, strs(&["c"]));
    assert_eq!(r.close, strs(&["a"]));
    let r = reconcile_storages(false, &strs(&["a"]), &strs(&["b"]));
    assert!(r.open.is_empty() && r.close.is_empty());
}
