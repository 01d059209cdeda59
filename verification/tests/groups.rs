use boa::groups::should_prune_group;
use boa::groups::{active_sessions_in_group, GroupMember};
use boa::startup::GroupByMode;
use boa::groups::{affected_sessions, group_rename_target, in_group_subtree, renamed_group_path};

#[test]
fn subtree_is_the_group_and_what_lies_below_it() {
    assert!(in_group_subtree("work", "work"));
    assert!(in_group_subtree("work/api", "work"));
    assert!(!in_group_subtree("workshop", "work"));
    assert!(!in_group_subtree("play/work", "work"));
}

#[test]
fn renamed_paths_keep_their_tail() {
    assert_eq!(renamed_group_path("work", "work", "jobs"), "jobs");
    assert_eq!(renamed_group_path("work/api/v2", "work", "jobs"), "jobs/api/v2");
    let there = renamed_group_path("work/api", "work", "a/b");
    assert_eq!(renamed_group_path(&there, "a/b", "work"), "work/api");
}

#[test]
fn rename_target_follows_the_dialog() {
    assert_eq!(group_rename_target(Some("jobs"), "work", false), Some("jobs".to_string()));
    assert_eq!(group_rename_target(Some("work"), "work", false), None);
    assert_eq!(group_rename_target(Some(""), "work", false), None);
    assert_eq!(group_rename_target(None, "work", false), None);
    assert_eq!(group_rename_target(None, "work", true), Some("work".to_string()));
    assert_eq!(group_rename_target(Some("work"), "work", true), Some("work".to_string()));
}

#[test]
fn rename_moves_sessions_of_the_groups_profile_only() {
    let s = |g: &str, p: &str| (g.to_string(), p.to_string());
    let sessions = vec![
        s("work", "default"),
        s("work/api", "default"),
        s("workshop", "default"),
        s("work", "other"),
        s("", "default"),
    ];
    assert_eq!(affected_sessions(&sessions, "work", "default"), vec![0, 1]);
    assert_eq!(affected_sessions(&sessions, "work", "other"), vec![3]);
}

fn member(project: &str, group: &str, profile: &str, archived: bool) -> GroupMember {
    GroupMember {
        project_group: project.to_string(),
        group_path: group.to_string(),
        profile: profile.to_string(),
        archived,
        trashed: false,
    }
}

#[test]
fn group_actions_target_active_members() {
    let sessions = vec![
        member("app", "work", "default", false),
        member("app", "work/api", "other", false),
        member("lib", "work", "default", true),
        member("app", "play", "default", false),
    ];
    assert_eq!(active_sessions_in_group(&sessions, GroupByMode::Manual, "work", None), vec![0, 1]);
    assert_eq!(
        active_sessions_in_group(&sessions, GroupByMode::Manual, "work", Some("default")),
        vec![0]
    );
    assert_eq!(active_sessions_in_group(&sessions, GroupByMode::Project, "app", None), vec![0, 1, 3]);
    assert!(active_sessions_in_group(&sessions, GroupByMode::Project, "lib", None).is_empty());
}

#[test]
fn emptied_group_is_pruned_unless_still_used() {
    let s = |g: &str, p: &str| (g.to_string(), p.to_string());
    let sessions = vec![s("work/api", "default"), s("play", "other")];
    let tree = vec!["work".to_string(), "work/api".to_string(), "play".to_string(), "docs".to_string()];
    assert!(!should_prune_group("work", &sessions, "default", &tree));
    assert!(should_prune_group("play", &sessions, "default", &tree));
    assert!(!should_prune_group("play", &sessions, "other", &tree));
    assert!(!should_prune_group("", &sessions, "default", &tree));
    let anchored = vec!["docs".to_string(), "docs/anchor".to_string()];
    assert!(!should_prune_group("docs", &sessions, "default", &anchored));
    assert!(should_prune_group("docs", &sessions, "default", &tree));
}
