use boa::bindings::TerminalMode;
use boa::home::{grown_width, has_animated_sessions, project_group_name, select_top_attention, shrunk_width, toggled_terminal_mode};
use boa::paths::{file_name_of, join};
use boa::home::{restart_gate, RestartGate, RestartRow};
use boa::home::{plan_status_update, StatusUpdatePlan};
use boa::home::{
    env_mouse_capture_allows, get_indent, humanize_minutes, mouse_capture_requested, truncate,
    worktree_rename_block, ConfigWatchKey, Status, WorktreeRenameBlock,
};

#[test]
fn idle_sandbox_with_running_container_blocks() {
    assert_eq!(
        worktree_rename_block(Status::Idle, true, true),
        Some(WorktreeRenameBlock::SandboxContainer)
    );
}

#[test]
fn idle_sandbox_with_stopped_container_is_safe() {
    assert_eq!(worktree_rename_block(Status::Idle, true, false), None);
}

#[test]
fn idle_non_sandbox_is_safe() {
    assert_eq!(worktree_rename_block(Status::Idle, false, false), None);
}

#[test]
fn active_status_blocks_as_active_agent() {
    for status in [
        Status::Running,
        Status::Waiting,
        Status::Starting,
        Status::Creating,
        Status::Deleting,
    ] {
        assert_eq!(
            worktree_rename_block(status, false, false),
            Some(WorktreeRenameBlock::ActiveAgent),
            "{status:?} should block as ActiveAgent"
        );
    }
}

#[test]
fn active_status_takes_precedence_over_container() {
    assert_eq!(
        worktree_rename_block(Status::Running, true, true),
        Some(WorktreeRenameBlock::ActiveAgent)
    );
}

#[test]
fn enabled_config_without_env_requests_capture() {
    assert!(mouse_capture_requested(true, None));
}

#[test]
fn disabled_config_opts_out_even_without_env() {
    assert!(!mouse_capture_requested(false, None));
}

#[test]
fn env_zero_still_wins_over_enabled_config() {
    assert!(!mouse_capture_requested(true, Some("0")));
}

#[test]
fn env_true_does_not_re_enable_disabled_config() {
    assert!(!mouse_capture_requested(false, Some("1")));
}

// ---------------------------------------------------------------------------
// Further cases
// ---------------------------------------------------------------------------

#[test]
fn env_false_in_any_case_disables_capture() {
    assert!(!env_mouse_capture_allows(Some("FALSE")));
    assert!(!env_mouse_capture_allows(Some("False")));
    assert!(env_mouse_capture_allows(Some("no")));
    assert!(env_mouse_capture_allows(Some("00")));
    assert!(env_mouse_capture_allows(None));
}

#[test]
fn idle_stopped_and_error_do_not_block_without_container() {
    for status in [Status::Idle, Status::Stopped, Status::Error, Status::Unknown] {
        assert_eq!(worktree_rename_block(status, true, false), None);
    }
}

#[test]
fn snooze_labels() {
    assert_eq!(humanize_minutes(30), "30 min");
    assert_eq!(humanize_minutes(60), "1 hr");
    assert_eq!(humanize_minutes(1440), "24 hr");
    assert_eq!(humanize_minutes(150), "2 hr 30 min");
    assert_eq!(humanize_minutes(0), "0 min");
}

#[test]
fn indents_cap_at_nine() {
    assert_eq!(get_indent(0), "");
    assert_eq!(get_indent(3), "   ");
    assert_eq!(get_indent(9), "         ");
    assert_eq!(get_indent(40), "         ");
}

#[test]
fn truncation_ends_in_an_ellipsis() {
    assert_eq!(truncate("hello", 5), "hello");
    assert_eq!(truncate("hello world", 5), "hell…");
    assert_eq!(truncate("héllo wörld", 6), "héllo…");
    assert_eq!(truncate("abc", 0), "…");
}

#[test]
fn profile_watch_keys_never_collide_with_global() {
    assert_eq!(ConfigWatchKey::profile("<global>"), ConfigWatchKey::Profile("<global>".to_string()));
    assert_ne!(ConfigWatchKey::profile("<global>"), ConfigWatchKey::Global);
}

#[test]
fn project_groups_use_the_repo_basename() {
    assert_eq!(project_group_name(true, "/home/u/.aoe/scratch/abc123"), "scratch");
    assert_eq!(project_group_name(false, "/home/u/src/boa"), "boa");
    assert_eq!(project_group_name(false, "/home/u/src/boa/"), "boa");
    assert_eq!(project_group_name(false, "/"), "/");
}

#[test]
fn paths_join_like_pathbuf() {
    assert_eq!(join("/a/b", "c"), "/a/b/c");
    assert_eq!(join("/a/b/", "c"), "/a/b/c");
    assert_eq!(join("", "c"), "c");
    assert_eq!(join("/a", "/etc"), "/etc");
    assert_eq!(file_name_of("/a/b.toml").as_deref(), Some("b.toml"));
    assert_eq!(file_name_of("/a/.."), None);
    assert_eq!(boa::version::cache_path("/home/u/.config/aoe"), "/home/u/.config/aoe/update_cache.json");
}

#[test]
fn spinners_need_redraws() {
    assert!(has_animated_sessions(&[Status::Idle, Status::Creating]));
    assert!(!has_animated_sessions(&[Status::Idle, Status::Error, Status::Deleting]));
    assert!(!has_animated_sessions(&[]));
}

#[test]
fn list_width_steps_within_bounds() {
    assert_eq!(shrunk_width(40), 35);
    assert_eq!(shrunk_width(12), 10);
    assert_eq!(shrunk_width(3), 10);
    assert_eq!(grown_width(40), 45);
    assert_eq!(grown_width(78), 80);
    assert_eq!(toggled_terminal_mode(TerminalMode::Host), TerminalMode::Container);
    assert_eq!(toggled_terminal_mode(TerminalMode::Container), TerminalMode::Host);
}

#[test]
fn top_attention_skips_the_session_being_left() {
    let rows = vec![None, Some("a".to_string()), Some("b".to_string())];
    assert_eq!(select_top_attention(&rows, None), Some(1));
    assert_eq!(select_top_attention(&rows, Some("a")), Some(2));
    let only = vec![None, Some("a".to_string())];
    assert_eq!(select_top_attention(&only, Some("a")), Some(1));
    assert_eq!(select_top_attention(&[None, None], Some("a")), None);
}

#[test]
fn mosh_never_captures_the_mouse() {
    assert_eq!(boa::home::mouse_policy(true, false), (true, true));
    assert_eq!(boa::home::mouse_policy(true, true), (false, false));
    assert_eq!(boa::home::mouse_policy(false, false), (false, true));
    assert_eq!(
        boa::home::combine_warnings(Some("a".to_string()), Some("b".to_string())).as_deref(),
        Some("a\n\nb")
    );
    assert_eq!(boa::home::combine_warnings(None, Some("b".to_string())).as_deref(), Some("b"));
    assert_eq!(boa::home::combine_warnings(None, None), None);
}

fn plain_row(status: Status) -> RestartRow {
    RestartRow { status, archived: false, trashed: false, snoozed: false, pane_dead_observed: false }
}

#[test]
fn restart_proceeds_on_a_plain_row() {
    assert_eq!(
        restart_gate(plain_row(Status::Running), false, false, None),
        RestartGate::Restart { wake_snooze: false }
    );
    assert_eq!(
        restart_gate(plain_row(Status::Error), false, true, Some(1500)),
        RestartGate::Restart { wake_snooze: false }
    );
}

#[test]
fn restart_is_dropped_in_flight_transient_or_within_cooldown() {
    assert_eq!(restart_gate(plain_row(Status::Running), true, false, None), RestartGate::Ignore);
    assert_eq!(restart_gate(plain_row(Status::Creating), false, false, None), RestartGate::Ignore);
    assert_eq!(restart_gate(plain_row(Status::Deleting), false, false, None), RestartGate::Ignore);
    assert_eq!(restart_gate(plain_row(Status::Idle), false, false, Some(1499)), RestartGate::Ignore);
    let mut archived = plain_row(Status::Idle);
    archived.archived = true;
    assert_eq!(restart_gate(archived, false, false, None), RestartGate::Ignore);
    let mut dead = plain_row(Status::Idle);
    dead.pane_dead_observed = true;
    assert_eq!(restart_gate(dead, false, false, None), RestartGate::Ignore);
}

#[test]
fn restart_wakes_a_snoozed_row_outside_attention_sort() {
    let mut snoozed = plain_row(Status::Idle);
    snoozed.snoozed = true;
    assert_eq!(restart_gate(snoozed, false, false, None), RestartGate::Restart { wake_snooze: true });
    assert_eq!(restart_gate(snoozed, false, true, None), RestartGate::Ignore);
}

#[test]
fn finished_turn_marks_unread() {
    let plan = plan_status_update(Some(Status::Running), Status::Idle, false, true, false, false);
    assert_eq!(
        plan,
        StatusUpdatePlan { store_status: true, transition: true, mark_unread: true, store_last_accessed: false }
    );
    let watched = plan_status_update(Some(Status::Running), Status::Idle, true, true, true, false);
    assert!(!watched.mark_unread && watched.store_last_accessed);
    let off = plan_status_update(Some(Status::Running), Status::Idle, false, false, false, false);
    assert!(off.transition && !off.mark_unread);
}

#[test]
fn polls_skip_stopped_and_transient_sessions() {
    assert!(!plan_status_update(Some(Status::Stopped), Status::Running, false, true, false, false).store_status);
    assert!(!plan_status_update(Some(Status::Running), Status::Stopped, false, true, false, false).store_status);
    assert!(!plan_status_update(Some(Status::Creating), Status::Idle, false, true, false, false).store_status);
    assert!(!plan_status_update(Some(Status::Deleting), Status::Idle, false, true, false, false).store_status);
    assert!(!plan_status_update(None, Status::Idle, false, true, false, false).store_status);
    let same = plan_status_update(Some(Status::Idle), Status::Idle, false, true, false, false);
    assert!(same.store_status && !same.transition);
}

use boa::home::{check_profile_move, restart_edits};

#[test]
fn profile_moves_are_checked_against_known_profiles() {
    let profiles = vec!["default".to_string(), "work".to_string()];
    assert_eq!(check_profile_move(None, "default", &profiles), Ok(false));
    assert_eq!(check_profile_move(Some("default"), "default", &profiles), Ok(false));
    assert_eq!(check_profile_move(Some("work"), "default", &profiles), Ok(true));
    assert_eq!(
        check_profile_move(Some("ghost"), "default", &profiles),
        Err("Profile 'ghost' does not exist".to_string())
    );
}

#[test]
fn restart_edits_apply_only_what_changes() {
    let e = restart_edits("aider", Some("goose"), Some("goose --fast"), None);
    assert_eq!(e.tool.as_deref(), Some("goose"));
    assert_eq!(e.command.as_deref(), Some("goose --fast"));
    assert_eq!(e.extra_args, None);
    let e = restart_edits("aider", Some("aider"), None, Some("--yes"));
    assert_eq!(e.tool, None);
    assert_eq!(e.command, None);
    assert_eq!(e.extra_args.as_deref(), Some("--yes"));
}
