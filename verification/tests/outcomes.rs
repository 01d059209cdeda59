use boa::outcomes::{
    creation_outcome, join_with, live_send_step, merge_reloaded, CreationPlan, CreationReport, LiveSendStep,
    LiveTarget,
};

fn success(id: &str, warnings: &[&str]) -> CreationReport {
    CreationReport::Success {
        session_id: id.to_string(),
        warnings: warnings.iter().map(|s| s.to_string()).collect(),
        hooks_ran: true,
    }
}

#[test]
fn cancelled_creation_is_discarded() {
    match creation_outcome(true, success("s1", &[]), Some("stub"), None, None, "default") {
        CreationPlan::Discard { remove_stub, clean_up_created } => {
            assert_eq!(remove_stub.as_deref(), Some("stub"));
            assert!(clean_up_created);
        }
        _ => panic!("expected discard"),
    }
    match creation_outcome(true, CreationReport::Failure("x".to_string()), None, None, None, "default") {
        CreationPlan::Discard { remove_stub, clean_up_created } => {
            assert_eq!(remove_stub, None);
            assert!(!clean_up_created);
        }
        _ => panic!("expected discard"),
    }
}

#[test]
fn created_session_is_filed_and_attached() {
    match creation_outcome(false, success("s1", &["a", "b"]), Some("stub"), None, Some("work"), "default") {
        CreationPlan::Attach { remove_stub, profile, session_id, hooks_ran, warnings } => {
            assert_eq!(remove_stub.as_deref(), Some("stub"));
            assert_eq!(profile, "work");
            assert_eq!(session_id, "s1");
            assert!(hooks_ran);
            assert_eq!(
                warnings.as_deref(),
                Some("Session was created, but the following warnings were emitted during setup:\n\na\n\nb")
            );
        }
        _ => panic!("expected attach"),
    }
    match creation_outcome(false, success("s1", &[]), None, Some("req"), Some("work"), "default") {
        CreationPlan::Attach { profile, warnings, .. } => {
            assert_eq!(profile, "req");
            assert_eq!(warnings, None);
        }
        _ => panic!("expected attach"),
    }
    match creation_outcome(false, success("s1", &[]), None, None, None, "default") {
        CreationPlan::Attach { profile, .. } => assert_eq!(profile, "default"),
        _ => panic!("expected attach"),
    }
}

#[test]
fn failed_creation_shows_its_error() {
    match creation_outcome(false, CreationReport::Failure("boom".to_string()), Some("stub"), None, None, "d") {
        CreationPlan::ShowError { stub, message } => {
            assert_eq!(stub, "stub");
            assert_eq!(message, "boom");
        }
        _ => panic!("expected error dialog"),
    }
    assert!(matches!(
        creation_outcome(false, CreationReport::Failure("boom".to_string()), None, None, None, "d"),
        CreationPlan::ErrorInDialog(m) if m == "boom"
    ));
}

#[test]
fn joins_with_a_separator() {
    let parts = vec!["a".to_string(), "b".to_string(), "c".to_string()];
    assert_eq!(join_with(&parts, ", "), "a, b, c");
    assert_eq!(join_with(&[], ", "), "");
}

fn fail_text(step: LiveSendStep) -> String {
    match step {
        LiveSendStep::Fail(m) => m,
        LiveSendStep::Start { .. } => panic!("expected failure"),
    }
}

#[test]
fn live_send_fails_with_the_readiness_message() {
    assert_eq!(
        fail_text(live_send_step(LiveTarget::Agent, Ok(Some("abc".to_string())), true, Ok("t".to_string()), None)),
        "Resume failed for sid abc; preserved for explicit retry"
    );
    assert_eq!(
        fail_text(live_send_step(LiveTarget::Agent, Err("docker".to_string()), true, Ok("t".to_string()), None)),
        "Cannot prepare session: docker"
    );
    assert_eq!(
        fail_text(live_send_step(LiveTarget::Terminal, Err("dead".to_string()), true, Ok("t".to_string()), None)),
        "Cannot prepare terminal: dead"
    );
    assert_eq!(
        fail_text(live_send_step(LiveTarget::ContainerTerminal, Err("x".to_string()), true, Ok("t".to_string()), None)),
        "Cannot prepare container terminal: x"
    );
    assert_eq!(
        fail_text(live_send_step(LiveTarget::Agent, Ok(None), false, Ok("t".to_string()), None)),
        "Session disappeared before live mode could start."
    );
    assert_eq!(
        fail_text(live_send_step(LiveTarget::Agent, Ok(None), true, Err("no name".to_string()), None)),
        "Cannot resolve tmux session: no name"
    );
}

#[test]
fn live_send_switches_away_from_another_session() {
    match live_send_step(LiveTarget::Terminal, Ok(None), true, Ok("b".to_string()), Some("a")) {
        LiveSendStep::Start { tmux_name, switch_from } => {
            assert_eq!(tmux_name, "b");
            assert_eq!(switch_from.as_deref(), Some("a"));
        }
        _ => panic!("expected start"),
    }
    match live_send_step(LiveTarget::Agent, Ok(None), true, Ok("b".to_string()), Some("b")) {
        LiveSendStep::Start { switch_from, .. } => assert_eq!(switch_from, None),
        _ => panic!("expected start"),
    }
}

#[test]
fn reload_carries_runtime_state_by_id_and_keeps_the_stub() {
    let ids = |xs: &[&str]| xs.iter().map(|s| s.to_string()).collect::<Vec<_>>();
    let m = merge_reloaded(&ids(&["a", "new", "b"]), &ids(&["b", "a", "stub", "a"]), Some("stub"));
    assert_eq!(m.carried, vec![Some(3), None, Some(0)]);
    assert_eq!(m.keep_stub, Some(2));
    let m = merge_reloaded(&ids(&["stub"]), &ids(&["stub"]), Some("stub"));
    assert_eq!(m.keep_stub, None);
    let m = merge_reloaded(&ids(&["a"]), &ids(&["a"]), None);
    assert_eq!(m.keep_stub, None);
}

use boa::home::Status;
use boa::outcomes::{deletion_outcome, restart_outcome, stop_outcome, DeletionOutcome};

#[test]
fn delete_results_drop_or_mark_the_row() {
    assert!(matches!(deletion_outcome(true, &[]), DeletionOutcome::Remove));
    assert!(matches!(deletion_outcome(false, &[]), DeletionOutcome::MarkError(None)));
    let errs = vec!["a".to_string(), "b".to_string()];
    assert!(matches!(deletion_outcome(false, &errs), DeletionOutcome::MarkError(Some(e)) if e == "a; b"));
}

#[test]
fn stop_results_set_status_and_error() {
    assert_eq!(stop_outcome(true, Some("x".to_string())), (Status::Stopped, None));
    assert_eq!(stop_outcome(false, Some("x".to_string())), (Status::Error, Some("x".to_string())));
}

#[test]
fn restart_results_report_failures() {
    let r = restart_outcome(Ok(None));
    assert!(r.dialog.is_none() && r.error.is_none());
    let r = restart_outcome(Ok(Some("s9".to_string())));
    assert_eq!(r.dialog.as_deref(), Some("Resume failed for sid s9; preserved for explicit retry"));
    assert!(r.error.is_none());
    let r = restart_outcome(Err("boom".to_string()));
    assert_eq!(r.dialog.as_deref(), Some("Could not restart session: boom"));
    assert_eq!(r.error.as_deref(), Some("boom"));
}
