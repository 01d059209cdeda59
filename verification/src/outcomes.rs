//! What the home view does with the outcome of background work: a session
//! creation finishing, a live-send target being made ready, and a reload of
//! the stored sessions.
use vstd::prelude::*;
use crate::home::Status;
use crate::settings::join;
use crate::text::{names_of, owned, push_all, str_eq};

verus! {

/// Joins `parts` with `sep` between them.
pub fn join_with(parts: &[String], sep: &str) -> (r: String)
    ensures
        r@ == join(names_of(parts@), sep@),
{
    let mut s = String::new();
    let ghost ns = names_of(parts@);
    let mut i: usize = 0;
    while i < parts.len()
        invariant
            i <= parts@.len(),
            ns == names_of(parts@),
            s@ == join(ns.take(i as int), sep@),
        decreases parts@.len() - i,
    {
        assert(ns.take(i + 1).drop_last() =~= ns.take(i as int));
        assert(ns.take(i + 1).last() == parts@[i as int]@);
        if i > 0 {
            push_all(&mut s, sep);
        } else {
            assert(ns.take(0) =~= Seq::<Seq<char>>::empty());
        }
        push_all(&mut s, parts[i].as_str());
        i = i + 1;
    }
    assert(ns.take(parts@.len() as int) =~= ns);
    s
}

// ---------------------------------------------------------------------------
// Session creation
// ---------------------------------------------------------------------------
/// How a background session creation ended.
pub enum CreationReport {
    /// The session was built.
    Success {
        session_id: String,
        /// Warnings emitted during setup.
        warnings: Vec<String>,
        /// Whether the on-launch hooks already ran.
        hooks_ran: bool,
    },
    /// It failed with this error.
    Failure(String),
}

/// What the home view does with a finished creation.
pub enum CreationPlan {
    /// The user cancelled meanwhile: remove the placeholder row (when there
    /// is one) and, when the session was built, tear it down again.
    Discard { remove_stub: Option<String>, clean_up_created: bool },
    /// Remove the placeholder, file the new session under `profile`, select
    /// it and attach; show `warnings` when there are any.
    Attach {
        remove_stub: Option<String>,
        profile: String,
        session_id: String,
        hooks_ran: bool,
        warnings: Option<String>,
    },
    /// Remove the placeholder and show the error in a "Creation Failed"
    /// dialog.
    ShowError { stub: String, message: String },
    /// No placeholder: the error goes to the new-session dialog.
    ErrorInDialog(String),
}

/// The text of the setup-warnings dialog.
pub open spec fn warnings_message(warnings: Seq<Seq<char>>) -> Seq<char> {
    "Session was created, but the following warnings were emitted during setup:\n\n"@ + join(
        warnings,
        "\n\n"@,
    )
}

pub open spec fn opt_view(o: Option<&str>) -> Option<Seq<char>> {
    match o {
        Some(s) => Some(s@),
        None => None,
    }
}

pub open spec fn opt_string_view(o: Option<String>) -> Option<Seq<char>> {
    match o {
        Some(s) => Some(s@),
        None => None,
    }
}

/// The profile a created session is filed under: the one the creation was
/// requested for, else the active profile, else the default one.
pub open spec fn creation_profile(last: Option<Seq<char>>, active: Option<Seq<char>>, default_profile: Seq<char>) -> Seq<
    char,
> {
    match last {
        Some(p) => p,
        None => match active {
            Some(a) => a,
            None => default_profile,
        },
    }
}

/// The plan for a finished creation, given whether the user cancelled, the
/// placeholder row's id, the profile the creation was requested for, the
/// active profile and the default profile.
pub fn creation_outcome(
    cancelled: bool,
    report: CreationReport,
    stub: Option<&str>,
    last_profile: Option<&str>,
    active_profile: Option<&str>,
    default_profile: &str,
) -> (r: CreationPlan)
    ensures
        cancelled ==> (r matches CreationPlan::Discard { remove_stub, clean_up_created } && opt_string_view(
            remove_stub,
        ) == opt_view(stub) && clean_up_created == (report is Success)),
        !cancelled ==> match report {
            CreationReport::Success { session_id, warnings, hooks_ran } => r matches CreationPlan::Attach {
                remove_stub: rs,
                profile,
                session_id: sid,
                hooks_ran: h,
                warnings: w,
            } && opt_string_view(rs) == opt_view(stub) && profile@ == creation_profile(
                opt_view(last_profile),
                opt_view(active_profile),
                default_profile@,
            ) && sid@ == session_id@ && h == hooks_ran && (if warnings@.len() == 0 {
                w is None
            } else {
                w matches Some(m) && m@ == warnings_message(names_of(warnings@))
            }),
            CreationReport::Failure(e) => match stub {
                Some(s) => r matches CreationPlan::ShowError { stub: st, message } && st@ == s@
                    && message@ == e@,
                None => r matches CreationPlan::ErrorInDialog(m) && m@ == e@,
            },
        },
{
    let remove_stub = match stub {
        Some(s) => Some(owned(s)),
        None => None,
    };
    if cancelled {
        let built = match &report {
            CreationReport::Success { .. } => true,
            CreationReport::Failure(_) => false,
        };
        return CreationPlan::Discard { remove_stub, clean_up_created: built };
    }
    match report {
        CreationReport::Success { session_id, warnings, hooks_ran } => {
            let profile = match last_profile {
                Some(p) => owned(p),
                None => match active_profile {
                    Some(a) => owned(a),
                    None => owned(default_profile),
                },
            };
            let w = if warnings.len() == 0 {
                None
            } else {
                let mut m = owned(
                    "Session was created, but the following warnings were emitted during setup:\n\n",
                );
                let body = join_with(warnings.as_slice(), "\n\n");
                push_all(&mut m, body.as_str());
                Some(m)
            };
            CreationPlan::Attach { remove_stub, profile, session_id, hooks_ran, warnings: w }
        },
        CreationReport::Failure(e) => match stub {
            Some(s) => CreationPlan::ShowError { stub: owned(s), message: e },
            None => CreationPlan::ErrorInDialog(e),
        },
    }
}

// ---------------------------------------------------------------------------
// Live send
// ---------------------------------------------------------------------------
/// The pane live send drives.
#[derive(Debug, Clone, Copy, PartialEq, Eq, Structural)]
pub enum LiveTarget {
    /// The agent's own pane.
    Agent,
    /// The paired shell.
    Terminal,
    /// The paired shell inside the container.
    ContainerTerminal,
}

/// What live send does next.
pub enum LiveSendStep {
    /// Show this message under "Live send failed" and stay out of live mode.
    Fail(String),
    /// Enter live mode on `tmux_name`; when `switch_from` names another
    /// session, drop its worker and previews and reset its size first.
    Start { tmux_name: String, switch_from: Option<String> },
}

/// The message for a pane that could not be made ready: `readiness` is the
/// readiness result, `Ok(Some(sid))` when the agent's resume failed.
pub open spec fn not_ready_message(target: LiveTarget, readiness: Result<Option<Seq<char>>, Seq<char>>) -> Option<
    Seq<char>,
> {
    match (target, readiness) {
        (LiveTarget::Agent, Ok(Some(sid))) => Some(
            "Resume failed for sid "@ + sid + "; preserved for explicit retry"@,
        ),
        (LiveTarget::Agent, Err(e)) => Some("Cannot prepare session: "@ + e),
        (LiveTarget::Terminal, Err(e)) => Some("Cannot prepare terminal: "@ + e),
        (LiveTarget::ContainerTerminal, Err(e)) => Some("Cannot prepare container terminal: "@ + e),
        _ => None,
    }
}

pub open spec fn readiness_view(r: Result<Option<String>, String>) -> Result<Option<Seq<char>>, Seq<char>> {
    match r {
        Ok(Some(s)) => Ok(Some(s@)),
        Ok(None) => Ok(None),
        Err(e) => Err(e@),
    }
}

/// Entering live mode: fail with the message of a pane that is not ready
/// (a failed agent resume counts; the shells have no resume), then when the
/// session is gone, then when the agent's tmux session cannot be resolved
/// (`tmux_name` is that resolution); otherwise start, switching away from
/// the previous live session when it is another one.
pub fn live_send_step(
    target: LiveTarget,
    readiness: Result<Option<String>, String>,
    instance_present: bool,
    tmux_name: Result<String, String>,
    previous: Option<&str>,
) -> (r: LiveSendStep)
    ensures
        not_ready_message(target, readiness_view(readiness)) matches Some(m) ==> (r matches LiveSendStep::Fail(f)
            && f@ == m),
        not_ready_message(target, readiness_view(readiness)) is None && !instance_present ==> (r matches LiveSendStep::Fail(
            f,
        ) && f@ == "Session disappeared before live mode could start."@),
        not_ready_message(target, readiness_view(readiness)) is None && instance_present ==> match tmux_name {
            Err(e) => r matches LiveSendStep::Fail(f) && f@ == "Cannot resolve tmux session: "@ + e@,
            Ok(n) => r matches LiveSendStep::Start { tmux_name: t, switch_from } && t@ == n@ && match previous {
                Some(p) => if p@ != n@ {
                    switch_from matches Some(s) && s@ == p@
                } else {
                    switch_from is None
                },
                None => switch_from is None,
            },
        },
{
    match (target, &readiness) {
        (LiveTarget::Agent, Ok(Some(sid))) => {
            let mut m = owned("Resume failed for sid ");
            push_all(&mut m, sid.as_str());
            push_all(&mut m, "; preserved for explicit retry");
            return LiveSendStep::Fail(m);
        },
        (LiveTarget::Agent, Err(e)) => {
            let mut m = owned("Cannot prepare session: ");
            push_all(&mut m, e.as_str());
            return LiveSendStep::Fail(m);
        },
        (LiveTarget::Terminal, Err(e)) => {
            let mut m = owned("Cannot prepare terminal: ");
            push_all(&mut m, e.as_str());
            return LiveSendStep::Fail(m);
        },
        (LiveTarget::ContainerTerminal, Err(e)) => {
            let mut m = owned("Cannot prepare container terminal: ");
            push_all(&mut m, e.as_str());
            return LiveSendStep::Fail(m);
        },
        _ => {},
    }
    if !instance_present {
        return LiveSendStep::Fail(owned("Session disappeared before live mode could start."));
    }
    match tmux_name {
        Err(e) => {
            let mut m = owned("Cannot resolve tmux session: ");
            push_all(&mut m, e.as_str());
            LiveSendStep::Fail(m)
        },
        Ok(n) => {
            let switch_from = match previous {
                Some(p) => if str_eq(p, n.as_str()) {
                    None
                } else {
                    Some(owned(p))
                },
                None => None,
            };
            LiveSendStep::Start { tmux_name: n, switch_from }
        },
    }
}

// ---------------------------------------------------------------------------
// Reloading stored sessions
// ---------------------------------------------------------------------------
/// The last index of `id` in `ids`, or -1.
pub open spec fn last_index_of(ids: Seq<Seq<char>>, id: Seq<char>) -> int
    decreases ids.len(),
{
    if ids.len() == 0 {
        -1
    } else if ids.last() == id {
        ids.len() - 1
    } else {
        last_index_of(ids.drop_last(), id)
    }
}

proof fn lemma_last_index_of(ids: Seq<Seq<char>>, id: Seq<char>)
    ensures
        last_index_of(ids, id) == -1 <==> !ids.contains(id),
        last_index_of(ids, id) != -1 ==> 0 <= last_index_of(ids, id) < ids.len() && ids[last_index_of(ids, id)]
            == id,
    decreases ids.len(),
{
    if ids.len() > 0 {
        lemma_last_index_of(ids.drop_last(), id);
        if ids.last() != id {
            if ids.contains(id) {
                let k = choose|k: int| 0 <= k < ids.len() && ids[k] == id;
                assert(k != ids.len() - 1);
                assert(ids.drop_last()[k] == id);
            }
            if ids.drop_last().contains(id) {
                let k = choose|k: int| 0 <= k < ids.drop_last().len() && ids.drop_last()[k] == id;
                assert(ids[k] == id);
            }
        } else {
            assert(ids[ids.len() - 1] == id);
        }
    }
}

fn find_last(ids: &[String], id: &str) -> (r: Option<usize>)
    ensures
        match r {
            Some(i) => last_index_of(names_of(ids@), id@) == i,
            None => last_index_of(names_of(ids@), id@) == -1,
        },
{
    let ghost ns = names_of(ids@);
    let mut i: usize = ids.len();
    assert(ns.take(i as int) =~= ns);
    while i > 0
        invariant
            i <= ids@.len(),
            ns == names_of(ids@),
            last_index_of(ns, id@) == last_index_of(ns.take(i as int), id@),
        decreases i,
    {
        assert(ns.take(i as int).drop_last() =~= ns.take(i - 1));
        assert(ns.take(i as int).last() == ids@[i - 1]@);
        if str_eq(ids[i - 1].as_str(), id) {
            return Some(i - 1);
        }
        i = i - 1;
    }
    assert(ns.take(0) =~= Seq::<Seq<char>>::empty());
    None
}

/// How a reload combines what is stored with what the list held.
pub struct ReloadMerge {
    /// For each stored session, the held row whose runtime state (status,
    /// error, start time, idle time, capture exclusions) it takes over, by
    /// index; `None` for a session the list did not hold.
    pub carried: Vec<Option<usize>>,
    /// The held row of the session being created, kept when the store does
    /// not have it yet.
    pub keep_stub: Option<usize>,
}

/// Merging a reload: each stored session (`loaded`, by id) takes over the
/// runtime state of the held row with its id (the last, as a map keyed by
/// id keeps it), and the placeholder of a session being created (`stub`) is
/// kept when the store lacks it and the list holds it.
pub fn merge_reloaded(loaded: &[String], held: &[String], stub: Option<&str>) -> (r: ReloadMerge)
    ensures
        r.carried@.len() == loaded@.len(),
        forall|i: int| 0 <= i < loaded@.len() ==> match #[trigger] r.carried@[i] {
            Some(k) => last_index_of(names_of(held@), loaded@[i]@) == k,
            None => last_index_of(names_of(held@), loaded@[i]@) == -1,
        },
        match stub {
            Some(s) => if names_of(loaded@).contains(s@) {
                r.keep_stub is None
            } else {
                match r.keep_stub {
                    Some(k) => last_index_of(names_of(held@), s@) == k,
                    None => last_index_of(names_of(held@), s@) == -1,
                }
            },
            None => r.keep_stub is None,
        },
{
    let mut carried: Vec<Option<usize>> = Vec::new();
    let mut i: usize = 0;
    while i < loaded.len()
        invariant
            i <= loaded@.len(),
            carried@.len() == i,
            forall|j: int| 0 <= j < i ==> match #[trigger] carried@[j] {
                Some(k) => last_index_of(names_of(held@), loaded@[j]@) == k,
                None => last_index_of(names_of(held@), loaded@[j]@) == -1,
            },
        decreases loaded@.len() - i,
    {
        carried.push(find_last(held, loaded[i].as_str()));
        i = i + 1;
    }
    let keep_stub = match stub {
        Some(s) => {
            proof {
                lemma_last_index_of(names_of(loaded@), s@);
            }
            match find_last(loaded, s) {
                Some(_) => None,
                None => find_last(held, s),
            }
        },
        None => None,
    };
    ReloadMerge { carried, keep_stub }
}

// ---------------------------------------------------------------------------
// Results of background deletes, stops and restarts
// ---------------------------------------------------------------------------
/// What a finished delete does to its row.
pub enum DeletionOutcome {
    /// The session is gone: drop the row and save.
    Remove,
    /// The delete failed: the row turns to `Error` with this error (none
    /// when the delete reported no message).
    MarkError(Option<String>),
}

/// A finished delete: a success drops the row; a failure marks it with
/// its errors joined by "; ".
pub fn deletion_outcome(success: bool, errors: &[String]) -> (r: DeletionOutcome)
    ensures
        success ==> r is Remove,
        !success ==> (r matches DeletionOutcome::MarkError(e) && opt_string_view(e) == (if errors@.len() == 0 {
            None
        } else {
            Some(join(names_of(errors@), "; "@))
        })),
{
    if success {
        DeletionOutcome::Remove
    } else if errors.len() == 0 {
        DeletionOutcome::MarkError(None)
    } else {
        DeletionOutcome::MarkError(Some(join_with(errors, "; ")))
    }
}

/// A finished stop: the row's status and error afterwards (`Stopped` and no
/// error on success, `Error` with the stop's error otherwise).
pub fn stop_outcome(success: bool, error: Option<String>) -> (r: (Status, Option<String>))
    ensures
        success ==> r.0 == Status::Stopped && r.1 is None,
        !success ==> r.0 == Status::Error && opt_string_view(r.1) == opt_string_view(error),
{
    if success {
        (Status::Stopped, None)
    } else {
        (Status::Error, error)
    }
}

/// What a finished restart does: the message of its "Restart Failed"
/// dialog, if any, and the error the row keeps (`Some` marks it `Error`).
pub struct RestartOutcome {
    pub dialog: Option<String>,
    pub error: Option<String>,
}

/// A finished restart; `result` is `Ok(Some(sid))` when the agent's resume
/// failed, `Ok(None)` on success and `Err` when the restart failed.
pub fn restart_outcome(result: Result<Option<String>, String>) -> (r: RestartOutcome)
    ensures
        match result {
            Ok(None) => r.dialog is None && r.error is None,
            Ok(Some(sid)) => (r.dialog matches Some(m) && m@ == "Resume failed for sid "@ + sid@
                + "; preserved for explicit retry"@) && r.error is None,
            Err(e) => (r.dialog matches Some(m) && m@ == "Could not restart session: "@ + e@) && (r.error matches Some(
                x,
            ) && x@ == e@),
        },
{
    match result {
        Ok(None) => RestartOutcome { dialog: None, error: None },
        Ok(Some(sid)) => {
            let mut m = owned("Resume failed for sid ");
            push_all(&mut m, sid.as_str());
            push_all(&mut m, "; preserved for explicit retry");
            RestartOutcome { dialog: Some(m), error: None }
        },
        Err(e) => {
            let mut m = owned("Could not restart session: ");
            push_all(&mut m, e.as_str());
            RestartOutcome { dialog: Some(m), error: Some(e) }
        },
    }
}

} // verus!
