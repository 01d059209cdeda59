//! Per-tick reload failure tracking for the home view.
//!
//! Reload sources (storage, config, disk-watcher init, config-watcher init)
//! report their results here; the tick loop shows one aggregated dialog per
//! failure burst. The acknowledgement latch is set when the dialog is shown
//! and cleared once every source is healthy again, or when a healthy source
//! starts failing during an acknowledged burst.
use vstd::prelude::*;
use crate::text::{chars_of, owned, push_all, seq_eq, str_eq};

verus! {

/// Latched record of a watcher init failure.
pub struct WatcherInitError {
    pub profile: Option<String>,
    pub message: String,
}

/// Reload failure state; see the module documentation.
pub struct ReloadFailureState {
    /// The storage reload error, while storage is failing.
    storage_error: Option<String>,
    /// The config reload error, while config is failing.
    config_error: Option<String>,
    disk_watcher_init_error: Option<WatcherInitError>,
    config_watcher_init_error: Option<WatcherInitError>,
    dialog_acknowledged: bool,
}

/// A latched watcher init failure: its profile, if any, and its message.
pub type InitFailure = (Option<Seq<char>>, Seq<char>);

/// The content of a [`ReloadFailureState`].
pub struct ReloadView {
    pub storage_failed: bool,
    pub storage_error: Option<Seq<char>>,
    pub config_failed: bool,
    pub config_error: Option<Seq<char>>,
    pub disk_init: Option<InitFailure>,
    pub config_init: Option<InitFailure>,
    pub acknowledged: bool,
}

pub open spec fn opt_str_view(o: Option<String>) -> Option<Seq<char>> {
    match o {
        Some(s) => Some(s@),
        None => None,
    }
}

pub open spec fn init_view(e: Option<WatcherInitError>) -> Option<InitFailure> {
    match e {
        Some(w) => Some((opt_str_view(w.profile), w.message@)),
        None => None,
    }
}

impl View for ReloadFailureState {
    type V = ReloadView;

    closed spec fn view(&self) -> ReloadView {
        ReloadView {
            storage_failed: self.storage_error is Some,
            storage_error: opt_str_view(self.storage_error),
            config_failed: self.config_error is Some,
            config_error: opt_str_view(self.config_error),
            disk_init: init_view(self.disk_watcher_init_error),
            config_init: init_view(self.config_watcher_init_error),
            acknowledged: self.dialog_acknowledged,
        }
    }
}

// ---------------------------------------------------------------------------
// The state machine
// ---------------------------------------------------------------------------
/// A source is failing exactly when its error is recorded.
pub open spec fn wf(s: ReloadView) -> bool {
    &&& s.storage_failed == (s.storage_error is Some)
    &&& s.config_failed == (s.config_error is Some)
}

pub open spec fn any_failure(s: ReloadView) -> bool {
    s.storage_failed || s.config_failed || s.disk_init is Some || s.config_init is Some
}

pub open spec fn unacknowledged(s: ReloadView) -> bool {
    any_failure(s) && !s.acknowledged
}

/// The state after a storage reload result (`None` for success, else the
/// error text).
pub open spec fn after_storage(s: ReloadView, err: Option<Seq<char>>) -> ReloadView {
    match err {
        None => if s.storage_failed {
            let t = ReloadView { storage_failed: false, storage_error: None, ..s };
            if !any_failure(t) {
                ReloadView { acknowledged: false, ..t }
            } else {
                t
            }
        } else {
            s
        },
        Some(e) => ReloadView {
            storage_failed: true,
            storage_error: Some(e),
            acknowledged: if !s.storage_failed {
                false
            } else {
                s.acknowledged
            },
            ..s
        },
    }
}

/// The state after a config reload result.
pub open spec fn after_config(s: ReloadView, err: Option<Seq<char>>) -> ReloadView {
    match err {
        None => if s.config_failed {
            let t = ReloadView { config_failed: false, config_error: None, ..s };
            if !any_failure(t) {
                ReloadView { acknowledged: false, ..t }
            } else {
                t
            }
        } else {
            s
        },
        Some(e) => ReloadView {
            config_failed: true,
            config_error: Some(e),
            acknowledged: if !s.config_failed {
                false
            } else {
                s.acknowledged
            },
            ..s
        },
    }
}

/// The state after a disk-watcher init failure is recorded.
pub open spec fn after_disk_init_failure(s: ReloadView, f: InitFailure) -> ReloadView {
    ReloadView {
        disk_init: Some(f),
        acknowledged: if s.disk_init is None {
            false
        } else {
            s.acknowledged
        },
        ..s
    }
}

/// The state after a disk-watcher init failure is cleared.
pub open spec fn after_disk_init_clear(s: ReloadView) -> ReloadView {
    if s.disk_init is Some {
        let t = ReloadView { disk_init: None, ..s };
        if !any_failure(t) {
            ReloadView { acknowledged: false, ..t }
        } else {
            t
        }
    } else {
        s
    }
}

/// The state after a config-watcher init failure is recorded.
pub open spec fn after_config_init_failure(s: ReloadView, f: InitFailure) -> ReloadView {
    ReloadView {
        config_init: Some(f),
        acknowledged: if s.config_init is None {
            false
        } else {
            s.acknowledged
        },
        ..s
    }
}

/// The state after a config-watcher init failure is cleared.
pub open spec fn after_config_init_clear(s: ReloadView) -> ReloadView {
    if s.config_init is Some {
        let t = ReloadView { config_init: None, ..s };
        if !any_failure(t) {
            ReloadView { acknowledged: false, ..t }
        } else {
            t
        }
    } else {
        s
    }
}

/// A latched failure's profile is not among the current profiles.
pub open spec fn references_missing(f: Option<InitFailure>, current: Seq<String>) -> bool {
    match f {
        Some((Some(name), _)) => !exists|i: int| 0 <= i < current.len() && #[trigger] current[i]@
            == name,
        _ => false,
    }
}

/// The state with the dialog marked as shown.
pub open spec fn acknowledged(s: ReloadView) -> ReloadView {
    ReloadView { acknowledged: true, ..s }
}

pub open spec fn result_error(r: Result<(), String>) -> Option<Seq<char>> {
    match r {
        Ok(()) => None,
        Err(e) => Some(e@),
    }
}

impl ReloadFailureState {
    /// Every state is well formed: a reload source is failing exactly when
    /// its error is recorded.
    pub proof fn lemma_well_formed(&self)
        ensures
            wf(self@),
    {
    }

    /// A state with every source healthy.
    pub fn new() -> (r: Self)
        ensures
            wf(r@),
            !any_failure(r@),
            !r@.acknowledged,
    {
        ReloadFailureState {
            storage_error: None,
            config_error: None,
            disk_watcher_init_error: None,
            config_watcher_init_error: None,
            dialog_acknowledged: false,
        }
    }

    /// Record a storage reload result (the error text on failure). Returns
    /// true exactly when storage recovered from a failure.
    pub fn record_storage(&mut self, result: &Result<(), String>) -> (recovered: bool)
        ensures
            wf(final(self)@),
            final(self)@ == after_storage(old(self)@, result_error(*result)),
            recovered == (old(self)@.storage_failed && *result is Ok),
    {
        match result {
            Ok(()) => {
                if self.storage_error.is_some() {
                    self.storage_error = None;
                    if !self.has_any_failure() {
                        self.dialog_acknowledged = false;
                    }
                    return true;
                }
                false
            },
            Err(e) => {
                if self.storage_error.is_none() {
                    self.dialog_acknowledged = false;
                }
                self.storage_error = Some(owned(e.as_str()));
                false
            },
        }
    }

    /// Record a config reload result. Returns true exactly when config
    /// recovered from a failure.
    pub fn record_config(&mut self, result: &Result<(), String>) -> (recovered: bool)
        ensures
            wf(final(self)@),
            final(self)@ == after_config(old(self)@, result_error(*result)),
            recovered == (old(self)@.config_failed && *result is Ok),
    {
        match result {
            Ok(()) => {
                if self.config_error.is_some() {
                    self.config_error = None;
                    if !self.has_any_failure() {
                        self.dialog_acknowledged = false;
                    }
                    return true;
                }
                false
            },
            Err(e) => {
                if self.config_error.is_none() {
                    self.dialog_acknowledged = false;
                }
                self.config_error = Some(owned(e.as_str()));
                false
            },
        }
    }

    /// Latch a disk-watcher init failure for `profile`.
    pub fn record_disk_watcher_init_failure(&mut self, profile: &str, message: String)
        ensures
            wf(final(self)@),
            final(self)@ == after_disk_init_failure(old(self)@, (Some(profile@), message@)),
    {
        let was_clear = self.disk_watcher_init_error.is_none();
        self.disk_watcher_init_error = Some(
            WatcherInitError { profile: Some(owned(profile)), message },
        );
        if was_clear {
            self.dialog_acknowledged = false;
        }
    }

    /// Clear the latched disk-watcher init failure.
    pub fn clear_disk_watcher_init_failure(&mut self)
        ensures
            wf(final(self)@),
            final(self)@ == after_disk_init_clear(old(self)@),
    {
        if self.disk_watcher_init_error.is_some() {
            self.disk_watcher_init_error = None;
            if !self.has_any_failure() {
                self.dialog_acknowledged = false;
            }
        }
    }

    /// Latch a config-watcher init failure (`None` for the global config).
    pub fn record_config_watcher_init_failure(&mut self, profile: Option<&str>, message: String)
        ensures
            wf(final(self)@),
            final(self)@ == after_config_init_failure(
                old(self)@,
                (
                    match profile {
                        Some(p) => Some(p@),
                        None => None,
                    },
                    message@,
                ),
            ),
    {
        let was_clear = self.config_watcher_init_error.is_none();
        let p = match profile {
            Some(p) => Some(owned(p)),
            None => None,
        };
        self.config_watcher_init_error = Some(WatcherInitError { profile: p, message });
        if was_clear {
            self.dialog_acknowledged = false;
        }
    }

    /// Clear the latched config-watcher init failure.
    pub fn clear_config_watcher_init_failure(&mut self)
        ensures
            wf(final(self)@),
            final(self)@ == after_config_init_clear(old(self)@),
    {
        if self.config_watcher_init_error.is_some() {
            self.config_watcher_init_error = None;
            if !self.has_any_failure() {
                self.dialog_acknowledged = false;
            }
        }
    }

    /// The latched disk-watcher failure names a profile that no longer exists.
    pub fn disk_watcher_init_error_references_missing_profile(&self, current: &[String]) -> (r:
        bool)
        ensures
            r == references_missing(self@.disk_init, current@),
    {
        match &self.disk_watcher_init_error {
            Some(e) => match &e.profile {
                Some(name) => !contains_name(current, name.as_str()),
                None => false,
            },
            None => false,
        }
    }

    /// The latched config-watcher failure names a profile that no longer exists.
    pub fn config_watcher_init_error_references_missing_profile(&self, current: &[String]) -> (r:
        bool)
        ensures
            r == references_missing(self@.config_init, current@),
    {
        match &self.config_watcher_init_error {
            Some(e) => match &e.profile {
                Some(name) => !contains_name(current, name.as_str()),
                None => false,
            },
            None => false,
        }
    }

    /// Some source is failing.
    pub fn has_any_failure(&self) -> (r: bool)
        ensures
            r == any_failure(self@),
    {
        self.storage_error.is_some() || self.config_error.is_some() || self.disk_watcher_init_error.is_some()
            || self.config_watcher_init_error.is_some()
    }

    /// Some source is failing and the dialog for this burst was not shown yet.
    pub fn has_unacknowledged_failure(&self) -> (r: bool)
        ensures
            r == unacknowledged(self@),
    {
        self.has_any_failure() && !self.dialog_acknowledged
    }

    /// Mark the dialog for the current burst as shown.
    pub fn acknowledge_dialog(&mut self)
        ensures
            wf(final(self)@),
            final(self)@ == acknowledged(old(self)@),
    {
        self.dialog_acknowledged = true;
    }

    /// Decide what the tick shows for the reload failures, given the info
    /// dialog on screen as `(title, message)`: the body to present under the
    /// reload-failure title, or `None` to leave the screen alone. Presenting
    /// an unacknowledged burst acknowledges it.
    pub fn present_dialog(&mut self, current: Option<(&str, &str)>) -> (r: Option<String>)
        ensures
            wf(final(self)@),
            ({
                let cur = match current {
                    Some((t, m)) => Some((t@, m@)),
                    None => None,
                };
                &&& match r {
                    Some(b) => dialog_decision(old(self)@, cur) == Some(b@),
                    None => dialog_decision(old(self)@, cur) is None,
                }
                &&& final(self)@ == after_dialog_decision(old(self)@, cur)
            }),
    {
        if !self.has_any_failure() {
            return None;
        }
        let (occupied_by_other, dialog_open, current_message) = match current {
            Some((t, m)) => {
                let same = str_eq(t, "Reload Failed");
                (!same, same, Some(m))
            },
            None => (false, false, None),
        };
        if occupied_by_other {
            return None;
        }
        let needs_ack = self.has_unacknowledged_failure();
        if !needs_ack && !dialog_open {
            return None;
        }
        let body = self.build_dialog_body();
        let body_matches = match current_message {
            Some(m) => str_eq(m, body.as_str()),
            None => false,
        };
        if !needs_ack && body_matches {
            return None;
        }
        if needs_ack {
            self.acknowledge_dialog();
        }
        Some(body)
    }

    /// Whether the reload-failure dialog on screen is to be closed because
    /// every source recovered, given the title of the info dialog on screen.
    pub fn clear_recovered_dialog(&self, current_title: Option<&str>) -> (r: bool)
        ensures
            r == (!any_failure(self@) && (current_title matches Some(t) && t@ == reload_failed_title())),
    {
        if self.has_any_failure() {
            return false;
        }
        match current_title {
            Some(t) => str_eq(t, "Reload Failed"),
            None => false,
        }
    }

    /// The dialog text listing every degraded source, one per line.
    pub fn build_dialog_body(&self) -> (r: String)
        ensures
            r@ == dialog_body(self@),
    {
        let l1 = error_line("\n- Storage: ", &self.storage_error);
        let l2 = error_line("\n- Config: ", &self.config_error);
        let l3 = disk_line_text(&self.disk_watcher_init_error);
        let l4 = config_init_line_text(&self.config_watcher_init_error);
        let mut s = owned("The following reload sources are degraded:");
        push_all(&mut s, l1.as_str());
        push_all(&mut s, l2.as_str());
        push_all(&mut s, l3.as_str());
        push_all(&mut s, l4.as_str());
        push_all(&mut s, "\n\nIn-memory state preserved; sources retry automatically.");
        s
    }
}

/// The dialog line of a failing source: `label` then its error.
pub open spec fn error_line_text(label: Seq<char>, e: Option<Seq<char>>) -> Seq<char> {
    match e {
        Some(e) => label + e,
        None => seq![],
    }
}

fn error_line(label: &str, e: &Option<String>) -> (r: String)
    ensures
        r@ == error_line_text(label@, opt_str_view(*e)),
{
    match e {
        Some(e) => {
            let mut s = owned(label);
            push_all(&mut s, e.as_str());
            s
        },
        None => String::new(),
    }
}

fn disk_line_text(e: &Option<WatcherInitError>) -> (r: String)
    ensures
        r@ == disk_line(init_view(*e)),
{
    match e {
        Some(e) => {
            let mut s = owned("\n- Disk watcher init: ");
            if let Some(name) = &e.profile {
                push_all(&mut s, name.as_str());
                push_all(&mut s, ": ");
            }
            push_all(&mut s, e.message.as_str());
            s
        },
        None => String::new(),
    }
}

fn config_init_line_text(e: &Option<WatcherInitError>) -> (r: String)
    ensures
        r@ == config_init_line(init_view(*e)),
{
    match e {
        Some(e) => {
            let mut s = owned("\n- Config watcher init: ");
            match &e.profile {
                Some(name) => {
                    push_all(&mut s, "profile ");
                    push_all(&mut s, name.as_str());
                    push_all(&mut s, " config: ");
                },
                None => {
                    push_all(&mut s, "global config: ");
                },
            }
            push_all(&mut s, e.message.as_str());
            s
        },
        None => String::new(),
    }
}

/// The dialog line of a latched disk-watcher failure.
pub open spec fn disk_line(f: Option<InitFailure>) -> Seq<char> {
    match f {
        Some((Some(name), msg)) => "\n- Disk watcher init: "@ + name + ": "@ + msg,
        Some((None, msg)) => "\n- Disk watcher init: "@ + msg,
        None => seq![],
    }
}

/// The dialog line of a latched config-watcher failure.
pub open spec fn config_init_line(f: Option<InitFailure>) -> Seq<char> {
    match f {
        Some((Some(name), msg)) => "\n- Config watcher init: "@ + "profile "@ + name
            + " config: "@ + msg,
        Some((None, msg)) => "\n- Config watcher init: "@ + "global config: "@ + msg,
        None => seq![],
    }
}

/// The reload-failure dialog body: a header line, one line per degraded
/// source, a blank line and a footer, joined by newlines.
pub open spec fn dialog_body(s: ReloadView) -> Seq<char> {
    "The following reload sources are degraded:"@ + error_line_text(
        "\n- Storage: "@,
        s.storage_error,
    ) + error_line_text("\n- Config: "@, s.config_error) + disk_line(s.disk_init)
        + config_init_line(s.config_init)
        + "\n\nIn-memory state preserved; sources retry automatically."@
}

fn contains_name(current: &[String], name: &str) -> (r: bool)
    ensures
        r == exists|i: int| 0 <= i < current@.len() && #[trigger] current@[i]@ == name@,
{
    let nv = chars_of(name);
    let mut i: usize = 0;
    while i < current.len()
        invariant
            i <= current@.len(),
            nv@ == name@,
            forall|j: int| 0 <= j < i ==> #[trigger] current@[j]@ != name@,
        decreases current@.len() - i,
    {
        let cv = chars_of(current[i].as_str());
        if seq_eq(&cv, &nv) {
            assert(current@[i as int]@ == name@);
            return true;
        }
        i = i + 1;
    }
    false
}

// ---------------------------------------------------------------------------
// Laws
// ---------------------------------------------------------------------------
/// Every transition keeps the state well formed.
pub proof fn law_transitions_keep_wf(s: ReloadView, err: Option<Seq<char>>, f: InitFailure)
    requires
        wf(s),
    ensures
        wf(after_storage(s, err)),
        wf(after_config(s, err)),
        wf(after_disk_init_failure(s, f)),
        wf(after_disk_init_clear(s)),
        wf(after_config_init_failure(s, f)),
        wf(after_config_init_clear(s)),
{
}

/// Once the dialog is acknowledged there is no unacknowledged failure.
pub proof fn law_acknowledge_silences(s: ReloadView)
    ensures
        !unacknowledged(acknowledged(s)),
{
}

/// One notification per burst: a source that keeps failing does not re-arm
/// an acknowledged dialog.
pub proof fn law_repeat_failure_stays_acknowledged(s: ReloadView, e: Seq<char>, f: InitFailure)
    requires
        wf(s),
        s.acknowledged,
    ensures
        s.storage_failed ==> after_storage(s, Some(e)).acknowledged,
        s.config_failed ==> after_config(s, Some(e)).acknowledged,
        s.disk_init is Some ==> after_disk_init_failure(s, f).acknowledged,
        s.config_init is Some ==> after_config_init_failure(s, f).acknowledged,
{
}

/// A healthy source starting to fail surfaces a fresh notification, even
/// during an acknowledged burst.
pub proof fn law_new_failure_notifies(s: ReloadView, e: Seq<char>, f: InitFailure)
    requires
        wf(s),
    ensures
        !s.storage_failed ==> unacknowledged(after_storage(s, Some(e))),
        !s.config_failed ==> unacknowledged(after_config(s, Some(e))),
        s.disk_init is None ==> unacknowledged(after_disk_init_failure(s, f)),
        s.config_init is None ==> unacknowledged(after_config_init_failure(s, f)),
{
}

/// Once every source is healthy again the latch is cleared, so the next
/// failure is notified.
pub proof fn law_full_recovery_rearms(s: ReloadView)
    requires
        wf(s),
    ensures
        !any_failure(after_storage(s, None)) && s.storage_failed ==> !after_storage(
            s,
            None,
        ).acknowledged,
        !any_failure(after_config(s, None)) && s.config_failed ==> !after_config(
            s,
            None,
        ).acknowledged,
        !any_failure(after_disk_init_clear(s)) && s.disk_init is Some ==> !after_disk_init_clear(
            s,
        ).acknowledged,
        !any_failure(after_config_init_clear(s)) && s.config_init is Some
            ==> !after_config_init_clear(s).acknowledged,
{
}

/// A healthy result for a healthy source changes nothing.
pub proof fn law_healthy_result_is_noop(s: ReloadView)
    requires
        wf(s),
    ensures
        !s.storage_failed ==> after_storage(s, None) == s,
        !s.config_failed ==> after_config(s, None) == s,
        s.disk_init is None ==> after_disk_init_clear(s) == s,
        s.config_init is None ==> after_config_init_clear(s) == s,
{
}

// ---------------------------------------------------------------------------
// Presenting the dialog
// ---------------------------------------------------------------------------
/// The title of the reload-failure dialog.
pub open spec fn reload_failed_title() -> Seq<char> {
    "Reload Failed"@
}

/// The tick's decision on the reload-failure dialog, given the info dialog
/// on screen as `(title, message)`: `None` to leave the screen alone, or the
/// body to (re)present under the reload-failure title. Nothing is shown
/// while every source is healthy or while another dialog is up; an
/// unacknowledged burst is always shown; an acknowledged one only refreshes
/// its own open dialog when the body changed.
pub open spec fn dialog_decision(s: ReloadView, current: Option<(Seq<char>, Seq<char>)>) -> Option<Seq<char>> {
    if !any_failure(s) {
        None
    } else if current matches Some((t, _)) && t != reload_failed_title() {
        None
    } else {
        let needs_ack = unacknowledged(s);
        let dialog_open = current matches Some((t, _)) && t == reload_failed_title();
        if !needs_ack && !dialog_open {
            None
        } else if !needs_ack && (current matches Some((_, m)) && m == dialog_body(s)) {
            None
        } else {
            Some(dialog_body(s))
        }
    }
}

/// The state after the tick's decision: presenting an unacknowledged burst
/// acknowledges it.
pub open spec fn after_dialog_decision(s: ReloadView, current: Option<(Seq<char>, Seq<char>)>) -> ReloadView {
    if dialog_decision(s, current) is Some && unacknowledged(s) {
        acknowledged(s)
    } else {
        s
    }
}

/// One dialog per burst: once the tick has presented the dialog, later ticks
/// leave it alone while the failure stays the same.
pub proof fn law_dialog_shown_once(s: ReloadView, current: Option<(Seq<char>, Seq<char>)>)
    requires
        wf(s),
        dialog_decision(s, current) is Some,
    ensures
        ({
            let body = dialog_decision(s, current)->0;
            let next = after_dialog_decision(s, current);
            dialog_decision(next, Some((reload_failed_title(), body))) is None
                && after_dialog_decision(next, Some((reload_failed_title(), body))) == next
        }),
{
}

} // verus!
