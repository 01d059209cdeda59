//! Small decisions of the home view: tree indentation, the snooze label,
//! whether a tied worktree may be renamed, and whether mouse capture is
//! requested.
use vstd::prelude::*;
use crate::bindings::TerminalMode;
use crate::paths::{file_name, file_name_of};
use crate::text::{contains_name, names_of, str_eq, chars_of, decimal_string, decimal_text, lower, lower_chars, owned, push_all, seq_eq, slice_chars, string_from};

verus! {

// ---------------------------------------------------------------------------
// Tree indentation
// ---------------------------------------------------------------------------
/// `n` spaces.
pub open spec fn spaces(n: nat) -> Seq<char> {
    Seq::new(n, |i: int| ' ')
}

/// The indentation of a tree row at `depth`: one space per level, capped at
/// nine.
pub fn get_indent(depth: usize) -> (r: &'static str)
    ensures
        r@ == spaces(if depth < 9 { depth as nat } else { 9 }),
{
    if depth == 0 {
        proof { reveal_strlit(""); }
        assert(""@ =~= spaces(0));
        ""
    } else if depth == 1 {
        proof { reveal_strlit(" "); }
        assert(" "@ =~= spaces(1));
        " "
    } else if depth == 2 {
        proof { reveal_strlit("  "); }
        assert("  "@ =~= spaces(2));
        "  "
    } else if depth == 3 {
        proof { reveal_strlit("   "); }
        assert("   "@ =~= spaces(3));
        "   "
    } else if depth == 4 {
        proof { reveal_strlit("    "); }
        assert("    "@ =~= spaces(4));
        "    "
    } else if depth == 5 {
        proof { reveal_strlit("     "); }
        assert("     "@ =~= spaces(5));
        "     "
    } else if depth == 6 {
        proof { reveal_strlit("      "); }
        assert("      "@ =~= spaces(6));
        "      "
    } else if depth == 7 {
        proof { reveal_strlit("       "); }
        assert("       "@ =~= spaces(7));
        "       "
    } else if depth == 8 {
        proof { reveal_strlit("        "); }
        assert("        "@ =~= spaces(8));
        "        "
    } else {
        proof { reveal_strlit("         "); }
        assert("         "@ =~= spaces(9));
        "         "
    }
}

// ---------------------------------------------------------------------------
// Snooze label
// ---------------------------------------------------------------------------
/// The label of a snooze of `m` minutes: `"30 min"`, `"1 hr"`,
/// `"2 hr 30 min"`.
pub open spec fn minutes_label(m: nat) -> Seq<char> {
    let hours = m / 60;
    let mins = m % 60;
    if hours == 0 {
        decimal_string(mins) + " min"@
    } else if mins == 0 {
        decimal_string(hours) + " hr"@
    } else {
        decimal_string(hours) + " hr "@ + decimal_string(mins) + " min"@
    }
}

/// Compact human readable label for a snooze of `m` minutes.
pub fn humanize_minutes(m: u32) -> (r: String)
    ensures
        r@ == minutes_label(m as nat),
{
    let hours = m / 60;
    let mins = m % 60;
    if hours == 0 {
        let mut s = decimal_text(mins as u64);
        push_all(&mut s, " min");
        s
    } else if mins == 0 {
        let mut s = decimal_text(hours as u64);
        push_all(&mut s, " hr");
        s
    } else {
        let mut s = decimal_text(hours as u64);
        push_all(&mut s, " hr ");
        let t = decimal_text(mins as u64);
        push_all(&mut s, t.as_str());
        push_all(&mut s, " min");
        s
    }
}

// ---------------------------------------------------------------------------
// Project grouping
// ---------------------------------------------------------------------------
/// The label of a repository in project view: its last path segment, or the
/// path itself when it has none.
pub open spec fn repo_label(path: Seq<char>) -> Seq<char> {
    match file_name(path) {
        Some(n) => n,
        None => path,
    }
}

/// The project group of a session: scratch sessions (which live under an
/// opaque per-session directory) group under `scratch`; others under the
/// label of their repository path (the main repository for a worktree).
pub fn project_group_name(scratch: bool, repo_path: &str) -> (r: String)
    ensures
        r@ == if scratch {
            "scratch"@
        } else {
            repo_label(repo_path@)
        },
{
    if scratch {
        return owned("scratch");
    }
    match file_name_of(repo_path) {
        Some(n) => n,
        None => owned(repo_path),
    }
}

// ---------------------------------------------------------------------------
// Worktree rename
// ---------------------------------------------------------------------------
/// Lifecycle status of a session.
#[derive(Debug, Clone, Copy, PartialEq, Eq, Structural)]
pub enum Status {
    Running,
    Waiting,
    Idle,
    Unknown,
    Stopped,
    Error,
    Starting,
    Deleting,
    Creating,
}

/// The statuses in which the session's agent holds its worktree directory.
pub open spec fn status_blocks_worktree_edit(s: Status) -> bool {
    s is Running || s is Waiting || s is Starting || s is Creating || s is Deleting
}

impl Status {
    /// Whether the agent is busy, so that its worktree directory must not be
    /// moved.
    pub fn blocks_worktree_edit(self) -> (r: bool)
        ensures
            r == status_blocks_worktree_edit(self),
    {
        match self {
            Status::Running | Status::Waiting | Status::Starting | Status::Creating
            | Status::Deleting => true,
            _ => false,
        }
    }
}

/// The statuses whose row shows a spinner.
pub open spec fn status_animated(s: Status) -> bool {
    s is Running || s is Waiting || s is Starting || s is Creating
}

impl Status {
    /// Whether the status is shown with a spinner, which needs periodic
    /// redraws.
    pub fn is_animated(self) -> (r: bool)
        ensures
            r == status_animated(self),
    {
        match self {
            Status::Running | Status::Waiting | Status::Starting | Status::Creating => true,
            _ => false,
        }
    }
}

/// Whether any session shows a spinner.
pub fn has_animated_sessions(statuses: &[Status]) -> (r: bool)
    ensures
        r == exists|i: int| 0 <= i < statuses@.len() && status_animated(#[trigger] statuses@[i]),
{
    let mut i: usize = 0;
    while i < statuses.len()
        invariant
            i <= statuses@.len(),
            forall|j: int| 0 <= j < i ==> !status_animated(#[trigger] statuses@[j]),
        decreases statuses@.len() - i,
    {
        if statuses[i].is_animated() {
            return true;
        }
        i = i + 1;
    }
    false
}

/// Why a tied-worktree rename must refuse to move the worktree directory.
#[derive(Debug, Clone, Copy, PartialEq, Eq, Structural)]
pub enum WorktreeRenameBlock {
    /// The session's agent is busy (running, starting, etc.).
    ActiveAgent,
    /// A sandbox container is running and mounting the worktree dir.
    SandboxContainer,
}

/// Decide whether a tied-worktree rename must be blocked, and why: a busy
/// agent first, then a running sandbox container; `None` when the move is
/// safe.
pub fn worktree_rename_block(status: Status, is_sandboxed: bool, container_running: bool) -> (r:
    Option<WorktreeRenameBlock>)
    ensures
        r == (if status_blocks_worktree_edit(status) {
            Some(WorktreeRenameBlock::ActiveAgent)
        } else if is_sandboxed && container_running {
            Some(WorktreeRenameBlock::SandboxContainer)
        } else {
            None
        }),
{
    if status.blocks_worktree_edit() {
        Some(WorktreeRenameBlock::ActiveAgent)
    } else if is_sandboxed && container_running {
        Some(WorktreeRenameBlock::SandboxContainer)
    } else {
        None
    }
}

/// What a rename of the selected session sets: the title (kept when the new
/// one is empty), the group (kept when none is given; an empty one ungroups),
/// and whether the tied worktree directory moves with it.
pub struct RenameTarget {
    pub title: String,
    pub group: String,
    pub move_worktree: bool,
}

/// The title a rename sets.
pub open spec fn effective_title(current: Seq<char>, requested: Seq<char>) -> Seq<char> {
    if requested.len() == 0 {
        current
    } else {
        requested
    }
}

/// Resolve a rename request against the session's current title and group.
/// The worktree directory follows the title when the session's worktree is
/// tied to its name (`tie_applies`) and the title changes or a branch rename
/// was asked for.
pub fn rename_target(
    current_title: &str,
    current_group: &str,
    new_title: &str,
    new_group: Option<&str>,
    rename_branch: bool,
    tie_applies: bool,
) -> (r: RenameTarget)
    ensures
        r.title@ == effective_title(current_title@, new_title@),
        r.group@ == match new_group {
            None => current_group@,
            Some(g) => g@,
        },
        r.move_worktree == ((current_title@ != effective_title(current_title@, new_title@)
            || rename_branch) && tie_applies),
{
    let requested = chars_of(new_title);
    let title = if requested.len() == 0 {
        owned(current_title)
    } else {
        owned(new_title)
    };
    let group = match new_group {
        None => owned(current_group),
        Some(g) => owned(g),
    };
    let cur = chars_of(current_title);
    let eff = chars_of(title.as_str());
    let changed = !seq_eq(&cur, &eff);
    RenameTarget { title, group, move_worktree: (changed || rename_branch) && tie_applies }
}

/// The explanation shown when a tied worktree cannot be moved.
pub fn rename_block_message(reason: WorktreeRenameBlock) -> (r: &'static str)
    ensures
        r@ == match reason {
            WorktreeRenameBlock::ActiveAgent => "This worktree session's directory moves to match the new name, which can't happen while it's running. Stop the session first, or disable \"Tie Worktree Directory to Session Name\" to relabel it freely."@,
            WorktreeRenameBlock::SandboxContainer => "This sandbox session's container is mounting the worktree directory, so it can't be moved to match the new name. Stop the session first, or disable \"Tie Worktree Directory to Session Name\" to relabel it freely."@,
        },
{
    match reason {
        WorktreeRenameBlock::ActiveAgent => "This worktree session's directory moves to match the new name, which can't happen while it's running. Stop the session first, or disable \"Tie Worktree Directory to Session Name\" to relabel it freely.",
        WorktreeRenameBlock::SandboxContainer => "This sandbox session's container is mounting the worktree directory, so it can't be moved to match the new name. Stop the session first, or disable \"Tie Worktree Directory to Session Name\" to relabel it freely.",
    }
}

// ---------------------------------------------------------------------------
// List layout
// ---------------------------------------------------------------------------
/// The session-list width after shrinking: five columns less, never under
/// ten.
pub fn shrunk_width(width: u16) -> (r: u16)
    ensures
        r == (if width < 15 { 10 } else { width - 5 }),
{
    let w = width.saturating_sub(5);
    if w < 10 { 10 } else { w }
}

/// The session-list width after growing: five columns more, never over
/// eighty.
pub fn grown_width(width: u16) -> (r: u16)
    requires
        width + 5 <= u16::MAX,
    ensures
        r == (if width + 5 > 80 { 80 } else { width + 5 }),
{
    let w = width + 5;
    if w > 80 { 80 } else { w }
}

/// The terminal mode a toggle switches to.
pub fn toggled_terminal_mode(mode: TerminalMode) -> (r: TerminalMode)
    ensures
        r == (match mode {
            TerminalMode::Container => TerminalMode::Host,
            TerminalMode::Host => TerminalMode::Container,
        }),
{
    match mode {
        TerminalMode::Container => TerminalMode::Host,
        TerminalMode::Host => TerminalMode::Container,
    }
}

/// The row a return to the top-attention view lands on: the first session
/// row other than the one being returned from, else that one; `None` when
/// no row is a session. `rows` holds each row's session id (`None` for a
/// header).
pub open spec fn top_attention_row(rows: Seq<Option<Seq<char>>>, returning: Option<Seq<char>>) -> Option<int> {
    if exists|i: int| 0 <= i < rows.len() && #[trigger] rows[i] is Some && rows[i] != returning {
        Some(first_other_session(rows, returning, 0))
    } else if exists|i: int| 0 <= i < rows.len() && #[trigger] rows[i] is Some {
        Some(first_session(rows, 0))
    } else {
        None
    }
}

/// The first session row at or after `j` other than `returning`.
pub open spec fn first_other_session(rows: Seq<Option<Seq<char>>>, returning: Option<Seq<char>>, j: nat) -> int
    decreases rows.len() - j,
{
    if j >= rows.len() {
        rows.len() as int
    } else if rows[j as int] is Some && rows[j as int] != returning {
        j as int
    } else {
        first_other_session(rows, returning, j + 1)
    }
}

/// The first session row at or after `j`.
pub open spec fn first_session(rows: Seq<Option<Seq<char>>>, j: nat) -> int
    decreases rows.len() - j,
{
    if j >= rows.len() {
        rows.len() as int
    } else if rows[j as int] is Some {
        j as int
    } else {
        first_session(rows, j + 1)
    }
}

pub open spec fn row_views(rows: Seq<Option<String>>) -> Seq<Option<Seq<char>>> {
    rows.map_values(|r: Option<String>| match r {
        Some(s) => Some(s@),
        None => None,
    })
}

proof fn lemma_first_other_found(rows: Seq<Option<Seq<char>>>, returning: Option<Seq<char>>, j: nat)
    requires
        j <= rows.len(),
    ensures
        j <= first_other_session(rows, returning, j) <= rows.len(),
        first_other_session(rows, returning, j) < rows.len() ==> rows[first_other_session(rows, returning, j)] is Some
            && rows[first_other_session(rows, returning, j)] != returning,
        forall|m: int| j <= m < first_other_session(rows, returning, j) ==> !(#[trigger] rows[m] is Some && rows[m] != returning),
    decreases rows.len() - j,
{
    if j < rows.len() && !(rows[j as int] is Some && rows[j as int] != returning) {
        lemma_first_other_found(rows, returning, j + 1);
    }
}

proof fn lemma_first_session_found(rows: Seq<Option<Seq<char>>>, j: nat)
    requires
        j <= rows.len(),
    ensures
        j <= first_session(rows, j) <= rows.len(),
        first_session(rows, j) < rows.len() ==> rows[first_session(rows, j)] is Some,
        forall|m: int| j <= m < first_session(rows, j) ==> !(#[trigger] rows[m] is Some),
    decreases rows.len() - j,
{
    if j < rows.len() && !(rows[j as int] is Some) {
        lemma_first_session_found(rows, j + 1);
    }
}

/// Pick the row to select when returning to the top of the attention view.
pub fn select_top_attention(rows: &[Option<String>], returning_id: Option<&str>) -> (r: Option<usize>)
    ensures
        match r {
            Some(i) => top_attention_row(row_views(rows@), match returning_id {
                Some(s) => Some(s@),
                None => None,
            }) == Some(i as int),
            None => top_attention_row(row_views(rows@), match returning_id {
                Some(s) => Some(s@),
                None => None,
            }) is None,
        },
{
    let ghost rv = row_views(rows@);
    let ghost ret: Option<Seq<char>> = match returning_id {
        Some(s) => Some(s@),
        None => None,
    };
    let ret_chars: Option<Vec<char>> = match returning_id {
        Some(s) => Some(chars_of(s)),
        None => None,
    };
    let mut fallback: Option<usize> = None;
    let mut i: usize = 0;
    while i < rows.len()
        invariant
            i <= rows@.len(),
            rv == row_views(rows@),
            rv.len() == rows@.len(),
            ret == (match returning_id {
                Some(s) => Some(s@),
                None => None,
            }),
            match ret_chars {
                Some(v) => ret == Some(v@),
                None => ret is None,
            },
            forall|m: int| 0 <= m < i ==> !(#[trigger] rv[m] is Some && rv[m] != ret),
            match fallback {
                Some(f) => f < i && rv[f as int] is Some && forall|m: int| 0 <= m < f ==> !(#[trigger] rv[m] is Some),
                None => forall|m: int| 0 <= m < i ==> !(#[trigger] rv[m] is Some),
            },
        decreases rows@.len() - i,
    {
        assert(rv[i as int] == match rows@[i as int] {
            Some(s) => Some(s@),
            None => None::<Seq<char>>,
        });
        match &rows[i] {
            Some(id) => {
                let idc = chars_of(id.as_str());
                let is_returning = match &ret_chars {
                    Some(v) => seq_eq(v, &idc),
                    None => false,
                };
                if is_returning {
                    if fallback.is_none() {
                        fallback = Some(i);
                    }
                } else {
                    proof {
                        lemma_first_other_found(rv, ret, 0);
                        assert(rv[i as int] is Some && rv[i as int] != ret);
                    }
                    return Some(i);
                }
            },
            None => {},
        }
        i = i + 1;
    }
    proof {
        lemma_first_other_found(rv, ret, 0);
        lemma_first_session_found(rv, 0);
    }
    fallback
}

// ---------------------------------------------------------------------------
// Mouse capture
// ---------------------------------------------------------------------------
/// Whether the value of the mouse-capture environment variable (if set and
/// Unicode) leaves capture enabled: `0` and `false` in any ASCII case
/// disable it.
pub open spec fn env_allows(value: Option<Seq<char>>) -> bool {
    match value {
        None => true,
        Some(v) => !(v == "0"@ || lower(v) == "false"@),
    }
}

/// The legacy mouse-capture opt-out read from the environment variable's
/// value.
pub fn env_mouse_capture_allows(value: Option<&str>) -> (r: bool)
    ensures
        r == env_allows(
            match value {
                Some(v) => Some(v@),
                None => None,
            },
        ),
{
    match value {
        None => true,
        Some(v) => {
            let cs = chars_of(v);
            let zero = chars_of("0");
            let low = lower_chars(&cs);
            let f = chars_of("false");
            !(seq_eq(&cs, &zero) || seq_eq(&low, &f))
        },
    }
}

/// Whether the terminal UI requests mouse capture: the setting allows it
/// and the environment has not disabled it.
pub fn mouse_capture_requested(mouse_capture: bool, env_value: Option<&str>) -> (r: bool)
    ensures
        r == (mouse_capture && env_allows(
            match env_value {
                Some(v) => Some(v@),
                None => None,
            },
        )),
{
    mouse_capture && env_mouse_capture_allows(env_value)
}

/// The terminal's mouse handling at startup: capture is enabled when
/// requested and not under Mosh (which mangles mouse-tracking escapes), and
/// disabled again on exit unless under Mosh (where it was never enabled).
pub fn mouse_policy(requested: bool, mosh_active: bool) -> (r: (bool, bool))
    ensures
        r == (requested && !mosh_active, !mosh_active),
{
    (requested && !mosh_active, !mosh_active)
}

/// The startup warning shown in the first dialog: the caller's warning and
/// the config warnings, separated by a blank line when both are present.
pub fn combine_warnings(startup: Option<String>, config: Option<String>) -> (r: Option<String>)
    ensures
        match (startup, config) {
            (Some(a), Some(b)) => r matches Some(w) && w@ == a@ + "\n\n"@ + b@,
            (Some(a), None) => r matches Some(w) && w@ == a@,
            (None, Some(b)) => r matches Some(w) && w@ == b@,
            (None, None) => r is None,
        },
{
    match (startup, config) {
        (Some(a), Some(b)) => {
            let mut w = a;
            push_all(&mut w, "\n\n");
            push_all(&mut w, b.as_str());
            Some(w)
        },
        (Some(a), None) => Some(a),
        (None, Some(b)) => Some(b),
        (None, None) => None,
    }
}

// ---------------------------------------------------------------------------
// Truncation
// ---------------------------------------------------------------------------
/// `s` cut to at most `max` characters, the last one an ellipsis when
/// anything was cut.
pub open spec fn truncated(s: Seq<char>, max: nat) -> Seq<char> {
    if s.len() <= max {
        s
    } else {
        s.take(if max == 0 { 0 } else { max - 1 }) + seq!['…']
    }
}

/// Cut a label to at most `max` characters, ending in an ellipsis when cut.
pub fn truncate(s: &str, max: usize) -> (r: String)
    ensures
        r@ == truncated(s@, max as nat),
{
    let cs = chars_of(s);
    if cs.len() <= max {
        owned(s)
    } else {
        let take: usize = if max == 0 { 0 } else { max - 1 };
        let head = slice_chars(&cs, 0, take);
        let mut out = string_from(&head);
        out.push('…');
        assert(head@ == s@.take(take as int));
        out
    }
}

/// Identifies a config-watch entry: the app-wide config, or a profile's.
#[derive(Debug, Clone, PartialEq, Eq)]
pub enum ConfigWatchKey {
    /// The app-wide config subscription.
    Global,
    /// A per-profile config subscription.
    Profile(String),
}

impl ConfigWatchKey {
    /// The key of a profile's config subscription.
    pub fn profile(name: &str) -> (r: Self)
        ensures
            r matches ConfigWatchKey::Profile(n) && n@ == name@,
    {
        ConfigWatchKey::Profile(owned(name))
    }
}

// ---------------------------------------------------------------------------
// Restart
// ---------------------------------------------------------------------------
/// How long a second restart press on the same row is ignored, in
/// milliseconds.
pub const RESTART_COOLDOWN_MS: u64 = 1500;

/// What the selected row is, as far as a restart press cares.
#[derive(Debug, Clone, Copy, PartialEq, Eq, Structural)]
pub struct RestartRow {
    pub status: Status,
    pub archived: bool,
    pub trashed: bool,
    pub snoozed: bool,
    /// The pane was already seen dead.
    pub pane_dead_observed: bool,
}

/// What a restart press does.
#[derive(Debug, Clone, Copy, PartialEq, Eq, Structural)]
pub enum RestartGate {
    /// Nothing: the press is dropped.
    Ignore,
    /// Restart, first waking the row from its snooze when `wake_snooze`;
    /// the press starts a new cooldown.
    Restart { wake_snooze: bool },
}

/// Whether a row is left alone by restart: still being created or deleted,
/// archived, trashed, already seen with a dead pane, or snoozed while the
/// list is sorted by attention.
pub open spec fn restart_skips(row: RestartRow, in_attention: bool) -> bool {
    ||| row.status is Creating
    ||| row.status is Deleting
    ||| row.archived
    ||| row.trashed
    ||| (row.snoozed && in_attention)
    ||| row.pane_dead_observed
}

/// A restart press on a row: dropped while a restart of the row is under
/// way, for rows restart leaves alone, and within the cooldown of the
/// previous press (`since_last_ms`, `None` when there was none); otherwise
/// a restart that wakes a snoozed row outside the attention sort.
pub fn restart_gate(row: RestartRow, in_flight: bool, in_attention: bool, since_last_ms: Option<u64>) -> (r: RestartGate)
    ensures
        r is Ignore <==> (in_flight || restart_skips(row, in_attention) || (since_last_ms matches Some(ms)
            && ms < RESTART_COOLDOWN_MS)),
        r matches RestartGate::Restart { wake_snooze } ==> wake_snooze == (row.snoozed && !in_attention),
{
    if in_flight {
        return RestartGate::Ignore;
    }
    let snoozed = row.snoozed;
    let skip = matches!(row.status, Status::Creating | Status::Deleting) || row.archived || row.trashed
        || (snoozed && in_attention) || row.pane_dead_observed;
    if skip {
        return RestartGate::Ignore;
    }
    match since_last_ms {
        Some(ms) => {
            if ms < RESTART_COOLDOWN_MS {
                return RestartGate::Ignore;
            }
        },
        None => {},
    }
    RestartGate::Restart { wake_snooze: snoozed && !in_attention }
}

// ---------------------------------------------------------------------------
// Status polls
// ---------------------------------------------------------------------------
/// Whether a polled status replaces the stored one: never for a session
/// being deleted or created or one that is stopped, and a poll never stops
/// a session itself.
pub open spec fn poll_overrides(old: Status, new: Status) -> bool {
    !(old is Deleting) && !(old is Creating) && !(old is Stopped) && !(new is Stopped)
}

/// What the home view does with one polled status.
#[derive(Debug, Clone, Copy, PartialEq, Eq, Structural)]
pub struct StatusUpdatePlan {
    /// Store the polled status, error and idle timestamp.
    pub store_status: bool,
    /// The status changed: play its sound and run its hooks.
    pub transition: bool,
    /// A turn finished: flag the session unread.
    pub mark_unread: bool,
    /// Store the poll's fresh last-access stamp.
    pub store_last_accessed: bool,
}

/// The plan for a polled status `new` of a session stored as `old` (`None`
/// when the session is gone): the status is stored when the poll overrides
/// it; a stored change is a transition; a transition from running to idle
/// (a finished turn) flags the session unread when that feature is on,
/// unless the user is watching it live or it is unread already; a fresh
/// last-access stamp is stored in any case.
pub fn plan_status_update(
    old: Option<Status>,
    new: Status,
    fresh_access: bool,
    unread_enabled: bool,
    is_live_target: bool,
    already_unread: bool,
) -> (r: StatusUpdatePlan)
    ensures
        r.store_status == (old matches Some(o) && poll_overrides(o, new)),
        r.transition == (r.store_status && old != Some(new)),
        r.mark_unread == (r.transition && unread_enabled && old == Some(Status::Running) && new == Status::Idle
            && !is_live_target && !already_unread),
        r.store_last_accessed == fresh_access,
{
    let store_status = match old {
        Some(o) => !matches!(o, Status::Deleting) && !matches!(o, Status::Creating) && !matches!(o, Status::Stopped)
            && !matches!(new, Status::Stopped),
        None => false,
    };
    let transition = store_status && match old {
        Some(o) => o != new,
        None => false,
    };
    let finished_turn = match old {
        Some(Status::Running) => matches!(new, Status::Idle),
        _ => false,
    };
    let mark_unread = transition && unread_enabled && finished_turn && !is_live_target && !already_unread;
    StatusUpdatePlan { store_status, transition, mark_unread, store_last_accessed: fresh_access }
}

/// A poll neither revives a stopped session nor stops one.
pub proof fn law_polls_never_stop_or_revive(old: Status, new: Status)
    ensures
        old is Stopped ==> !poll_overrides(old, new),
        new is Stopped ==> !poll_overrides(old, new),
{
}

// ---------------------------------------------------------------------------
// Moving a session or group to another profile
// ---------------------------------------------------------------------------
/// The refusal of a move to a profile that does not exist.
pub open spec fn missing_profile_message(target: Seq<char>) -> Seq<char> {
    "Profile '"@ + target + "' does not exist"@
}

/// Whether a rename or restart moves its session (or group) to another
/// profile: `Ok(false)` when no profile was chosen or it is the current
/// one, `Ok(true)` for another existing profile, and the refusal when the
/// chosen profile is not among `profiles`.
pub fn check_profile_move(target: Option<&str>, current: &str, profiles: &[String]) -> (r: Result<bool, String>)
    ensures
        match target {
            None => r == Ok::<bool, String>(false),
            Some(t) => if t@ == current@ {
                r == Ok::<bool, String>(false)
            } else if names_of(profiles@).contains(t@) {
                r == Ok::<bool, String>(true)
            } else {
                r matches Err(e) && e@ == missing_profile_message(t@)
            },
        },
{
    match target {
        None => Ok(false),
        Some(t) => {
            if str_eq(t, current) {
                return Ok(false);
            }
            let tv = chars_of(t);
            if contains_name(profiles, &tv) {
                Ok(true)
            } else {
                let mut e = owned("Profile '");
                push_all(&mut e, t);
                push_all(&mut e, "' does not exist");
                Err(e)
            }
        },
    }
}

/// What a restart changes in a session's launch before it runs again.
pub struct RestartEdits {
    /// The agent to run, when it changes.
    pub tool: Option<String>,
    /// The command to run instead of the agent's own, when one was given.
    pub command: Option<String>,
    /// The extra arguments, when given.
    pub extra_args: Option<String>,
}

/// The launch edits of a restart: the chosen agent when it differs from the
/// current one, and the command override and extra arguments as given
/// (`None` leaves them as they are).
pub fn restart_edits(current_tool: &str, new_tool: Option<&str>, new_command: Option<&str>, new_extra_args: Option<&str>) -> (r: RestartEdits)
    ensures
        match new_tool {
            Some(t) => if t@ != current_tool@ {
                r.tool matches Some(x) && x@ == t@
            } else {
                r.tool is None
            },
            None => r.tool is None,
        },
        match new_command {
            Some(c) => r.command matches Some(x) && x@ == c@,
            None => r.command is None,
        },
        match new_extra_args {
            Some(a) => r.extra_args matches Some(x) && x@ == a@,
            None => r.extra_args is None,
        },
{
    let tool = match new_tool {
        Some(t) => if str_eq(t, current_tool) {
            None
        } else {
            Some(owned(t))
        },
        None => None,
    };
    let command = match new_command {
        Some(c) => Some(owned(c)),
        None => None,
    };
    let extra_args = match new_extra_args {
        Some(a) => Some(owned(a)),
        None => None,
    };
    RestartEdits { tool, command, extra_args }
}

} // verus!
