//! Dwell-to-read: a session's unread marker clears once its row has stayed
//! selected, with the list in the foreground, for a while; a row the user
//! flagged unread by hand is held until the cursor leaves it.
use vstd::prelude::*;
use crate::text::{owned, str_eq};

verus! {

/// How long a row must stay selected before its unread marker clears, in
/// milliseconds.
pub const UNREAD_DWELL_MS: u64 = 2000;

/// The dwell clock and the manual hold.
pub struct UnreadDwell {
    /// The row the clock runs for, and when it started (milliseconds on a
    /// monotonic clock).
    pub clock: Option<(String, u64)>,
    /// The row flagged unread by hand during the current visit.
    pub hold: Option<String>,
}

/// The dwell state as plain values.
pub type DwellState = (Option<(Seq<char>, u64)>, Option<Seq<char>>);

impl View for UnreadDwell {
    type V = DwellState;

    open spec fn view(&self) -> DwellState {
        (
            match self.clock {
                Some((id, t)) => Some((id@, t)),
                None => None,
            },
            match self.hold {
                Some(h) => Some(h@),
                None => None,
            },
        )
    }
}

/// Milliseconds from `start` to `now`, 0 when the clock reads earlier.
pub open spec fn elapsed(now: u64, start: u64) -> int {
    if now >= start {
        now - start
    } else {
        0
    }
}

/// One tick of the dwell clock: the next state, and whether the selected
/// row's unread marker is cleared now.
///
/// With the feature off, a dialog up, or nothing selected, the clock stops
/// and resets. Otherwise a hold on another row is released; a clock that
/// does not run for the selected row restarts for it; once it has run for
/// the dwell time the marker of an unread row clears, unless the row is
/// held.
pub open spec fn dwell_tick(
    s: DwellState,
    enabled: bool,
    dialog_open: bool,
    selected: Option<Seq<char>>,
    now: u64,
    selected_unread: bool,
) -> (DwellState, bool) {
    if !enabled || dialog_open {
        ((None, s.1), false)
    } else {
        match selected {
            None => ((None, s.1), false),
            Some(id) => {
                let hold = match s.1 {
                    Some(h) => if h != id { None } else { s.1 },
                    None => None,
                };
                match s.0 {
                    Some((row, start)) => if row != id {
                        ((Some((id, now)), hold), false)
                    } else if elapsed(now, start) < UNREAD_DWELL_MS {
                        ((s.0, hold), false)
                    } else if hold == Some(id) {
                        ((s.0, hold), false)
                    } else {
                        ((s.0, hold), selected_unread)
                    },
                    None => ((Some((id, now)), hold), false),
                }
            },
        }
    }
}

impl UnreadDwell {
    /// No clock running, no row held.
    pub fn new() -> (r: Self)
        ensures
            r@ == (None::<(Seq<char>, u64)>, None::<Seq<char>>),
    {
        UnreadDwell { clock: None, hold: None }
    }

    /// One tick of the clock (see `dwell_tick`); returns whether the
    /// selected row's unread marker is to be cleared.
    pub fn tick(
        &mut self,
        enabled: bool,
        dialog_open: bool,
        selected: Option<&str>,
        now_ms: u64,
        selected_unread: bool,
    ) -> (r: bool)
        ensures
            (final(self)@, r) == dwell_tick(
                old(self)@,
                enabled,
                dialog_open,
                match selected {
                    Some(s) => Some(s@),
                    None => None,
                },
                now_ms,
                selected_unread,
            ),
    {
        if !enabled || dialog_open {
            self.clock = None;
            return false;
        }
        let id = match selected {
            Some(s) => s,
            None => {
                self.clock = None;
                return false;
            },
        };
        let release = match &self.hold {
            Some(h) => !str_eq(h.as_str(), id),
            None => false,
        };
        if release {
            self.hold = None;
        }
        let started: Option<u64> = match &self.clock {
            Some((row, start)) => if str_eq(row.as_str(), id) {
                Some(*start)
            } else {
                None
            },
            None => None,
        };
        let start = match started {
            Some(t) => t,
            None => {
                self.clock = Some((owned(id), now_ms));
                return false;
            },
        };
        let waited: u64 = if now_ms >= start { now_ms - start } else { 0 };
        if waited < UNREAD_DWELL_MS {
            return false;
        }
        let held = match &self.hold {
            Some(h) => str_eq(h.as_str(), id),
            None => false,
        };
        if held {
            return false;
        }
        selected_unread
    }

    /// After the user toggled a row's unread flag by hand: a row now unread
    /// is held for this visit; a row toggled back to read drops its hold.
    pub fn after_manual_toggle(&mut self, id: &str, now_unread: bool)
        ensures
            final(self)@.0 == old(self)@.0,
            now_unread ==> final(self)@.1 == Some(id@),
            !now_unread ==> final(self)@.1 == (if old(self)@.1 == Some(id@) {
                None
            } else {
                old(self)@.1
            }),
    {
        if now_unread {
            self.hold = Some(owned(id));
        } else {
            let same = match &self.hold {
                Some(h) => str_eq(h.as_str(), id),
                None => false,
            };
            if same {
                self.hold = None;
            }
        }
    }

    /// The user engaged with a row (attached, went live, or dwelt on it):
    /// its hold ends.
    pub fn release_on_view(&mut self, id: &str)
        ensures
            final(self)@.0 == old(self)@.0,
            final(self)@.1 == (if old(self)@.1 == Some(id@) {
                None
            } else {
                old(self)@.1
            }),
    {
        let same = match &self.hold {
            Some(h) => str_eq(h.as_str(), id),
            None => false,
        };
        if same {
            self.hold = None;
        }
    }
}

/// A row flagged unread by hand is never cleared by the dwell while it stays
/// selected, and it stays held.
pub proof fn law_held_row_is_not_cleared(
    s: DwellState,
    enabled: bool,
    dialog_open: bool,
    id: Seq<char>,
    now: u64,
    unread: bool,
)
    requires
        s.1 == Some(id),
    ensures
        !dwell_tick(s, enabled, dialog_open, Some(id), now, unread).1,
        dwell_tick(s, enabled, dialog_open, Some(id), now, unread).0.1 == Some(id),
{
}

/// A marker clears only for an unread row that was already selected when
/// the clock started at least the dwell time earlier.
pub proof fn law_clears_only_after_dwell(
    s: DwellState,
    enabled: bool,
    dialog_open: bool,
    selected: Option<Seq<char>>,
    now: u64,
    unread: bool,
)
    requires
        dwell_tick(s, enabled, dialog_open, selected, now, unread).1,
    ensures
        unread,
        enabled && !dialog_open,
        selected matches Some(id) && s.0 matches Some((row, start)) && row == id && elapsed(now, start)
            >= UNREAD_DWELL_MS,
{
}

/// Moving the selection to another row restarts the clock for it, and
/// clears nothing.
pub proof fn law_selection_move_restarts_clock(s: DwellState, id: Seq<char>, now: u64, unread: bool)
    requires
        !(s.0 matches Some((row, _)) && row == id),
    ensures
        dwell_tick(s, true, false, Some(id), now, unread).0.0 == Some((id, now)),
        !dwell_tick(s, true, false, Some(id), now, unread).1,
{
}

} // verus!
