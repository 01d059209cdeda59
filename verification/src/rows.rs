//! The session list's rows as the cursor sees them, and where the cursor
//! lands when the rows are rebuilt.
use vstd::prelude::*;
use crate::text::str_eq;

verus! {

/// What a row of the session list is, as far as the cursor cares.
pub enum RowKey {
    /// A session, by id.
    Session(String),
    /// A group, by path.
    Group(String),
    /// Any other row (a section divider, a placeholder).
    Other,
}

/// The row's key as plain values: `(is a group, id or path)`, `None` for
/// other rows.
pub open spec fn row_key(r: RowKey) -> Option<(bool, Seq<char>)> {
    match r {
        RowKey::Session(id) => Some((false, id@)),
        RowKey::Group(p) => Some((true, p@)),
        RowKey::Other => None,
    }
}

/// The first row from `j` on with key `key`, or -1.
pub open spec fn first_row(rows: Seq<RowKey>, key: (bool, Seq<char>), j: nat) -> int
    decreases rows.len() - j,
{
    if j >= rows.len() {
        -1
    } else if row_key(rows[j as int]) == Some(key) {
        j as int
    } else {
        first_row(rows, key, j + 1)
    }
}

proof fn lemma_first_row_range(rows: Seq<RowKey>, key: (bool, Seq<char>), j: nat)
    ensures
        first_row(rows, key, j) == -1 || (j <= first_row(rows, key, j) < rows.len() && row_key(
            rows[first_row(rows, key, j)],
        ) == Some(key)),
    decreases rows.len() - j,
{
    if j < rows.len() && row_key(rows[j as int]) != Some(key) {
        lemma_first_row_range(rows, key, j + 1);
    }
}

/// Index of the first row with the given key.
fn find_row(rows: &[RowKey], is_group: bool, name: &str) -> (r: Option<usize>)
    ensures
        match r {
            Some(i) => first_row(rows@, (is_group, name@), 0) == i,
            None => first_row(rows@, (is_group, name@), 0) == -1,
        },
{
    let ghost key = (is_group, name@);
    let mut i: usize = 0;
    while i < rows.len()
        invariant
            i <= rows@.len(),
            key == (is_group, name@),
            first_row(rows@, key, 0) == first_row(rows@, key, i as nat),
        decreases rows@.len() - i,
    {
        let hit = match &rows[i] {
            RowKey::Session(id) => !is_group && str_eq(id.as_str(), name),
            RowKey::Group(p) => is_group && str_eq(p.as_str(), name),
            RowKey::Other => false,
        };
        if hit {
            return Some(i);
        }
        i = i + 1;
    }
    None
}

/// The cursor after the rows were rebuilt: on the row of the session that
/// was selected, or, when no session was, on the row of the group that
/// was; when that row is gone the cursor stays, pulled back onto the last
/// row when it fell off the end.
pub open spec fn restored_cursor(
    rows: Seq<RowKey>,
    prev_session: Option<Seq<char>>,
    prev_group: Option<Seq<char>>,
    cursor: nat,
) -> nat {
    let found = match prev_session {
        Some(id) => first_row(rows, (false, id), 0),
        None => match prev_group {
            Some(p) => first_row(rows, (true, p), 0),
            None => -1,
        },
    };
    if found >= 0 {
        found as nat
    } else if cursor >= rows.len() && rows.len() > 0 {
        (rows.len() - 1) as nat
    } else {
        cursor
    }
}

/// Where the cursor lands after the rows were rebuilt (see
/// `restored_cursor`).
pub fn restore_cursor(rows: &[RowKey], prev_session: Option<&str>, prev_group: Option<&str>, cursor: usize) -> (r: usize)
    ensures
        r == restored_cursor(
            rows@,
            match prev_session {
                Some(s) => Some(s@),
                None => None,
            },
            match prev_group {
                Some(g) => Some(g@),
                None => None,
            },
            cursor as nat,
        ),
{
    proof {
        match prev_session {
            Some(s) => lemma_first_row_range(rows@, (false, s@), 0),
            None => match prev_group {
                Some(g) => lemma_first_row_range(rows@, (true, g@), 0),
                None => {},
            },
        }
    }
    let found = match prev_session {
        Some(id) => find_row(rows, false, id),
        None => match prev_group {
            Some(p) => find_row(rows, true, p),
            None => None,
        },
    };
    match found {
        Some(i) => i,
        None => {
            if cursor >= rows.len() && rows.len() > 0 {
                rows.len() - 1
            } else {
                cursor
            }
        },
    }
}

/// After a rebuild of a non-empty list the cursor is on one of its rows.
pub proof fn law_cursor_stays_on_the_list(
    rows: Seq<RowKey>,
    prev_session: Option<Seq<char>>,
    prev_group: Option<Seq<char>>,
    cursor: nat,
)
    requires
        rows.len() > 0,
    ensures
        restored_cursor(rows, prev_session, prev_group, cursor) < rows.len(),
{
    match prev_session {
        Some(id) => lemma_first_row_range(rows, (false, id), 0),
        None => match prev_group {
            Some(p) => lemma_first_row_range(rows, (true, p), 0),
            None => {},
        },
    }
}

/// The selected session's row is found again after a rebuild whenever it
/// is still listed.
pub proof fn law_selected_session_is_found_again(rows: Seq<RowKey>, id: Seq<char>, k: int, prev_group: Option<Seq<char>>, cursor: nat)
    requires
        0 <= k < rows.len(),
        row_key(rows[k]) == Some((false, id)),
    ensures
        row_key(rows[restored_cursor(rows, Some(id), prev_group, cursor) as int]) == Some((false, id)),
{
    lemma_first_row_found(rows, (false, id), 0, k);
    lemma_first_row_range(rows, (false, id), 0);
}

proof fn lemma_first_row_found(rows: Seq<RowKey>, key: (bool, Seq<char>), j: nat, k: int)
    requires
        j <= k < rows.len(),
        row_key(rows[k]) == Some(key),
    ensures
        first_row(rows, key, j) >= 0,
    decreases rows.len() - j,
{
    if row_key(rows[j as int]) != Some(key) {
        lemma_first_row_found(rows, key, j + 1, k);
    }
}

/// A session row as the archive successor search sees it.
pub struct SessionRow {
    pub id: String,
    /// The session is still listed, and neither archived nor trashed.
    pub active: bool,
}

/// Whether row `j` can take the selection from the session `archiving`.
pub open spec fn successor_candidate(rows: Seq<Option<SessionRow>>, j: int, archiving: Seq<char>) -> bool {
    rows[j] matches Some(r) && r.active && r.id@ != archiving
}

/// The first candidate row from `j` on, or -1.
pub open spec fn first_candidate_from(rows: Seq<Option<SessionRow>>, archiving: Seq<char>, j: nat) -> int
    decreases rows.len() - j,
{
    if j >= rows.len() {
        -1
    } else if successor_candidate(rows, j as int, archiving) {
        j as int
    } else {
        first_candidate_from(rows, archiving, j + 1)
    }
}

/// The last candidate row below `k` (and below the end of the list), or -1.
pub open spec fn last_candidate_below(rows: Seq<Option<SessionRow>>, archiving: Seq<char>, k: nat) -> int
    decreases k,
{
    if k == 0 {
        -1
    } else if (k - 1) < rows.len() && successor_candidate(rows, k - 1, archiving) {
        k - 1
    } else {
        last_candidate_below(rows, archiving, (k - 1) as nat)
    }
}

/// The row that takes the selection when the session at the cursor is
/// archived: the first active session below the cursor, else the nearest
/// one above it; never the archived session itself.
pub open spec fn archive_successor_row(rows: Seq<Option<SessionRow>>, cursor: nat, archiving: Seq<char>) -> int {
    let after = first_candidate_from(rows, archiving, cursor + 1);
    if after >= 0 {
        after
    } else {
        last_candidate_below(rows, archiving, cursor)
    }
}

proof fn lemma_first_candidate(rows: Seq<Option<SessionRow>>, archiving: Seq<char>, j: nat)
    ensures
        first_candidate_from(rows, archiving, j) == -1 || (j <= first_candidate_from(rows, archiving, j) < rows.len()
            && successor_candidate(rows, first_candidate_from(rows, archiving, j), archiving)),
    decreases rows.len() - j,
{
    if j < rows.len() && !successor_candidate(rows, j as int, archiving) {
        lemma_first_candidate(rows, archiving, j + 1);
    }
}

proof fn lemma_last_candidate(rows: Seq<Option<SessionRow>>, archiving: Seq<char>, k: nat)
    ensures
        last_candidate_below(rows, archiving, k) == -1 || (0 <= last_candidate_below(rows, archiving, k) < k
            && last_candidate_below(rows, archiving, k) < rows.len() && successor_candidate(
            rows,
            last_candidate_below(rows, archiving, k),
            archiving,
        )),
    decreases k,
{
    if k > 0 && !((k - 1) < rows.len() && successor_candidate(rows, k - 1, archiving)) {
        lemma_last_candidate(rows, archiving, (k - 1) as nat);
    }
}

fn is_successor_candidate(row: &Option<SessionRow>, archiving: &str) -> (r: bool)
    ensures
        r == (row matches Some(x) && x.active && x.id@ != archiving@),
{
    match row {
        Some(x) => x.active && !str_eq(x.id.as_str(), archiving),
        None => false,
    }
}

/// The row that takes the selection when the session `archiving` at the
/// cursor is archived (see `archive_successor_row`); `None` when no other
/// active session is listed.
pub fn archive_successor(rows: &[Option<SessionRow>], cursor: usize, archiving: &str) -> (r: Option<usize>)
    ensures
        match r {
            Some(i) => archive_successor_row(rows@, cursor as nat, archiving@) == i,
            None => archive_successor_row(rows@, cursor as nat, archiving@) == -1,
        },
{
    let n = rows.len();
    if cursor < n {
        let mut j: usize = cursor + 1;
        while j < n
            invariant
                cursor < n == rows@.len(),
                cursor + 1 <= j <= n,
                first_candidate_from(rows@, archiving@, (cursor + 1) as nat) == first_candidate_from(rows@, archiving@, j as nat),
            decreases n - j,
        {
            if is_successor_candidate(&rows[j], archiving) {
                return Some(j);
            }
            j = j + 1;
        }
    }
    let mut k: usize = if cursor < n { cursor } else { n };
    proof {
        if cursor >= n {
            lemma_last_beyond_end(rows@, archiving@, cursor as nat);
        }
    }
    while k > 0
        invariant
            k <= cursor,
            k <= n == rows@.len(),
            first_candidate_from(rows@, archiving@, (cursor + 1) as nat) == -1,
            last_candidate_below(rows@, archiving@, cursor as nat) == last_candidate_below(rows@, archiving@, k as nat),
        decreases k,
    {
        if is_successor_candidate(&rows[k - 1], archiving) {
            return Some(k - 1);
        }
        k = k - 1;
    }
    None
}

proof fn lemma_last_beyond_end(rows: Seq<Option<SessionRow>>, archiving: Seq<char>, k: nat)
    requires
        k >= rows.len(),
    ensures
        last_candidate_below(rows, archiving, k) == last_candidate_below(rows, archiving, rows.len()),
    decreases k,
{
    if k > rows.len() {
        lemma_last_beyond_end(rows, archiving, (k - 1) as nat);
    }
}

/// The selection never passes to the archived session, nor to a session
/// that is not active.
pub proof fn law_successor_is_another_active_session(rows: Seq<Option<SessionRow>>, cursor: nat, archiving: Seq<char>)
    ensures
        archive_successor_row(rows, cursor, archiving) == -1 || successor_candidate(
            rows,
            archive_successor_row(rows, cursor, archiving),
            archiving,
        ),
{
    lemma_first_candidate(rows, archiving, cursor + 1);
    lemma_last_candidate(rows, archiving, cursor);
}

} // verus!
