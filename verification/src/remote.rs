//! Text of the remote session picker: what its list area shows, the cells
//! of each session row, and which row is highlighted.
use vstd::prelude::*;
use crate::home::{spaces, truncate, truncated};
use crate::text::{chars_of, owned, push_all};

verus! {

/// What the list area of the remote picker shows.
#[derive(Debug, Clone, PartialEq, Eq)]
pub enum ListBody {
    /// The daemon could not be reached: this message.
    Error(String),
    /// Sessions are loading and none arrived yet.
    Loading,
    /// The daemon has no sessions.
    Empty,
    /// One row per session.
    Rows,
}

/// The error message shown when the daemon is unreachable.
pub open spec fn unreachable_message(base_url: Seq<char>, err: Seq<char>) -> Seq<char> {
    "Could not reach daemon at "@ + base_url + ":\n\n"@ + err + "\n\nPress r to retry, q to quit."@
}

/// The list area: an error first, then loading (only while nothing is
/// listed), then the empty notice, else the rows.
pub fn list_body(base_url: &str, last_error: Option<&str>, loading: bool, session_count: usize) -> (r: ListBody)
    ensures
        match last_error {
            Some(e) => r matches ListBody::Error(m) && m@ == unreachable_message(base_url@, e@),
            None => r == (if loading && session_count == 0 {
                ListBody::Loading
            } else if session_count == 0 {
                ListBody::Empty
            } else {
                ListBody::Rows
            }),
        },
{
    match last_error {
        Some(e) => {
            let mut m = owned("Could not reach daemon at ");
            push_all(&mut m, base_url);
            push_all(&mut m, ":\n\n");
            push_all(&mut m, e);
            push_all(&mut m, "\n\nPress r to retry, q to quit.");
            ListBody::Error(m)
        },
        None => if loading && session_count == 0 {
            ListBody::Loading
        } else if session_count == 0 {
            ListBody::Empty
        } else {
            ListBody::Rows
        },
    }
}

/// `s` padded with spaces on the right to `width` characters (`{:<width}`).
pub open spec fn padded(s: Seq<char>, width: nat) -> Seq<char> {
    if s.len() >= width {
        s
    } else {
        s + spaces((width - s.len()) as nat)
    }
}

/// Pad `s` with spaces on the right to `width` characters.
pub fn pad_right(s: &str, width: usize) -> (r: String)
    ensures
        r@ == padded(s@, width as nat),
{
    let n = chars_of(s).len();
    let mut r = owned(s);
    let mut k = n;
    while k < width
        invariant
            n == s@.len(),
            n <= k <= width || (n > width && k == n),
            r@ == s@ + spaces((k - n) as nat),
        decreases width - k,
    {
        r.push(' ');
        assert(r@ =~= s@ + spaces((k + 1 - n) as nat));
        k = k + 1;
    }
    assert(n < width ==> r@ =~= s@ + spaces((width - n) as nat));
    assert(n >= width ==> r@ =~= s@);
    r
}

/// The title cell of a session row: the title cut to 24 characters and
/// padded to that width, between one leading and two trailing spaces.
pub fn title_cell(title: &str) -> (r: String)
    ensures
        r@ == " "@ + padded(truncated(title@, 24), 24) + "  "@,
{
    let t = truncate(title, 24);
    let p = pad_right(t.as_str(), 24);
    let mut r = owned(" ");
    push_all(&mut r, p.as_str());
    push_all(&mut r, "  ");
    r
}

/// The status cell of a session row: the status padded to 10 characters,
/// then two spaces.
pub fn status_cell(status: &str) -> (r: String)
    ensures
        r@ == padded(status@, 10) + "  "@,
{
    let mut r = pad_right(status, 10);
    push_all(&mut r, "  ");
    r
}

/// The highlighted row: the cursor, kept within the list.
pub fn highlighted_row(cursor: usize, session_count: usize) -> (r: usize)
    ensures
        r == (if session_count == 0 {
            0
        } else if cursor < session_count {
            cursor as int
        } else {
            session_count - 1
        }),
{
    let last = if session_count == 0 { 0 } else { session_count - 1 };
    if cursor < last { cursor } else { last }
}

/// The footer text: the status text, when there is one, then the key help.
pub fn footer_text(status_text: Option<&str>) -> (r: String)
    ensures
        r@ == match status_text {
            Some(t) => " "@ + t@ + " · "@,
            None => Seq::<char>::empty(),
        } + " j/k=navigate · Enter=open · r=refresh · q=quit "@,
{
    let mut r = String::new();
    if let Some(t) = status_text {
        push_all(&mut r, " ");
        push_all(&mut r, t);
        push_all(&mut r, " · ");
    }
    push_all(&mut r, " j/k=navigate · Enter=open · r=refresh · q=quit ");
    r
}

} // verus!
