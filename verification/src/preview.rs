//! Geometry of the preview pane: mapping screen cells to content lines and
//! back, and the flow-shaped highlight of a text selection.
use vstd::prelude::*;
use crate::install::lines_vec;
use crate::text::{chars_of, lines_of};

verus! {

/// A screen rectangle in cells.
#[derive(Debug, Clone, Copy, PartialEq, Eq, Structural)]
pub struct Rect {
    pub x: u16,
    pub y: u16,
    pub width: u16,
    pub height: u16,
}

/// `a + b`, saturating at the largest `u16`.
pub open spec fn sat_add16(a: int, b: int) -> int {
    if a + b > u16::MAX {
        u16::MAX as int
    } else {
        a + b
    }
}

/// `a - b`, saturating at zero.
pub open spec fn sat_sub(a: int, b: int) -> int {
    if a < b {
        0
    } else {
        a - b
    }
}

/// `v` clamped into `lo..=hi`.
pub open spec fn clamp(v: int, lo: int, hi: int) -> int {
    if v < lo {
        lo
    } else if v > hi {
        hi
    } else {
        v
    }
}

pub open spec fn min(a: int, b: int) -> int {
    if a < b {
        a
    } else {
        b
    }
}

impl Rect {
    /// The column just past the right edge.
    pub open spec fn right_edge(self) -> int {
        sat_add16(self.x as int, self.width as int)
    }

    /// The row just past the bottom edge.
    pub open spec fn bottom_edge(self) -> int {
        sat_add16(self.y as int, self.height as int)
    }

    /// Whether the cell `(col, row)` lies inside.
    pub open spec fn holds(self, col: int, row: int) -> bool {
        self.x <= col < self.right_edge() && self.y <= row < self.bottom_edge()
    }

    /// The column just past the right edge (saturating).
    pub fn right(self) -> (r: u16)
        ensures
            r == self.right_edge(),
    {
        self.x.saturating_add(self.width)
    }

    /// The row just past the bottom edge (saturating).
    pub fn bottom(self) -> (r: u16)
        ensures
            r == self.bottom_edge(),
    {
        self.y.saturating_add(self.height)
    }

    /// Whether the cell `(col, row)` lies inside.
    pub fn contains(self, col: u16, row: u16) -> (r: bool)
        ensures
            r == self.holds(col as int, row as int),
    {
        col >= self.x && col < self.right() && row >= self.y && row < self.bottom()
    }
}

/// The output pane's text layout captured at render time: `pane` is where
/// the parsed output is painted, `first_line` the content line drawn on its
/// top row, `total_lines` the scrollback length (0: nothing selectable).
#[derive(Debug, Clone, Copy, PartialEq, Eq, Structural)]
pub struct PreviewTextView {
    pub pane: Rect,
    pub first_line: usize,
    pub total_lines: usize,
}

impl PreviewTextView {
    /// The screen row `row` clamped into the pane.
    pub open spec fn clamped_row(self, row: int) -> int {
        clamp(row, self.pane.y as int, sat_sub(self.pane.bottom_edge(), 1))
    }

    /// The screen column `col` clamped into the pane.
    pub open spec fn clamped_col(self, col: int) -> int {
        clamp(col, self.pane.x as int, sat_sub(self.pane.right_edge(), 1))
    }

    /// The rows of the pane form a non-empty range to clamp into.
    pub open spec fn rows_clampable(self) -> bool {
        self.pane.y <= sat_sub(self.pane.bottom_edge(), 1)
    }

    /// The columns of the pane form a non-empty range to clamp into.
    pub open spec fn cols_clampable(self) -> bool {
        self.pane.x <= sat_sub(self.pane.right_edge(), 1)
    }

    /// The content line under screen row `row`, clamped into the pane and the
    /// scrollback.
    pub open spec fn line_at_row(self, row: int) -> int {
        let line = self.first_line + (self.clamped_row(row) - self.pane.y);
        if self.total_lines > 0 {
            min(line, self.total_lines - 1)
        } else {
            line
        }
    }

    /// The absolute line `from_bottom` lines above the newest one.
    pub open spec fn abs_of(self, from_bottom: int) -> int {
        sat_sub(sat_sub(self.total_lines as int, 1), from_bottom)
    }

    /// Whether `(col, row)` lands on real content.
    pub fn contains(self, col: u16, row: u16) -> (r: bool)
        ensures
            r == (self.total_lines > 0 && self.pane.holds(col as int, row as int)),
    {
        self.total_lines > 0 && self.pane.contains(col, row)
    }

    /// Absolute content line painted on screen row `row`, clamped into the
    /// pane and the scrollback.
    pub fn abs_line_at_row(self, row: u16) -> (r: usize)
        requires
            self.rows_clampable(),
            self.first_line + (self.clamped_row(row as int) - self.pane.y) <= usize::MAX,
        ensures
            r == self.line_at_row(row as int),
    {
        let pane = self.pane;
        let max_y = pane.bottom().saturating_sub(1);
        let cy = if row < pane.y {
            pane.y
        } else if row > max_y {
            max_y
        } else {
            row
        };
        let mut line = self.first_line + (cy - pane.y) as usize;
        if self.total_lines > 0 {
            if line > self.total_lines - 1 {
                line = self.total_lines - 1;
            }
        }
        line
    }

    /// Map a screen cell to selection coordinates `(col_offset, from_bottom)`,
    /// clamped into the pane and the scrollback.
    pub fn screen_to_content(self, col: u16, row: u16) -> (r: (u16, usize))
        requires
            self.rows_clampable(),
            self.cols_clampable(),
            self.first_line + (self.clamped_row(row as int) - self.pane.y) <= usize::MAX,
        ensures
            r.0 == self.clamped_col(col as int) - self.pane.x,
            r.1 == sat_sub(sat_sub(self.total_lines as int, 1), self.line_at_row(row as int)),
    {
        let pane = self.pane;
        let max_x = pane.right().saturating_sub(1);
        let cx = if col < pane.x {
            pane.x
        } else if col > max_x {
            max_x
        } else {
            col
        };
        let abs = self.abs_line_at_row(row);
        (cx - pane.x, self.total_lines.saturating_sub(1).saturating_sub(abs))
    }

    /// Absolute content line `from_bottom` lines above the newest one.
    pub fn abs_from_bottom(self, from_bottom: usize) -> (r: usize)
        ensures
            r == self.abs_of(from_bottom as int),
    {
        self.total_lines.saturating_sub(1).saturating_sub(from_bottom)
    }
}

/// Flow-style text selection in content coordinates `(col_offset,
/// from_bottom)`, anchored to the newest line so that it stays on the same
/// text while the captured window grows at the top.
#[derive(Debug, Clone, Copy, PartialEq, Eq)]
pub struct PreviewSelection {
    pub anchor: (u16, usize),
    pub extent: (u16, usize),
    pub finalized: bool,
}

/// `(line, col)` order of two resolved cells.
pub open spec fn cell_le(a: (u16, int), e: (u16, int)) -> bool {
    a.1 < e.1 || (a.1 == e.1 && a.0 <= e.0)
}

impl PreviewSelection {
    /// Anchor and extent resolved to absolute lines under `view`, in reading
    /// order.
    pub open spec fn ordered(self, view: PreviewTextView) -> ((u16, int), (u16, int)) {
        let a = (self.anchor.0, view.abs_of(self.anchor.1 as int));
        let e = (self.extent.0, view.abs_of(self.extent.1 as int));
        if cell_le(a, e) {
            (a, e)
        } else {
            (e, a)
        }
    }

    /// Anchor and extent resolved to absolute content lines under `view` and
    /// ordered in reading order (line first, then column).
    pub fn ordered_abs(self, view: PreviewTextView) -> (r: ((u16, usize), (u16, usize)))
        ensures
            r.0.0 == self.ordered(view).0.0,
            r.0.1 == self.ordered(view).0.1,
            r.1.0 == self.ordered(view).1.0,
            r.1.1 == self.ordered(view).1.1,
    {
        let (ac, ad) = self.anchor;
        let (ec, ed) = self.extent;
        let a = (ac, view.abs_from_bottom(ad));
        let e = (ec, view.abs_from_bottom(ed));
        if a.1 < e.1 || (a.1 == e.1 && a.0 <= e.0) {
            (a, e)
        } else {
            (e, a)
        }
    }
}

/// The highlight on content line `line` of a selection running from `start`
/// to `end` (resolved, in reading order), or `None` when that line is not
/// visible or nothing of it is selected.
pub open spec fn line_rect(view: PreviewTextView, start: (u16, int), end: (u16, int), line: int) -> Option<Rect> {
    let pane = view.pane;
    let top = view.first_line as int;
    if line < top || line >= top + pane.height {
        None
    } else {
        let left_off: int = if line == start.1 { start.0 as int } else { 0 };
        let right_off_excl: int = if line == end.1 {
            min(sat_add16(end.0 as int, 1), pane.width as int)
        } else {
            pane.width as int
        };
        let left = pane.x + min(left_off, pane.width as int);
        let right_excl = pane.x + right_off_excl;
        if right_excl > left {
            Some(Rect {
                x: left as u16,
                y: (pane.y + (line - top)) as u16,
                width: (right_excl - left) as u16,
                height: 1,
            })
        } else {
            None
        }
    }
}

/// The highlights of the first `n` lines of a selection from `start` to
/// `end`.
pub open spec fn flow_rects_from(view: PreviewTextView, start: (u16, int), end: (u16, int), n: nat) -> Seq<Rect>
    decreases n,
{
    if n == 0 {
        seq![]
    } else {
        let rest = flow_rects_from(view, start, end, (n - 1) as nat);
        match line_rect(view, start, end, start.1 + n - 1) {
            Some(r) => rest.push(r),
            None => rest,
        }
    }
}

/// The per-row highlight of a selection under `view`: one rect per visible
/// selected line, from the start column on the first line and to the end
/// column on the last; nothing for a zero-sized pane.
pub open spec fn flow_rects(sel: PreviewSelection, view: PreviewTextView) -> Seq<Rect> {
    if view.pane.width == 0 || view.pane.height == 0 {
        seq![]
    } else {
        let (s, e) = sel.ordered(view);
        flow_rects_from(view, s, e, (e.1 - s.1 + 1) as nat)
    }
}

impl PreviewSelection {
    /// Decompose the selection into per-row flow-shape screen rects, clipped
    /// to the visible window of `view`.
    pub fn screen_flow_rects(self, view: PreviewTextView) -> (r: Vec<Rect>)
        requires
            view.pane.x + view.pane.width <= u16::MAX,
            view.pane.y + view.pane.height <= u16::MAX,
            view.first_line + view.pane.height <= usize::MAX,
        ensures
            r@ == flow_rects(self, view),
    {
        let pane = view.pane;
        let mut out: Vec<Rect> = Vec::new();
        if pane.width == 0 || pane.height == 0 {
            return out;
        }
        let ((start_col, start_line), (end_col, end_line)) = self.ordered_abs(view);
        let ghost s = (start_col, start_line as int);
        let ghost e = (end_col, end_line as int);
        let top = view.first_line;
        let bottom_excl = top + pane.height as usize;
        let mut line = start_line;
        while line <= end_line
            invariant
                start_line <= line <= end_line + 1,
                end_line < usize::MAX,
                s == (start_col, start_line as int),
                e == (end_col, end_line as int),
                top == view.first_line,
                pane == view.pane,
                bottom_excl == top + pane.height,
                pane.x + pane.width <= u16::MAX,
                pane.y + pane.height <= u16::MAX,
                out@ == flow_rects_from(view, s, e, (line - start_line) as nat),
            decreases end_line + 1 - line,
        {
            let ghost n = (line - start_line + 1) as nat;
            assert(s.1 + n - 1 == line);
            if line >= top && line < bottom_excl {
                let row = pane.y + (line - top) as u16;
                let left_off: u16 = if line == start_line { start_col } else { 0 };
                let end_plus = end_col.saturating_add(1);
                let right_off_excl: u16 = if line == end_line {
                    if end_plus < pane.width { end_plus } else { pane.width }
                } else {
                    pane.width
                };
                let left_min: u16 = if left_off < pane.width { left_off } else { pane.width };
                let left = pane.x + left_min;
                let right_excl = pane.x + right_off_excl;
                if right_excl > left {
                    out.push(Rect { x: left, y: row, width: right_excl - left, height: 1 });
                }
            }
            line = line + 1;
        }
        out
    }
}

/// `abs_from_bottom` inverts the `from_bottom` coordinate of
/// `screen_to_content`: the content line a screen row maps to is found again
/// from its distance to the newest line.
pub proof fn law_from_bottom_round_trip(view: PreviewTextView, row: int)
    requires
        view.total_lines > 0,
        view.rows_clampable(),
    ensures
        view.abs_of(sat_sub(sat_sub(view.total_lines as int, 1), view.line_at_row(row)))
            == view.line_at_row(row),
{
}

/// A selection resolves to a start that does not come after its end in
/// reading order, whichever way it was dragged.
pub proof fn law_selection_in_reading_order(sel: PreviewSelection, view: PreviewTextView)
    ensures
        cell_le(sel.ordered(view).0, sel.ordered(view).1),
{
}

/// A rect lies on one row of the pane, inside its columns, and is not empty.
pub open spec fn inside_pane(r: Rect, pane: Rect) -> bool {
    &&& r.height == 1
    &&& r.width > 0
    &&& pane.x <= r.x
    &&& r.x + r.width <= pane.x + pane.width
    &&& pane.y <= r.y < pane.y + pane.height
}

proof fn lemma_flow_rects_from_inside(view: PreviewTextView, start: (u16, int), end: (u16, int), n: nat)
    requires
        view.pane.x + view.pane.width <= u16::MAX,
        view.pane.y + view.pane.height <= u16::MAX,
    ensures
        forall|i: int| 0 <= i < flow_rects_from(view, start, end, n).len() ==> inside_pane(
            #[trigger] flow_rects_from(view, start, end, n)[i],
            view.pane,
        ),
    decreases n,
{
    if n > 0 {
        lemma_flow_rects_from_inside(view, start, end, (n - 1) as nat);
        let rest = flow_rects_from(view, start, end, (n - 1) as nat);
        let line = start.1 + n - 1;
        if let Some(r) = line_rect(view, start, end, line) {
            let pane = view.pane;
            let top = view.first_line as int;
            let left_off: int = if line == start.1 { start.0 as int } else { 0 };
            let right_off_excl: int = if line == end.1 {
                min(sat_add16(end.0 as int, 1), pane.width as int)
            } else {
                pane.width as int
            };
            let left = pane.x + min(left_off, pane.width as int);
            let right_excl = pane.x + right_off_excl;
            assert(0 <= left <= u16::MAX);
            assert(0 <= right_excl - left <= u16::MAX);
            assert(0 <= pane.y + (line - top) <= u16::MAX);
            assert(r.x == left);
            assert(r.width == right_excl - left);
            assert(r.y == pane.y + (line - top));
            assert(inside_pane(r, pane));
            assert(flow_rects_from(view, start, end, n) == rest.push(r));
        }
    }
}

/// The selection highlight stays inside the pane: each rect is one non-empty
/// row segment within the pane's columns and rows.
pub proof fn law_flow_rects_inside_pane(sel: PreviewSelection, view: PreviewTextView)
    requires
        view.pane.x + view.pane.width <= u16::MAX,
        view.pane.y + view.pane.height <= u16::MAX,
    ensures
        forall|i: int| 0 <= i < flow_rects(sel, view).len() ==> inside_pane(
            #[trigger] flow_rects(sel, view)[i],
            view.pane,
        ),
{
    if view.pane.width != 0 && view.pane.height != 0 {
        let (s, e) = sel.ordered(view);
        lemma_flow_rects_from_inside(view, s, e, (e.1 - s.1 + 1) as nat);
    }
}

// ---------------------------------------------------------------------------
// Captured pane content
// ---------------------------------------------------------------------------
/// The last capture of a session's pane: whose it is, its text, the pane
/// size it was taken at, and how many lines it holds.
pub struct PreviewCapture {
    pub session_id: Option<String>,
    pub content: String,
    pub dimensions: (u16, u16),
    pub captured_lines: usize,
}

impl PreviewCapture {
    /// No capture yet.
    pub fn new() -> (r: Self)
        ensures
            r.session_id is None,
            r.content@ == Seq::<char>::empty(),
            r.dimensions == (0u16, 0u16),
            r.captured_lines == 0,
    {
        PreviewCapture { session_id: None, content: String::new(), dimensions: (0, 0), captured_lines: 0 }
    }

    /// Store a fresh capture and return its line count (the lines
    /// `str::lines` yields), which bounds the scroll offset.
    pub fn store_capture(&mut self, content: String, session_id: String, dimensions: (u16, u16)) -> (n: usize)
        ensures
            n == lines_of(content@).len(),
            final(self).captured_lines == n,
            final(self).content@ == content@,
            final(self).session_id matches Some(id) && id@ == session_id@,
            final(self).dimensions == dimensions,
    {
        let cs = chars_of(content.as_str());
        let lines = lines_vec(&cs);
        let n = lines.len();
        self.captured_lines = n;
        self.content = content;
        self.session_id = Some(session_id);
        self.dimensions = dimensions;
        n
    }
}

} // verus!
