//! Navigation in the settings view: the category list with its section
//! dividers, moving between selectable rows, switching scope, and keeping
//! the selected field scrolled into view.
use vstd::prelude::*;
use crate::preview::Rect;
use crate::settings::SettingsScope;

verus! {

/// A settings category, one tab of the categories panel.
#[derive(Debug, Clone, Copy, PartialEq, Eq, Structural)]
pub enum SettingsCategory {
    Theme,
    Session,
    Agents,
    Interaction,
    Diff,
    Acp,
    Hooks,
    StatusHooks,
    Sandbox,
    Worktree,
    Tmux,
    Sound,
    Web,
    Updates,
    Telemetry,
    Logging,
    Plugins,
}

/// One row of the categories panel: a non-interactive section divider, or a
/// category tab.
#[derive(Debug, Clone, Copy, PartialEq, Eq)]
pub enum CategoryRow {
    Section(&'static str),
    Tab(SettingsCategory),
}

/// The content of a [`CategoryRow`].
pub enum RowView {
    Section(Seq<char>),
    Tab(SettingsCategory),
}

impl View for CategoryRow {
    type V = RowView;

    open spec fn view(&self) -> RowView {
        match self {
            CategoryRow::Section(s) => RowView::Section(s@),
            CategoryRow::Tab(c) => RowView::Tab(*c),
        }
    }
}

pub open spec fn rows_view(rows: Seq<CategoryRow>) -> Seq<RowView> {
    rows.map_values(|r: CategoryRow| r@)
}

impl CategoryRow {
    /// The category of a tab row.
    pub fn as_tab(self) -> (r: Option<SettingsCategory>)
        ensures
            r == (match self {
                CategoryRow::Tab(c) => Some(c),
                CategoryRow::Section(_) => None,
            }),
    {
        match self {
            CategoryRow::Tab(c) => Some(c),
            CategoryRow::Section(_) => None,
        }
    }
}

/// The rows of the categories panel under `scope`: status hooks are not
/// offered per repo, telemetry and plugins only globally.
pub open spec fn category_rows(scope: SettingsScope) -> Seq<RowView> {
    let head = seq![
        RowView::Section("Appearance"@),
        RowView::Tab(SettingsCategory::Theme),
        RowView::Section("Sessions"@),
        RowView::Tab(SettingsCategory::Session),
        RowView::Tab(SettingsCategory::Agents),
        RowView::Tab(SettingsCategory::Interaction),
        RowView::Tab(SettingsCategory::Diff),
        RowView::Tab(SettingsCategory::Acp),
        RowView::Section("Hooks"@),
        RowView::Tab(SettingsCategory::Hooks),
    ];
    let status_hooks = if scope != SettingsScope::Repo {
        seq![RowView::Tab(SettingsCategory::StatusHooks)]
    } else {
        seq![]
    };
    let middle = seq![
        RowView::Section("Environment"@),
        RowView::Tab(SettingsCategory::Sandbox),
        RowView::Tab(SettingsCategory::Worktree),
        RowView::Tab(SettingsCategory::Tmux),
        RowView::Section("Notifications"@),
        RowView::Tab(SettingsCategory::Sound),
        RowView::Tab(SettingsCategory::Web),
        RowView::Section("System"@),
        RowView::Tab(SettingsCategory::Updates),
    ];
    let telemetry = if scope == SettingsScope::Global {
        seq![RowView::Tab(SettingsCategory::Telemetry)]
    } else {
        seq![]
    };
    let plugins = if scope == SettingsScope::Global {
        seq![RowView::Tab(SettingsCategory::Plugins)]
    } else {
        seq![]
    };
    head + status_hooks + middle + telemetry + seq![RowView::Tab(SettingsCategory::Logging)] + plugins
}

fn push_row(rows: &mut Vec<CategoryRow>, row: CategoryRow)
    ensures
        rows_view(final(rows)@) == rows_view(old(rows)@).push(row@),
{
    rows.push(row);
    assert(rows_view(rows@) =~= rows_view(old(rows)@).push(row@));
}

/// The rows of the categories panel under `scope`.
pub fn categories_for_scope(scope: SettingsScope) -> (r: Vec<CategoryRow>)
    ensures
        rows_view(r@) == category_rows(scope),
{
    let mut rows: Vec<CategoryRow> = Vec::new();
    push_row(&mut rows, CategoryRow::Section("Appearance"));
    push_row(&mut rows, CategoryRow::Tab(SettingsCategory::Theme));
    push_row(&mut rows, CategoryRow::Section("Sessions"));
    push_row(&mut rows, CategoryRow::Tab(SettingsCategory::Session));
    push_row(&mut rows, CategoryRow::Tab(SettingsCategory::Agents));
    push_row(&mut rows, CategoryRow::Tab(SettingsCategory::Interaction));
    push_row(&mut rows, CategoryRow::Tab(SettingsCategory::Diff));
    push_row(&mut rows, CategoryRow::Tab(SettingsCategory::Acp));
    push_row(&mut rows, CategoryRow::Section("Hooks"));
    push_row(&mut rows, CategoryRow::Tab(SettingsCategory::Hooks));
    if scope != SettingsScope::Repo {
        push_row(&mut rows, CategoryRow::Tab(SettingsCategory::StatusHooks));
    }
    push_row(&mut rows, CategoryRow::Section("Environment"));
    push_row(&mut rows, CategoryRow::Tab(SettingsCategory::Sandbox));
    push_row(&mut rows, CategoryRow::Tab(SettingsCategory::Worktree));
    push_row(&mut rows, CategoryRow::Tab(SettingsCategory::Tmux));
    push_row(&mut rows, CategoryRow::Section("Notifications"));
    push_row(&mut rows, CategoryRow::Tab(SettingsCategory::Sound));
    push_row(&mut rows, CategoryRow::Tab(SettingsCategory::Web));
    push_row(&mut rows, CategoryRow::Section("System"));
    push_row(&mut rows, CategoryRow::Tab(SettingsCategory::Updates));
    if scope == SettingsScope::Global {
        push_row(&mut rows, CategoryRow::Tab(SettingsCategory::Telemetry));
    }
    push_row(&mut rows, CategoryRow::Tab(SettingsCategory::Logging));
    if scope == SettingsScope::Global {
        push_row(&mut rows, CategoryRow::Tab(SettingsCategory::Plugins));
    }
    assert(rows_view(rows@) =~= category_rows(scope));
    rows
}

// ---------------------------------------------------------------------------
// Moving between selectable rows
// ---------------------------------------------------------------------------
/// The first selectable index at or after `j`.
pub open spec fn next_selectable_from(flags: Seq<bool>, j: nat) -> Option<nat>
    decreases flags.len() - j,
{
    if j >= flags.len() {
        None
    } else if flags[j as int] {
        Some(j)
    } else {
        next_selectable_from(flags, j + 1)
    }
}

/// The last selectable index before `j`.
pub open spec fn prev_selectable_before(flags: Seq<bool>, j: nat) -> Option<nat>
    decreases j,
{
    if j == 0 {
        None
    } else if (j - 1) < flags.len() && flags[j - 1] {
        Some((j - 1) as nat)
    } else {
        prev_selectable_before(flags, (j - 1) as nat)
    }
}

proof fn lemma_next_selectable_found(flags: Seq<bool>, j: nat)
    ensures
        next_selectable_from(flags, j) matches Some(k) ==> j <= k < flags.len() && flags[k as int]
            && forall|m: int| j <= m < k ==> !#[trigger] flags[m],
    decreases flags.len() - j,
{
    if j < flags.len() && !flags[j as int] {
        lemma_next_selectable_found(flags, j + 1);
    }
}

proof fn lemma_prev_selectable_found(flags: Seq<bool>, j: nat)
    ensures
        prev_selectable_before(flags, j) matches Some(k) ==> k < j && k < flags.len() && flags[k as int],
    decreases j,
{
    if j > 0 {
        lemma_prev_selectable_found(flags, (j - 1) as nat);
    }
}

/// The next selectable row after `selected`, when there is one.
pub fn next_selectable(flags: &[bool], selected: usize) -> (r: Option<usize>)
    requires
        selected < usize::MAX,
    ensures
        match r {
            Some(k) => next_selectable_from(flags@, (selected + 1) as nat) == Some(k as nat),
            None => next_selectable_from(flags@, (selected + 1) as nat) is None,
        },
{
    let mut idx = selected + 1;
    while idx < flags.len()
        invariant
            selected + 1 <= idx,
            next_selectable_from(flags@, (selected + 1) as nat) == next_selectable_from(flags@, idx as nat),
        decreases flags.len() - idx,
    {
        if flags[idx] {
            return Some(idx);
        }
        idx = idx + 1;
    }
    None
}

/// The previous selectable row before `selected`, when there is one.
pub fn prev_selectable(flags: &[bool], selected: usize) -> (r: Option<usize>)
    ensures
        match r {
            Some(k) => prev_selectable_before(flags@, selected as nat) == Some(k as nat),
            None => prev_selectable_before(flags@, selected as nat) is None,
        },
{
    let mut idx = selected;
    while idx > 0
        invariant
            idx <= selected,
            prev_selectable_before(flags@, selected as nat) == prev_selectable_before(flags@, idx as nat),
        decreases idx,
    {
        idx = idx - 1;
        if idx < flags.len() && flags[idx] {
            return Some(idx);
        }
    }
    None
}

/// The first selectable row at or after `selected` (where the cursor snaps
/// after a category change), or `selected` itself when none follows.
pub fn snap_forward(flags: &[bool], selected: usize) -> (r: usize)
    ensures
        r == match next_selectable_from(flags@, selected as nat) {
            Some(k) => k as usize,
            None => selected,
        },
{
    let mut idx = selected;
    while idx < flags.len() && !flags[idx]
        invariant
            selected <= idx,
            next_selectable_from(flags@, selected as nat) == next_selectable_from(flags@, idx as nat),
        decreases flags.len() - idx,
    {
        idx = idx + 1;
    }
    if idx < flags.len() {
        idx
    } else {
        selected
    }
}

/// Moving down and then up returns to where the cursor was: no selectable
/// row lies between a row and the next selectable one.
pub proof fn law_down_then_up_returns(flags: Seq<bool>, s: nat)
    requires
        s < flags.len(),
        flags[s as int],
    ensures
        next_selectable_from(flags, s + 1) matches Some(k) ==> prev_selectable_before(flags, k) == Some(s),
{
    lemma_next_selectable_found(flags, s + 1);
    if let Some(k) = next_selectable_from(flags, s + 1) {
        lemma_prev_back(flags, s, k);
    }
}

proof fn lemma_prev_back(flags: Seq<bool>, s: nat, j: nat)
    requires
        s < j <= flags.len(),
        flags[s as int],
        forall|m: int| s < m < j ==> !#[trigger] flags[m],
    ensures
        prev_selectable_before(flags, j) == Some(s),
    decreases j,
{
    if j - 1 > s {
        assert(!flags[j - 1]);
        lemma_prev_back(flags, s, (j - 1) as nat);
    }
}

// ---------------------------------------------------------------------------
// The category list
// ---------------------------------------------------------------------------
/// Which rows are tabs.
pub open spec fn tab_flags(rows: Seq<RowView>) -> Seq<bool> {
    rows.map_values(|r: RowView| r is Tab)
}

/// The categories panel with its cursor, which always rests on a tab.
pub struct CategoryList {
    rows: Vec<CategoryRow>,
    selected: usize,
}

/// The content of a [`CategoryList`].
pub struct CategoryListView {
    pub rows: Seq<RowView>,
    pub selected: nat,
}

impl View for CategoryList {
    type V = CategoryListView;

    closed spec fn view(&self) -> CategoryListView {
        CategoryListView { rows: rows_view(self.rows@), selected: self.selected as nat }
    }
}

/// The cursor rests on a tab row.
pub open spec fn list_wf(l: CategoryListView) -> bool {
    l.selected < l.rows.len() && l.rows[l.selected as int] is Tab
}

/// The category of the tab under the cursor.
pub open spec fn selected_category(l: CategoryListView) -> SettingsCategory {
    match l.rows[l.selected as int] {
        RowView::Tab(c) => c,
        RowView::Section(_) => SettingsCategory::Theme,
    }
}

/// Index of the tab of `c`, if the rows hold one.
pub open spec fn tab_position(rows: Seq<RowView>, c: SettingsCategory, j: nat) -> Option<nat>
    decreases rows.len() - j,
{
    if j >= rows.len() {
        None
    } else if rows[j as int] == RowView::Tab(c) {
        Some(j)
    } else {
        tab_position(rows, c, j + 1)
    }
}

proof fn lemma_tab_position_found(rows: Seq<RowView>, c: SettingsCategory, j: nat)
    ensures
        tab_position(rows, c, j) matches Some(k) ==> j <= k < rows.len() && rows[k as int] == RowView::Tab(c),
    decreases rows.len() - j,
{
    if j < rows.len() && rows[j as int] != RowView::Tab(c) {
        lemma_tab_position_found(rows, c, j + 1);
    }
}

fn flags_of(rows: &Vec<CategoryRow>) -> (r: Vec<bool>)
    ensures
        r@ == tab_flags(rows_view(rows@)),
{
    let mut r: Vec<bool> = Vec::new();
    let mut i: usize = 0;
    while i < rows.len()
        invariant
            i <= rows@.len(),
            r@ == tab_flags(rows_view(rows@)).take(i as int),
        decreases rows@.len() - i,
    {
        let is_tab = match rows[i] {
            CategoryRow::Tab(_) => true,
            CategoryRow::Section(_) => false,
        };
        r.push(is_tab);
        assert(tab_flags(rows_view(rows@)).take(i + 1) =~= tab_flags(rows_view(rows@)).take(i as int).push(is_tab));
        i = i + 1;
    }
    assert(tab_flags(rows_view(rows@)).take(rows@.len() as int) =~= tab_flags(rows_view(rows@)));
    r
}

/// The first tab of the rows under `scope`: the Theme tab after the
/// Appearance section.
pub proof fn lemma_first_tab(scope: SettingsScope)
    ensures
        next_selectable_from(tab_flags(category_rows(scope)), 0) == Some(1nat),
{
    let f = tab_flags(category_rows(scope));
    assert(!f[0]);
    assert(f[1]);
    reveal_with_fuel(next_selectable_from, 2);
}

impl CategoryList {
    /// The categories of `scope` with the cursor on their first tab.
    pub fn for_scope(scope: SettingsScope) -> (r: Self)
        ensures
            list_wf(r@),
            r@.rows == category_rows(scope),
            r@.selected == 1,
    {
        proof {
            lemma_first_tab(scope);
        }
        CategoryList { rows: categories_for_scope(scope), selected: 1 }
    }

    /// The rows of the panel.
    pub fn rows(&self) -> (r: &Vec<CategoryRow>)
        ensures
            rows_view(r@) == self@.rows,
    {
        &self.rows
    }

    /// Index of the row under the cursor.
    pub fn selected(&self) -> (r: usize)
        ensures
            r == self@.selected,
    {
        self.selected
    }

    /// The category under the cursor.
    pub fn current_category(&self) -> (r: SettingsCategory)
        requires
            list_wf(self@),
        ensures
            r == selected_category(self@),
    {
        assert(self.rows@[self.selected as int]@ == self@.rows[self.selected as int]);
        match self.rows[self.selected] {
            CategoryRow::Tab(c) => c,
            CategoryRow::Section(_) => SettingsCategory::Theme,
        }
    }

    /// Move the cursor to the previous tab, skipping section dividers; stays
    /// put on the first tab. Returns whether it moved.
    pub fn move_up(&mut self) -> (moved: bool)
        requires
            list_wf(old(self)@),
        ensures
            list_wf(final(self)@),
            final(self)@.rows == old(self)@.rows,
            match prev_selectable_before(tab_flags(old(self)@.rows), old(self)@.selected) {
                Some(k) => moved && final(self)@.selected == k,
                None => !moved && final(self)@.selected == old(self)@.selected,
            },
    {
        let flags = flags_of(&self.rows);
        match prev_selectable(flags.as_slice(), self.selected) {
            Some(k) => {
                proof {
                    lemma_prev_selectable_found(flags@, self.selected as nat);
                }
                self.selected = k;
                true
            },
            None => false,
        }
    }

    /// Move the cursor to the next tab, skipping section dividers; stays put
    /// on the last tab. Returns whether it moved.
    pub fn move_down(&mut self) -> (moved: bool)
        requires
            list_wf(old(self)@),
        ensures
            list_wf(final(self)@),
            final(self)@.rows == old(self)@.rows,
            match next_selectable_from(tab_flags(old(self)@.rows), old(self)@.selected + 1) {
                Some(k) => moved && final(self)@.selected == k,
                None => !moved && final(self)@.selected == old(self)@.selected,
            },
    {
        let flags = flags_of(&self.rows);
        let n = self.rows.len();
        assert(self.selected < n);
        match next_selectable(flags.as_slice(), self.selected) {
            Some(k) => {
                proof {
                    lemma_next_selectable_found(flags@, (self.selected + 1) as nat);
                }
                self.selected = k;
                true
            },
            None => false,
        }
    }

    /// Rebuild the rows for `scope`, keeping the cursor on the same category
    /// when the new scope offers it, else on the first tab.
    pub fn rescope(&mut self, scope: SettingsScope)
        requires
            list_wf(old(self)@),
        ensures
            list_wf(final(self)@),
            final(self)@.rows == category_rows(scope),
            final(self)@.selected == match tab_position(
                category_rows(scope),
                selected_category(old(self)@),
                0,
            ) {
                Some(k) => k,
                None => 1,
            },
    {
        let current = self.current_category();
        let rows = categories_for_scope(scope);
        let ghost rv = rows_view(rows@);
        let mut idx: usize = 0;
        let mut found = false;
        while idx < rows.len() && !found
            invariant
                idx <= rows@.len(),
                rv == rows_view(rows@),
                found ==> idx < rows@.len() && rv[idx as int] == RowView::Tab(current),
                !found ==> tab_position(rv, current, 0) == tab_position(rv, current, idx as nat),
                found ==> tab_position(rv, current, 0) == Some(idx as nat),
            decreases rows@.len() - idx, if found { 0int } else { 1int },
        {
            assert(rows@[idx as int]@ == rv[idx as int]);
            let hit = match rows[idx] {
                CategoryRow::Tab(c) => c == current,
                CategoryRow::Section(_) => false,
            };
            if hit {
                found = true;
            } else {
                idx = idx + 1;
            }
        }
        proof {
            lemma_first_tab(scope);
            lemma_tab_position_found(rv, current, 0);
        }
        self.rows = rows;
        self.selected = if found { idx } else { 1 };
    }
}

// ---------------------------------------------------------------------------
// Scope switching
// ---------------------------------------------------------------------------
/// The scope after `]`: Global, Profile, then Repo when a project is open.
pub open spec fn scope_after(scope: SettingsScope, has_project: bool) -> SettingsScope {
    match scope {
        SettingsScope::Global => SettingsScope::Profile,
        SettingsScope::Profile => if has_project {
            SettingsScope::Repo
        } else {
            SettingsScope::Global
        },
        SettingsScope::Repo => SettingsScope::Global,
    }
}

/// The scope after `[`: the same cycle backwards.
pub open spec fn scope_before(scope: SettingsScope, has_project: bool) -> SettingsScope {
    match scope {
        SettingsScope::Global => if has_project {
            SettingsScope::Repo
        } else {
            SettingsScope::Profile
        },
        SettingsScope::Profile => SettingsScope::Global,
        SettingsScope::Repo => SettingsScope::Profile,
    }
}

/// The scope `]` switches to.
pub fn next_scope(scope: SettingsScope, has_project: bool) -> (r: SettingsScope)
    ensures
        r == scope_after(scope, has_project),
{
    match scope {
        SettingsScope::Global => SettingsScope::Profile,
        SettingsScope::Profile => if has_project {
            SettingsScope::Repo
        } else {
            SettingsScope::Global
        },
        SettingsScope::Repo => SettingsScope::Global,
    }
}

/// The scope `[` switches to.
pub fn prev_scope(scope: SettingsScope, has_project: bool) -> (r: SettingsScope)
    ensures
        r == scope_before(scope, has_project),
{
    match scope {
        SettingsScope::Global => if has_project {
            SettingsScope::Repo
        } else {
            SettingsScope::Profile
        },
        SettingsScope::Profile => SettingsScope::Global,
        SettingsScope::Repo => SettingsScope::Profile,
    }
}

/// `[` undoes `]` and `]` undoes `[`, for every scope reachable in the
/// cycle (the Repo scope only exists while a project is open).
pub proof fn law_scope_keys_undo_each_other(scope: SettingsScope, has_project: bool)
    requires
        has_project || scope != SettingsScope::Repo,
    ensures
        scope_before(scope_after(scope, has_project), has_project) == scope,
        scope_after(scope_before(scope, has_project), has_project) == scope,
{
}

// ---------------------------------------------------------------------------
// Keeping the selected field in view
// ---------------------------------------------------------------------------
/// The top row of field `i` in the field list: every field before it takes
/// its height plus one spacing row.
pub open spec fn field_top(heights: Seq<u16>, i: int) -> int
    decreases i,
{
    if i <= 0 {
        0
    } else {
        field_top(heights, i - 1) + heights[i - 1] + 1
    }
}

proof fn lemma_field_top_monotone(heights: Seq<u16>, i: int, j: int)
    requires
        0 <= i <= j,
    ensures
        field_top(heights, i) <= field_top(heights, j),
    decreases j - i,
{
    if i < j {
        lemma_field_top_monotone(heights, i, j - 1);
    }
}

/// Top row and height of the selected field; a selection past the list
/// counts as an empty field at the top.
pub open spec fn selected_span(heights: Seq<u16>, selected: int) -> (int, int) {
    if 0 <= selected < heights.len() {
        (field_top(heights, selected), heights[selected] as int)
    } else {
        (0, 0)
    }
}

/// The scroll offset after bringing the selected field into a viewport of
/// `viewport` rows: scroll up to its top if it starts above, down to its
/// bottom if it ends below.
pub open spec fn scroll_to_show(heights: Seq<u16>, selected: int, scroll: int, viewport: int) -> int {
    let (top, h) = selected_span(heights, selected);
    let up = if top < scroll { top } else { scroll };
    if top + h > up + viewport {
        sat_sub(top + h, viewport)
    } else {
        up
    }
}

pub open spec fn sat_sub(a: int, b: int) -> int {
    if a < b {
        0
    } else {
        a - b
    }
}

/// The rows the layout walks before it reaches the selected field.
pub open spec fn rows_walked(heights: Seq<u16>, selected: int) -> int {
    field_top(heights, if selected < heights.len() { selected } else { heights.len() as int })
}

/// The field-list scroll offset that shows the selected field, given each
/// field's height, the current offset and the viewport height.
pub fn ensure_field_visible(heights: &[u16], selected: usize, scroll: u16, viewport: u16) -> (r: u16)
    requires
        rows_walked(heights@, selected as int) <= u16::MAX,
        selected_span(heights@, selected as int).0 + selected_span(heights@, selected as int).1 <= u16::MAX,
        ({
            let top = selected_span(heights@, selected as int).0;
            (if top < scroll { top } else { scroll as int }) + viewport <= u16::MAX
        }),
    ensures
        r == scroll_to_show(heights@, selected as int, scroll as int, viewport as int),
{
    let mut y: u16 = 0;
    let mut selected_y: u16 = 0;
    let mut selected_h: u16 = 0;
    let mut i: usize = 0;
    let mut done = false;
    while i < heights.len() && !done
        invariant
            i <= heights@.len(),
            y == field_top(heights@, i as int),
            rows_walked(heights@, selected as int) <= u16::MAX,
            done ==> i == selected && i < heights@.len() && selected_y == field_top(heights@, i as int)
                && selected_h == heights@[i as int],
            !done ==> i <= selected && selected_y == 0 && selected_h == 0,
        decreases heights@.len() - i, if done { 0int } else { 1int },
    {
        let h = heights[i];
        if i == selected {
            selected_y = y;
            selected_h = h;
            done = true;
        } else {
            proof {
                let bound = if selected < heights@.len() { selected as int } else { heights@.len() as int };
                lemma_field_top_monotone(heights@, i + 1, bound);
            }
            y = y + h + 1;
            i = i + 1;
        }
    }
    let mut offset = scroll;
    if selected_y < offset {
        offset = selected_y;
    }
    let field_bottom = selected_y + selected_h;
    if field_bottom > offset + viewport {
        offset = field_bottom.saturating_sub(viewport);
    }
    offset
}

/// A field no taller than the viewport is fully visible after scrolling to
/// it.
pub proof fn law_selected_field_in_view(heights: Seq<u16>, selected: int, scroll: int, viewport: int)
    requires
        0 <= selected < heights.len(),
        0 <= scroll,
        heights[selected] <= viewport,
    ensures
        ({
            let r = scroll_to_show(heights, selected, scroll, viewport);
            let top = field_top(heights, selected);
            r <= top && top + heights[selected] <= r + viewport
        }),
{
}

// ---------------------------------------------------------------------------
// Mouse targets
// ---------------------------------------------------------------------------
/// The first entry of `rects` whose rect holds the cell `(col, row)`.
pub open spec fn first_hit<T>(rects: Seq<(T, Rect)>, col: int, row: int) -> Option<T>
    decreases rects.len(),
{
    if rects.len() == 0 {
        None
    } else if rects[0].1.holds(col, row) {
        Some(rects[0].0)
    } else {
        first_hit(rects.drop_first(), col, row)
    }
}

/// The first entry whose rect holds the cell `(col, row)`.
pub fn hit<T: Copy>(rects: &[(T, Rect)], col: u16, row: u16) -> (r: Option<T>)
    ensures
        r == first_hit(rects@, col as int, row as int),
{
    let mut i: usize = 0;
    assert(rects@.skip(0) =~= rects@);
    while i < rects.len()
        invariant
            i <= rects@.len(),
            first_hit(rects@, col as int, row as int) == first_hit(rects@.skip(i as int), col as int, row as int),
        decreases rects@.len() - i,
    {
        assert(rects@.skip(i as int)[0] == rects@[i as int]);
        assert(rects@.skip(i as int).drop_first() =~= rects@.skip(i + 1));
        let (t, rect) = rects[i];
        if rect.contains(col, row) {
            return Some(t);
        }
        i = i + 1;
    }
    None
}

/// The hover targets under a mouse position: scope chip, category row and
/// field row (each `None` when the position is absent or misses them).
pub open spec fn hover_targets(
    scopes: Seq<(SettingsScope, Rect)>,
    categories: Seq<(usize, Rect)>,
    fields: Seq<(usize, Rect)>,
    pos: Option<(u16, u16)>,
) -> (Option<SettingsScope>, Option<usize>, Option<usize>) {
    match pos {
        None => (None, None, None),
        Some((c, r)) => (
            first_hit(scopes, c as int, r as int),
            first_hit(categories, c as int, r as int),
            first_hit(fields, c as int, r as int),
        ),
    }
}

/// Track the mouse for the hover highlight: the new position (none while an
/// editing mode or overlay is open), and whether a redraw is needed, which
/// is only when some hover target changed.
pub fn hover_update(
    suppress: bool,
    current: Option<(u16, u16)>,
    col: u16,
    row: u16,
    scopes: &[(SettingsScope, Rect)],
    categories: &[(usize, Rect)],
    fields: &[(usize, Rect)],
) -> (r: (Option<(u16, u16)>, bool))
    ensures
        r.0 == (if suppress { None } else { Some((col, row)) }),
        r.1 == (r.0 != current && hover_targets(scopes@, categories@, fields@, current)
            != hover_targets(scopes@, categories@, fields@, r.0)),
{
    let new_pos: Option<(u16, u16)> = if suppress { None } else { Some((col, row)) };
    let same_pos = match (current, new_pos) {
        (None, None) => true,
        (Some((a, b)), Some((c, d))) => a == c && b == d,
        _ => false,
    };
    if same_pos {
        return (new_pos, false);
    }
    let (ps, pc, pf) = match current {
        None => (None, None, None),
        Some((c, r)) => (hit(scopes, c, r), hit(categories, c, r), hit(fields, c, r)),
    };
    let (ns, nc, nf) = match new_pos {
        None => (None, None, None),
        Some((c, r)) => (hit(scopes, c, r), hit(categories, c, r), hit(fields, c, r)),
    };
    let scope_same = match (ps, ns) {
        (None, None) => true,
        (Some(a), Some(b)) => a == b,
        _ => false,
    };
    let cat_same = match (pc, nc) {
        (None, None) => true,
        (Some(a), Some(b)) => a == b,
        _ => false,
    };
    let field_same = match (pf, nf) {
        (None, None) => true,
        (Some(a), Some(b)) => a == b,
        _ => false,
    };
    (new_pos, !(scope_same && cat_same && field_same))
}

/// What a left click in the settings view does.
#[derive(Debug, Clone, Copy, PartialEq, Eq, Structural)]
pub enum ClickEffect {
    /// An editing mode or overlay is open, or nothing was hit: the click is
    /// absorbed without effect.
    Absorbed,
    /// A different scope was clicked while there are unsaved changes.
    UnsavedChangesWarning,
    /// The scope chip of the current scope was clicked.
    Stay,
    /// Switch to this scope and rebuild the categories and fields.
    SwitchScope(SettingsScope),
    /// Focus the categories; select this row (resetting the field cursor and
    /// scroll) when it is not the selected one already.
    Category { index: usize, changed: bool },
    /// Focus the fields and select this row.
    Field(usize),
}

/// The effect of a click, given whether an editing mode or overlay is open.
pub open spec fn click_effect(
    busy: bool,
    scopes: Seq<(SettingsScope, Rect)>,
    categories: Seq<(usize, Rect)>,
    fields: Seq<(usize, Rect)>,
    col: int,
    row: int,
    scope: SettingsScope,
    has_changes: bool,
    selected_category: usize,
) -> ClickEffect {
    if busy {
        ClickEffect::Absorbed
    } else {
        match first_hit(scopes, col, row) {
            Some(s) => if s == scope {
                ClickEffect::Stay
            } else if has_changes {
                ClickEffect::UnsavedChangesWarning
            } else {
                ClickEffect::SwitchScope(s)
            },
            None => match first_hit(categories, col, row) {
                Some(i) => ClickEffect::Category { index: i, changed: i != selected_category },
                None => match first_hit(fields, col, row) {
                    Some(i) => ClickEffect::Field(i),
                    None => ClickEffect::Absorbed,
                },
            },
        }
    }
}

/// Route a left click: scope chips first, then category rows, then field
/// rows.
pub fn route_click(
    busy: bool,
    scopes: &[(SettingsScope, Rect)],
    categories: &[(usize, Rect)],
    fields: &[(usize, Rect)],
    col: u16,
    row: u16,
    scope: SettingsScope,
    has_changes: bool,
    selected_category: usize,
) -> (r: ClickEffect)
    ensures
        r == click_effect(
            busy,
            scopes@,
            categories@,
            fields@,
            col as int,
            row as int,
            scope,
            has_changes,
            selected_category,
        ),
{
    if busy {
        return ClickEffect::Absorbed;
    }
    if let Some(s) = hit(scopes, col, row) {
        if s == scope {
            return ClickEffect::Stay;
        }
        if has_changes {
            return ClickEffect::UnsavedChangesWarning;
        }
        return ClickEffect::SwitchScope(s);
    }
    if let Some(i) = hit(categories, col, row) {
        return ClickEffect::Category { index: i, changed: i != selected_category };
    }
    match hit(fields, col, row) {
        Some(i) => ClickEffect::Field(i),
        None => ClickEffect::Absorbed,
    }
}

} // verus!
