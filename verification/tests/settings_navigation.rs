use boa::categories::{
    hit, hover_update, route_click, ClickEffect,
    categories_for_scope, ensure_field_visible, next_scope, next_selectable, prev_scope,
    prev_selectable, snap_forward, CategoryList, CategoryRow, SettingsCategory,
};
use boa::home::{rename_block_message, rename_target, WorktreeRenameBlock};
use boa::preview::Rect;
use boa::settings::SettingsScope;

#[test]
fn category_nav_skips_section_dividers() {
    let mut list = CategoryList::for_scope(SettingsScope::Global);
    let start = list.selected();
    assert!(matches!(list.rows()[start], CategoryRow::Tab(_)));
    assert_eq!(list.current_category(), SettingsCategory::Theme);
    assert!(list.move_down());
    assert!(matches!(list.rows()[list.selected()], CategoryRow::Tab(_)));
    assert_eq!(list.current_category(), SettingsCategory::Session);
    assert!(list.move_up());
    assert_eq!(list.current_category(), SettingsCategory::Theme);
    // Nothing above the first tab.
    assert!(!list.move_up());
    assert_eq!(list.current_category(), SettingsCategory::Theme);
}

#[test]
fn scopes_offer_their_own_categories() {
    let tabs = |scope| -> Vec<SettingsCategory> {
        categories_for_scope(scope).into_iter().filter_map(|r| r.as_tab()).collect()
    };
    let global = tabs(SettingsScope::Global);
    let profile = tabs(SettingsScope::Profile);
    let repo = tabs(SettingsScope::Repo);
    assert_eq!(global.len(), 17);
    assert!(global.contains(&SettingsCategory::Telemetry));
    assert!(global.contains(&SettingsCategory::Plugins));
    assert!(!profile.contains(&SettingsCategory::Telemetry));
    assert!(profile.contains(&SettingsCategory::StatusHooks));
    assert!(!repo.contains(&SettingsCategory::StatusHooks));
    assert_eq!(categories_for_scope(SettingsScope::Global)[0], CategoryRow::Section("Appearance"));
    assert_eq!(*global.last().unwrap(), SettingsCategory::Plugins);
}

#[test]
fn rescoping_keeps_the_category_when_offered() {
    let mut list = CategoryList::for_scope(SettingsScope::Global);
    while list.current_category() != SettingsCategory::Tmux {
        assert!(list.move_down());
    }
    list.rescope(SettingsScope::Repo);
    assert_eq!(list.current_category(), SettingsCategory::Tmux);
    // Telemetry is global only: the cursor falls back to the first tab.
    let mut list = CategoryList::for_scope(SettingsScope::Global);
    while list.current_category() != SettingsCategory::Telemetry {
        assert!(list.move_down());
    }
    list.rescope(SettingsScope::Profile);
    assert_eq!(list.current_category(), SettingsCategory::Theme);
    // The last tab cannot move further down.
    let mut list = CategoryList::for_scope(SettingsScope::Repo);
    while list.move_down() {}
    assert_eq!(list.current_category(), SettingsCategory::Logging);
}

#[test]
fn field_navigation_skips_headers() {
    // Row 0 and 3 are section headers.
    let selectable = [false, true, true, false, true];
    assert_eq!(next_selectable(&selectable, 2), Some(4));
    assert_eq!(next_selectable(&selectable, 4), None);
    assert_eq!(prev_selectable(&selectable, 4), Some(2));
    assert_eq!(prev_selectable(&selectable, 1), None);
    assert_eq!(snap_forward(&selectable, 0), 1);
    assert_eq!(snap_forward(&selectable, 3), 4);
    assert_eq!(snap_forward(&[false, false], 0), 0);
}

#[test]
fn scope_keys_cycle_and_undo() {
    assert_eq!(next_scope(SettingsScope::Global, false), SettingsScope::Profile);
    assert_eq!(next_scope(SettingsScope::Profile, false), SettingsScope::Global);
    assert_eq!(next_scope(SettingsScope::Profile, true), SettingsScope::Repo);
    assert_eq!(prev_scope(SettingsScope::Global, true), SettingsScope::Repo);
    assert_eq!(prev_scope(SettingsScope::Global, false), SettingsScope::Profile);
    for scope in [SettingsScope::Global, SettingsScope::Profile, SettingsScope::Repo] {
        assert_eq!(prev_scope(next_scope(scope, true), true), scope);
        assert_eq!(next_scope(prev_scope(scope, true), true), scope);
    }
}

#[test]
fn selected_field_is_scrolled_into_view() {
    let heights = [1u16, 3, 1, 5, 1];
    // Field 3 starts at row (1+1)+(3+1)+(1+1) = 8 and ends at 13.
    assert_eq!(ensure_field_visible(&heights, 3, 0, 6), 7);
    // Scrolling back up to a field above the viewport.
    assert_eq!(ensure_field_visible(&heights, 1, 7, 6), 2);
    // Already visible: the offset stays.
    assert_eq!(ensure_field_visible(&heights, 2, 5, 6), 5);
    // A selection past the list scrolls to the top.
    assert_eq!(ensure_field_visible(&heights, 9, 4, 6), 0);
}

#[test]
fn rename_keeps_empty_title_and_moves_tied_worktree() {
    let r = rename_target("old", "grp", "", None, false, true);
    assert_eq!(r.title, "old");
    assert_eq!(r.group, "grp");
    assert!(!r.move_worktree);
    let r = rename_target("old", "grp", "new", Some(""), false, true);
    assert_eq!(r.title, "new");
    assert_eq!(r.group, "");
    assert!(r.move_worktree);
    let r = rename_target("old", "grp", "old", None, true, true);
    assert!(r.move_worktree);
    let r = rename_target("old", "grp", "new", None, true, false);
    assert!(!r.move_worktree);
    assert!(rename_block_message(WorktreeRenameBlock::SandboxContainer).contains("container"));
    assert!(rename_block_message(WorktreeRenameBlock::ActiveAgent).contains("while it's running"));
}


fn rect(x: u16, y: u16, w: u16, h: u16) -> Rect {
    Rect { x, y, width: w, height: h }
}

#[test]
fn clicks_route_scope_then_category_then_field() {
    let scopes = [(SettingsScope::Global, rect(0, 0, 10, 1)), (SettingsScope::Profile, rect(10, 0, 10, 1))];
    let cats = [(1usize, rect(0, 2, 20, 1)), (3usize, rect(0, 3, 20, 1))];
    let fields = [(0usize, rect(25, 2, 40, 2)), (2usize, rect(25, 5, 40, 2))];
    assert_eq!(hit(&cats, 5, 3), Some(3));
    assert_eq!(hit(&cats, 5, 9), None);
    let click = |busy, col, row, changes| {
        route_click(busy, &scopes, &cats, &fields, col, row, SettingsScope::Global, changes, 1)
    };
    assert_eq!(click(false, 12, 0, false), ClickEffect::SwitchScope(SettingsScope::Profile));
    assert_eq!(click(false, 12, 0, true), ClickEffect::UnsavedChangesWarning);
    assert_eq!(click(false, 2, 0, true), ClickEffect::Stay);
    assert_eq!(click(false, 2, 2, false), ClickEffect::Category { index: 1, changed: false });
    assert_eq!(click(false, 2, 3, false), ClickEffect::Category { index: 3, changed: true });
    assert_eq!(click(false, 30, 6, false), ClickEffect::Field(2));
    assert_eq!(click(false, 80, 30, false), ClickEffect::Absorbed);
    assert_eq!(click(true, 12, 0, false), ClickEffect::Absorbed);
}

#[test]
fn hover_redraws_only_when_the_target_changes() {
    let scopes = [(SettingsScope::Global, rect(0, 0, 10, 1))];
    let cats = [(1usize, rect(0, 2, 20, 1))];
    let fields: [(usize, Rect); 0] = [];
    // Moving within the same category row: no redraw.
    assert_eq!(hover_update(false, Some((1, 2)), 5, 2, &scopes, &cats, &fields), (Some((5, 2)), false));
    // Onto the scope chip: redraw.
    assert_eq!(hover_update(false, Some((1, 2)), 5, 0, &scopes, &cats, &fields), (Some((5, 0)), true));
    // An overlay clears the hover.
    assert_eq!(hover_update(true, Some((1, 2)), 5, 0, &scopes, &cats, &fields), (None, true));
    assert_eq!(hover_update(true, None, 5, 0, &scopes, &cats, &fields), (None, false));
}

fn no_scopes() -> Vec<(SettingsScope, Rect)> {
    Vec::new()
}

fn no_rows() -> Vec<(usize, Rect)> {
    Vec::new()
}

#[test]
fn click_on_scope_tab_switches_scope() {
    let scopes = vec![(SettingsScope::Profile, rect(40, 0, 18, 1))];
    let selected = CategoryList::for_scope(SettingsScope::Global).selected();
    assert_eq!(
        route_click(false, &scopes, &no_rows(), &no_rows(), 45, 0, SettingsScope::Global, false, selected),
        ClickEffect::SwitchScope(SettingsScope::Profile)
    );
}

#[test]
fn click_on_scope_tab_with_unsaved_changes_warns() {
    let scopes = vec![(SettingsScope::Profile, rect(40, 0, 18, 1))];
    let selected = CategoryList::for_scope(SettingsScope::Global).selected();
    assert_eq!(
        route_click(false, &scopes, &no_rows(), &no_rows(), 45, 0, SettingsScope::Global, true, selected),
        ClickEffect::UnsavedChangesWarning
    );
}

#[test]
fn click_on_category_row_focuses_and_selects() {
    let list = CategoryList::for_scope(SettingsScope::Global);
    let original = list.selected();
    let other_tab = (0..list.rows().len())
        .find(|&i| i != original && matches!(list.rows()[i], CategoryRow::Tab(_)))
        .expect("expected at least two Tab rows in test layout");
    let cats = vec![(other_tab, rect(0, 10, 20, 1))];
    assert_eq!(
        route_click(false, &no_scopes(), &cats, &no_rows(), 5, 10, SettingsScope::Global, false, original),
        ClickEffect::Category { index: other_tab, changed: true }
    );
}

#[test]
fn click_on_field_focuses_and_selects() {
    let fields = vec![(0usize, rect(20, 5, 50, 2)), (1usize, rect(20, 8, 50, 2))];
    let selected = CategoryList::for_scope(SettingsScope::Global).selected();
    assert_eq!(
        route_click(false, &no_scopes(), &no_rows(), &fields, 25, 9, SettingsScope::Global, false, selected),
        ClickEffect::Field(1)
    );
}

#[test]
fn handle_click_returns_none_when_editing() {
    let scopes = vec![(SettingsScope::Profile, rect(40, 0, 18, 1))];
    let selected = CategoryList::for_scope(SettingsScope::Global).selected();
    assert_eq!(
        route_click(true, &scopes, &no_rows(), &no_rows(), 45, 0, SettingsScope::Global, false, selected),
        ClickEffect::Absorbed
    );
}

#[test]
fn hover_records_mouse_pos_and_resolves_to_field() {
    let fields = vec![(0usize, rect(20, 5, 50, 2)), (1usize, rect(20, 8, 50, 2))];
    let (pos, changed) = hover_update(false, None, 25, 9, &no_scopes(), &no_rows(), &fields);
    assert!(changed, "hover entering a new field should redraw");
    assert_eq!(pos, Some((25, 9)));
    assert_eq!(hit(&fields, 25, 9), Some(1));
}

#[test]
fn hover_suppressed_while_editing() {
    let fields = vec![(0usize, rect(20, 5, 50, 2))];
    let (pos, changed) = hover_update(true, None, 25, 5, &no_scopes(), &no_rows(), &fields);
    assert_eq!(pos, None);
    assert!(!changed);
}

#[test]
fn hover_never_moves_focus() {
    let fields = vec![(0usize, rect(20, 5, 50, 2)), (1usize, rect(20, 8, 50, 2))];
    let list = CategoryList::for_scope(SettingsScope::Global);
    let selected_before = list.selected();
    let (pos, changed) = hover_update(false, None, 25, 9, &no_scopes(), &no_rows(), &fields);
    // Hover yields only the pointer position and whether to redraw; focus
    // and selection are not among its outputs.
    assert_eq!(pos, Some((25, 9)));
    assert!(changed);
    assert_eq!(list.selected(), selected_before);
}
