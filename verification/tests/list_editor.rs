use boa::list_edit::{
    cancel_list_item, commit_list_item, handle_list_key, ItemOutcome, ListAction, ListEditState,
    ListItemValidation, ListKey,
};

fn items(xs: &[&str]) -> Vec<String> {
    xs.iter().map(|s| s.to_string()).collect()
}

fn agents() -> Vec<String> {
    vec!["opencode".to_string(), "aider".to_string()]
}

#[test]
fn list_navigation_stays_in_bounds() {
    let mut st = ListEditState::new();
    let mut xs = items(&["a", "b", "c"]);
    assert_eq!(handle_list_key(&mut st, &mut xs, ListKey::Up), ListAction::Continue);
    assert_eq!(st.selected_index, 0);
    handle_list_key(&mut st, &mut xs, ListKey::Down);
    handle_list_key(&mut st, &mut xs, ListKey::Down);
    handle_list_key(&mut st, &mut xs, ListKey::Down);
    assert_eq!(st.selected_index, 2);
    assert_eq!(handle_list_key(&mut st, &mut xs, ListKey::Esc), ListAction::Close);
}

#[test]
fn deleting_the_last_item_moves_the_selection_up() {
    let mut st = ListEditState::new();
    let mut xs = items(&["a", "b", "c"]);
    st.selected_index = 2;
    assert_eq!(handle_list_key(&mut st, &mut xs, ListKey::Delete), ListAction::Apply);
    assert_eq!(xs, items(&["a", "b"]));
    assert_eq!(st.selected_index, 1);
    st.selected_index = 0;
    handle_list_key(&mut st, &mut xs, ListKey::Delete);
    assert_eq!(xs, items(&["b"]));
    assert_eq!(st.selected_index, 0);
    handle_list_key(&mut st, &mut xs, ListKey::Delete);
    assert!(xs.is_empty());
    // Deleting from an empty list still writes the field back.
    assert_eq!(handle_list_key(&mut st, &mut xs, ListKey::Delete), ListAction::Apply);
}

#[test]
fn adding_appends_and_selects_the_new_item() {
    let mut st = ListEditState::new();
    let mut xs = items(&["a"]);
    handle_list_key(&mut st, &mut xs, ListKey::Add);
    assert_eq!(st.editing_item.as_deref(), Some(""));
    assert!(st.adding_new);
    let out = commit_list_item(&mut st, &mut xs, "b".to_string(), ListItemValidation::Plain, &agents());
    assert_eq!(out, ItemOutcome::Stored { env_check: false });
    assert_eq!(xs, items(&["a", "b"]));
    assert_eq!(st.selected_index, 1);
    assert!(st.editing_item.is_none());
}

#[test]
fn editing_replaces_the_selected_item() {
    let mut st = ListEditState::new();
    let mut xs = items(&["KEY=1", "OTHER=2"]);
    handle_list_key(&mut st, &mut xs, ListKey::Down);
    handle_list_key(&mut st, &mut xs, ListKey::Edit);
    assert_eq!(st.editing_item.as_deref(), Some("OTHER=2"));
    let out = commit_list_item(&mut st, &mut xs, "OTHER=$HOME".to_string(), ListItemValidation::EnvEntry, &agents());
    assert_eq!(out, ItemOutcome::Stored { env_check: true });
    assert_eq!(xs, items(&["KEY=1", "OTHER=$HOME"]));
}

#[test]
fn refused_entries_reopen_the_editor() {
    let mut st = ListEditState::new();
    let mut xs = items(&[]);
    handle_list_key(&mut st, &mut xs, ListKey::Add);
    let out = commit_list_item(&mut st, &mut xs, "nope=x".to_string(), ListItemValidation::AgentKeyValue, &agents());
    assert_eq!(
        out,
        ItemOutcome::Rejected("'nope' is not a known agent. Known agents: opencode, aider".to_string())
    );
    assert_eq!(st.editing_item.as_deref(), Some("nope=x"));
    assert!(st.adding_new);
    assert!(xs.is_empty());
    // An empty text just closes the editor.
    assert_eq!(
        commit_list_item(&mut st, &mut xs, String::new(), ListItemValidation::AgentKeyValue, &agents()),
        ItemOutcome::Discarded
    );
    assert!(st.editing_item.is_none() && !st.adding_new);
    handle_list_key(&mut st, &mut xs, ListKey::Add);
    cancel_list_item(&mut st);
    assert!(st.editing_item.is_none() && !st.adding_new);
}
