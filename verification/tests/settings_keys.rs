use boa::settings_keys::{profile_choices, save_error};
use boa::settings::{SettingsAction, SettingsFocus};
use boa::settings_keys::{
    commit_text_edit, cycle_profile, edit_text_of, enter_field, escape_action, quit_action, EnterEffect,
    FieldValue, TextCommit,
};

fn names(list: &[&str]) -> Vec<String> {
    list.iter().map(|s| s.to_string()).collect()
}

#[test]
fn quit_warns_only_with_unsaved_changes() {
    assert!(matches!(quit_action(true), SettingsAction::UnsavedChangesWarning));
    assert!(matches!(quit_action(false), SettingsAction::Close));
}

#[test]
fn escape_steps_back_from_fields_then_closes() {
    let (focus, action) = escape_action(SettingsFocus::Fields, true);
    assert_eq!(focus, SettingsFocus::Categories);
    assert!(matches!(action, SettingsAction::Continue));
    let (focus, action) = escape_action(SettingsFocus::Categories, false);
    assert_eq!(focus, SettingsFocus::Categories);
    assert!(matches!(action, SettingsAction::Close));
    let (_, action) = escape_action(SettingsFocus::Categories, true);
    assert!(matches!(action, SettingsAction::UnsavedChangesWarning));
}

#[test]
fn profile_cycling_wraps_both_ways() {
    let profiles = names(&["default", "work", "play"]);
    assert_eq!(cycle_profile(&profiles, "default", true), Some(1));
    assert_eq!(cycle_profile(&profiles, "play", true), Some(0));
    assert_eq!(cycle_profile(&profiles, "default", false), Some(2));
    assert_eq!(cycle_profile(&profiles, "work", false), Some(0));
}

#[test]
fn profile_cycling_from_unknown_profile_starts_at_first() {
    let profiles = names(&["default", "work", "play"]);
    assert_eq!(cycle_profile(&profiles, "missing", true), Some(1));
    assert_eq!(cycle_profile(&profiles, "missing", false), Some(2));
    assert_eq!(cycle_profile(&[], "default", true), None);
}

#[test]
fn profile_cycling_forward_then_back_returns() {
    let profiles = names(&["a", "b", "c", "d"]);
    for (i, p) in profiles.iter().enumerate() {
        let next = cycle_profile(&profiles, p, true).unwrap();
        let back = cycle_profile(&profiles, &profiles[next], false).unwrap();
        assert_eq!(back, i);
    }
}

#[test]
fn enter_flips_a_switch() {
    let mut v = FieldValue::Bool(false);
    assert_eq!(enter_field(&mut v, false, false), EnterEffect::Apply);
    assert!(matches!(v, FieldValue::Bool(true)));
}

#[test]
fn enter_opens_editor_on_text_and_numbers() {
    let mut v = FieldValue::Text("hello".to_string());
    assert_eq!(enter_field(&mut v, false, false), EnterEffect::EditText("hello".to_string()));
    let mut v = FieldValue::Number(42);
    assert_eq!(enter_field(&mut v, false, false), EnterEffect::EditText("42".to_string()));
    let mut v = FieldValue::OptionalText(None);
    assert_eq!(enter_field(&mut v, false, false), EnterEffect::EditText(String::new()));
    let mut v = FieldValue::OptionalText(Some("be brief".to_string()));
    assert_eq!(enter_field(&mut v, true, false), EnterEffect::OpenInstructionDialog);
}

#[test]
fn enter_moves_selection_and_previews_theme() {
    let mut v = FieldValue::Select { selected: 1, options: names(&["zinc", "dark"]) };
    assert_eq!(
        enter_field(&mut v, false, true),
        EnterEffect::ApplyAndPreviewTheme("zinc".to_string())
    );
    assert!(matches!(v, FieldValue::Select { selected: 0, .. }));
    assert_eq!(enter_field(&mut v, false, false), EnterEffect::Apply);
    assert!(matches!(v, FieldValue::Select { selected: 1, .. }));
}

#[test]
fn enter_on_list_and_divider() {
    let mut v = FieldValue::List(names(&["x"]));
    assert_eq!(enter_field(&mut v, false, false), EnterEffect::OpenListEditor);
    let mut v = FieldValue::SectionHeader;
    assert_eq!(enter_field(&mut v, false, false), EnterEffect::Nothing);
}

#[test]
fn commit_stores_text_and_clears_empty_optional() {
    let mut v = FieldValue::Text("old".to_string());
    assert_eq!(commit_text_edit(&mut v, "new".to_string()), TextCommit::Stored);
    assert!(matches!(&v, FieldValue::Text(t) if t == "new"));
    let mut v = FieldValue::OptionalText(Some("x".to_string()));
    assert_eq!(commit_text_edit(&mut v, String::new()), TextCommit::Stored);
    assert!(matches!(v, FieldValue::OptionalText(None)));
    let mut v = FieldValue::OptionalText(None);
    assert_eq!(commit_text_edit(&mut v, "y".to_string()), TextCommit::Stored);
    assert!(matches!(&v, FieldValue::OptionalText(Some(t)) if t == "y"));
}

#[test]
fn commit_parses_numbers_and_refuses_garbage() {
    let mut v = FieldValue::Number(7);
    assert_eq!(commit_text_edit(&mut v, "120".to_string()), TextCommit::Stored);
    assert!(matches!(v, FieldValue::Number(120)));
    assert_eq!(commit_text_edit(&mut v, "+5".to_string()), TextCommit::Stored);
    assert!(matches!(v, FieldValue::Number(5)));
    assert_eq!(commit_text_edit(&mut v, "12a".to_string()), TextCommit::InvalidNumber);
    assert!(matches!(v, FieldValue::Number(5)));
    assert_eq!(commit_text_edit(&mut v, "".to_string()), TextCommit::InvalidNumber);
    assert_eq!(commit_text_edit(&mut v, "-1".to_string()), TextCommit::InvalidNumber);
    assert_eq!(
        commit_text_edit(&mut v, "18446744073709551615".to_string()),
        TextCommit::Stored
    );
    assert!(matches!(v, FieldValue::Number(u64::MAX)));
    assert_eq!(
        commit_text_edit(&mut v, "18446744073709551616".to_string()),
        TextCommit::InvalidNumber
    );
}

#[test]
fn number_round_trips_through_the_editor() {
    for n in [0u64, 9, 10, 35, 1500, u64::MAX] {
        let mut v = FieldValue::Number(n);
        let text = edit_text_of(&v).unwrap();
        assert_eq!(text, n.to_string());
        assert_eq!(commit_text_edit(&mut v, text), TextCommit::Stored);
        assert!(matches!(v, FieldValue::Number(m) if m == n));
    }
    assert_eq!(edit_text_of(&FieldValue::OptionalText(None)), Some(String::new()));
    assert_eq!(edit_text_of(&FieldValue::Bool(true)), None);
}

#[test]
fn current_profile_joins_the_choices_in_order() {
    assert_eq!(profile_choices(names(&["b", "a"]), "a"), names(&["b", "a"]));
    assert_eq!(profile_choices(names(&["work", "default"]), "beta"), names(&["beta", "default", "work"]));
    assert_eq!(profile_choices(Vec::new(), "default"), names(&["default"]));
}

#[test]
fn save_stops_at_the_first_refused_field() {
    let checks = vec![
        ("Theme".to_string(), Ok(())),
        ("Agent overrides".to_string(), Err("missing '='".to_string())),
        ("Sound".to_string(), Err("bad".to_string())),
    ];
    assert_eq!(save_error(&checks), Some("Agent overrides: missing '='".to_string()));
    assert_eq!(save_error(&checks[..1]), None);
    assert_eq!(save_error(&[]), None);
}

use boa::settings_keys::{route_settings_key, SettingsKey, SettingsLayers, SettingsRoute, SettingsTransient};

fn no_layers() -> SettingsLayers {
    SettingsLayers {
        instruction_dialog: false,
        help: false,
        text_edit: false,
        list_edit: false,
        search: false,
        plugins_focused: false,
        plugin_settings: false,
    }
}

#[test]
fn normal_keys_route_to_their_actions() {
    let l = no_layers();
    assert_eq!(route_settings_key(l, SettingsKey::Char('s'), true), SettingsRoute::Save);
    assert_eq!(route_settings_key(l, SettingsKey::Char('s'), false), SettingsRoute::Nothing);
    assert_eq!(route_settings_key(l, SettingsKey::Char('q'), true), SettingsRoute::Quit);
    assert_eq!(route_settings_key(l, SettingsKey::Char('}'), false), SettingsRoute::CycleProfile { forward: true });
    assert_eq!(route_settings_key(l, SettingsKey::Char('l'), false), SettingsRoute::FocusFields);
    assert_eq!(route_settings_key(l, SettingsKey::BackTab, false), SettingsRoute::FocusCategories);
    assert_eq!(route_settings_key(l, SettingsKey::Char('j'), false), SettingsRoute::MoveDown);
    assert_eq!(route_settings_key(l, SettingsKey::Char('/'), false), SettingsRoute::OpenSearch);
    assert_eq!(route_settings_key(l, SettingsKey::Other, false), SettingsRoute::Nothing);
}

#[test]
fn slash_opens_search_overlay_route() {
    assert_eq!(route_settings_key(no_layers(), SettingsKey::Char('/'), false), SettingsRoute::OpenSearch);
}

#[test]
fn open_layers_take_keys_first() {
    let mut l = no_layers();
    l.search = true;
    assert_eq!(route_settings_key(l, SettingsKey::Char('q'), false), SettingsRoute::Search);
    l.text_edit = true;
    assert_eq!(route_settings_key(l, SettingsKey::Esc, false), SettingsRoute::TextEditor);
    l.help = true;
    assert_eq!(route_settings_key(l, SettingsKey::Char('x'), false), SettingsRoute::Nothing);
    assert_eq!(route_settings_key(l, SettingsKey::Char('?'), false), SettingsRoute::CloseHelp);
    l.instruction_dialog = true;
    assert_eq!(route_settings_key(l, SettingsKey::Esc, false), SettingsRoute::InstructionDialog);
}

#[test]
fn plugins_pane_routes_to_the_manager() {
    let mut l = no_layers();
    l.plugins_focused = true;
    assert_eq!(route_settings_key(l, SettingsKey::Char('q'), false), SettingsRoute::PluginManager);
    l.plugin_settings = true;
    assert_eq!(route_settings_key(l, SettingsKey::Esc, false), SettingsRoute::ExitPluginSettings);
    assert_eq!(route_settings_key(l, SettingsKey::Enter, false), SettingsRoute::Enter);
}

#[test]
fn keypress_clears_hover() {
    let mut t = SettingsTransient {
        mouse_pos: Some((25, 5)),
        success_message: Some("Saved".to_string()),
        success_expires_ms: Some(1000),
    };
    t.on_key();
    assert_eq!(t.mouse_pos, None);
    assert_eq!(t.success_message, None);
    assert_eq!(t.success_expires_ms, None);
}

use boa::settings_keys::DirtyBaseline;

#[test]
fn reverting_an_edit_to_the_saved_value_is_clean() {
    let b = DirtyBaseline::snapshot("{\"default_profile\":\"main\"}", "{}", "null");
    assert!(!b.has_changes("{\"default_profile\":\"main\"}", "{}", "null"));
    assert!(b.has_changes("{\"default_profile\":\"main-edited\"}", "{}", "null"));
    assert!(b.has_changes("{\"default_profile\":\"main\"}", "{\"description\":\"x\"}", "null"));
}

#[test]
fn a_new_snapshot_moves_the_baseline() {
    let before = DirtyBaseline::snapshot("{}", "{}", "null");
    assert!(before.has_changes("{}", "{\"description\":\"from-save\"}", "null"));
    let after = DirtyBaseline::snapshot("{}", "{\"description\":\"from-save\"}", "null");
    assert!(!after.has_changes("{}", "{\"description\":\"from-save\"}", "null"));
    assert!(after.has_changes("{}", "{}", "null"));
}
