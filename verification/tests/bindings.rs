use boa::bindings::{
    bindings, core_shadows, label, palette_id, parse_chord, plugin_bindings, resolve,
    resolve_action, ActionId, Chord, Context, Ctx, KeyCode, KeyPress, PluginAction, PluginKeybind,
    ResolvedAction, SortOrder, ViewMode,
};

fn ctx() -> Ctx {
    Ctx {
        view_mode: ViewMode::Structured,
        sort_order: SortOrder::Newest,
        has_search: false,
        project_group_selected: false,
        // The unread indicator is on by default.
        unread_enabled: true,
    }
}

fn key(c: char) -> KeyPress {
    KeyPress { code: KeyCode::Char(c), ctrl: false }
}

fn ctrl_key(c: char) -> KeyPress {
    KeyPress { code: KeyCode::Char(c), ctrl: true }
}

#[test]
fn parse_chord_handles_modifiers_and_keys() {
    assert_eq!(
        parse_chord("Ctrl+K"),
        Some(Chord { code: KeyCode::Char('k'), ctrl: true })
    );
    assert_eq!(
        parse_chord("Shift+D"),
        Some(Chord { code: KeyCode::Char('D'), ctrl: false })
    );
    assert_eq!(
        parse_chord("q"),
        Some(Chord { code: KeyCode::Char('q'), ctrl: false })
    );
    assert_eq!(
        parse_chord("F5"),
        Some(Chord { code: KeyCode::F(5), ctrl: false })
    );
    assert_eq!(parse_chord(""), None);
    assert_eq!(parse_chord("Ctrl+"), None);
}

#[test]
fn parse_chord_rejects_unsupported_and_repeated_tokens() {
    assert_eq!(parse_chord("Alt+K"), None);
    assert_eq!(parse_chord("Ctrl+Alt+K"), None);
    assert_eq!(parse_chord("Ctrl+K+J"), None);
    assert_eq!(parse_chord("Meta+K"), None);
}

#[test]
fn core_shadows_known_core_chords() {
    assert!(core_shadows(&parse_chord("q").unwrap()));
    assert!(!core_shadows(&Chord { code: KeyCode::Char('z'), ctrl: true }));
}

#[test]
fn resolve_action_wraps_core_bindings() {
    // With no active plugins the merged resolver returns the core action.
    let c = ctx();
    let none: Vec<(Chord, PluginAction)> = Vec::new();
    assert_eq!(
        resolve_action(&key('q'), false, &c, &none),
        Some(ResolvedAction::Core(ActionId::Quit))
    );
    assert_eq!(resolve_action(&ctrl_key('z'), false, &c, &none), None);
}

#[test]
fn plugin_action_canonical_is_namespaced() {
    let a = PluginAction {
        plugin_id: "acme.kit".to_string(),
        action: "do-thing".to_string(),
    };
    assert_eq!(a.canonical(), "plugin.acme.kit.do-thing");
    let already = PluginAction {
        plugin_id: "acme.kit".to_string(),
        action: "plugin.acme.kit.do-thing".to_string(),
    };
    assert_eq!(already.canonical(), "plugin.acme.kit.do-thing");
}

#[test]
fn non_strict_resolution() {
    let c = ctx();
    let cases = [
        ('d', ActionId::Delete),
        ('D', ActionId::Diff),
        ('r', ActionId::Rename),
        ('R', ActionId::Serve),
        ('t', ActionId::ToggleView),
        ('T', ActionId::AttachTerminal),
        ('n', ActionId::NewSession),
        ('N', ActionId::NewFromSelection),
        ('p', ActionId::Projects),
        ('P', ActionId::Profiles),
        ('o', ActionId::SortPicker),
        ('g', ActionId::GroupBy),
        ('q', ActionId::Quit),
        ('u', ActionId::Update),
    ];
    for (ch, want) in cases {
        assert_eq!(resolve(&key(ch), false, &c), Some(want), "non-strict '{ch}'");
    }
}

#[test]
fn shift_u_toggles_unread_in_both_modes_and_u_updates() {
    let c = ctx();
    assert_eq!(resolve(&key('U'), false, &c), Some(ActionId::ToggleUnread), "non-strict U = unread");
    assert_eq!(resolve(&key('U'), true, &c), Some(ActionId::ToggleUnread), "strict U = unread");
    assert_eq!(resolve(&key('u'), false, &c), Some(ActionId::Update), "non-strict u = update");
    assert_eq!(resolve(&ctrl_key('u'), true, &c), Some(ActionId::Update), "strict Ctrl+u = update");
}

#[test]
fn strict_relocation_is_consistent() {
    let c = ctx();
    let shifted = [
        ('D', ActionId::Delete),
        ('R', ActionId::Rename),
        ('T', ActionId::ToggleView),
        ('N', ActionId::NewSession),
        ('P', ActionId::Projects),
        ('O', ActionId::SortPicker),
        ('U', ActionId::ToggleUnread),
    ];
    for (ch, want) in shifted {
        assert_eq!(resolve(&key(ch), true, &c), Some(want), "strict '{ch}'");
    }
    let ctrled = [
        ('d', ActionId::Diff),
        ('r', ActionId::Serve),
        ('t', ActionId::AttachTerminal),
        ('n', ActionId::NewFromSelection),
        ('p', ActionId::Profiles),
        ('g', ActionId::GroupBy),
        ('u', ActionId::Update),
    ];
    for (ch, want) in ctrled {
        assert_eq!(resolve(&ctrl_key(ch), true, &c), Some(want), "strict Ctrl+{ch}");
    }
}

#[test]
fn strict_bare_lowercase_action_letters_are_unbound() {
    let c = ctx();
    for ch in ['d', 'r', 't', 'n', 'p', 's', 'x', 'm', 'e', 'i', 'z', 'g', 'o', 'u'] {
        assert_eq!(resolve(&key(ch), true, &c), None, "strict bare '{ch}'");
    }
}

#[test]
fn search_cycle_overrides_new_session_when_active() {
    let mut c = ctx();
    c.has_search = true;
    for strict in [false, true] {
        assert_eq!(resolve(&key('n'), strict, &c), Some(ActionId::SearchNext));
        assert_eq!(resolve(&key('N'), strict, &c), Some(ActionId::SearchPrev));
    }
    c.has_search = false;
    assert_eq!(resolve(&key('n'), false, &c), Some(ActionId::NewSession));
    assert_eq!(resolve(&key('N'), true, &c), Some(ActionId::NewSession));
}

#[test]
fn context_guards_gate_attention_and_terminal_actions() {
    let mut c = ctx();
    assert_eq!(resolve(&key('f'), false, &c), None);
    c.sort_order = SortOrder::Attention;
    assert_eq!(resolve(&key('f'), false, &c), Some(ActionId::ToggleFavorite));
    assert_eq!(resolve(&key('h'), false, &c), Some(ActionId::ToggleSnooze));
    let mut c = ctx();
    assert_eq!(resolve(&key('c'), false, &c), None);
    c.view_mode = ViewMode::Terminal;
    assert_eq!(resolve(&key('c'), false, &c), Some(ActionId::ToggleContainer));
}

#[test]
fn ctrl_o_sorts_in_both_modes() {
    let c = ctx();
    assert_eq!(resolve(&ctrl_key('o'), false, &c), Some(ActionId::SortPicker));
    assert_eq!(resolve(&ctrl_key('o'), true, &c), Some(ActionId::SortPicker));
}

#[test]
fn fork_is_palette_only_no_chord() {
    let c = ctx();
    for ch in ['f', 'F'] {
        assert_ne!(resolve(&key(ch), false, &c), Some(ActionId::Fork));
        assert_ne!(resolve(&key(ch), true, &c), Some(ActionId::Fork));
    }
    assert_eq!(palette_id(ActionId::Fork), "fork");
}

#[test]
fn labels_match_mode() {
    assert_eq!(label(ActionId::Diff, false), "D");
    assert_eq!(label(ActionId::Diff, true), "Ctrl+D");
    assert_eq!(label(ActionId::Delete, true), "D");
    assert_eq!(label(ActionId::Projects, false), "p");
    assert_eq!(label(ActionId::Projects, true), "P");
    assert_eq!(label(ActionId::Profiles, true), "Ctrl+P");
    assert_eq!(label(ActionId::Restart, false), "e");
    assert_eq!(label(ActionId::NextWaiting, true), "");
}

// ---------------------------------------------------------------------------
// Further cases
// ---------------------------------------------------------------------------

#[test]
fn unread_toggle_needs_the_feature() {
    let mut c = ctx();
    c.unread_enabled = false;
    assert_eq!(resolve(&key('U'), false, &c), None);
}

#[test]
fn core_bindings_win_over_plugins_and_first_plugin_wins() {
    let c = ctx();
    let kbs = vec![
        PluginKeybind { plugin_id: "a".to_string(), key: "Ctrl+Z".to_string(), command: "one".to_string() },
        PluginKeybind { plugin_id: "b".to_string(), key: "Ctrl+z".to_string(), command: "two".to_string() },
        PluginKeybind { plugin_id: "c".to_string(), key: "q".to_string(), command: "quit".to_string() },
        PluginKeybind { plugin_id: "d".to_string(), key: "Alt+x".to_string(), command: "bad".to_string() },
    ];
    let pb = plugin_bindings(&kbs);
    // The unparsable key string is skipped.
    assert_eq!(pb.len(), 3);
    assert_eq!(
        resolve_action(&ctrl_key('z'), false, &c, &pb),
        Some(ResolvedAction::Plugin(PluginAction {
            plugin_id: "a".to_string(),
            action: "one".to_string()
        }))
    );
    assert_eq!(
        resolve_action(&key('q'), false, &c, &pb),
        Some(ResolvedAction::Core(ActionId::Quit))
    );
}

#[test]
fn every_label_resolves_back_to_its_action_in_a_quiet_context() {
    // A context where no guard is active, as the label law assumes.
    let c = Ctx {
        view_mode: ViewMode::Structured,
        sort_order: SortOrder::Newest,
        has_search: false,
        project_group_selected: false,
        unread_enabled: false,
    };
    for strict in [false, true] {
        for b in bindings() {
            let chords = if strict { &b.strict } else { &b.non_strict };
            if chords.is_empty() || b.context != Context::Always {
                continue;
            }
            let first = chords[0];
            let got = resolve(&KeyPress { code: first.code, ctrl: first.ctrl }, strict, &c);
            assert_eq!(got, Some(b.id), "{:?} strict={strict}", b.id);
            assert!(!label(b.id, strict).is_empty());
        }
    }
}

#[test]
fn parse_chord_reads_function_keys_and_case() {
    assert_eq!(parse_chord("f12"), Some(Chord { code: KeyCode::F(12), ctrl: false }));
    assert_eq!(parse_chord("control+x"), Some(Chord { code: KeyCode::Char('x'), ctrl: true }));
    assert_eq!(parse_chord("Shift+Ctrl+x"), Some(Chord { code: KeyCode::Char('X'), ctrl: true }));
}

#[test]
fn palette_ids_are_distinct_kebab_case() {
    let ids: Vec<&str> = bindings().iter().map(|b| palette_id(b.id)).collect();
    assert!(!ids.is_empty());
    let mut seen = std::collections::HashSet::new();
    for b in bindings() {
        seen.insert(b.id);
    }
    let distinct_ids: std::collections::HashSet<&str> = seen.iter().map(|a| palette_id(*a)).collect();
    assert_eq!(distinct_ids.len(), seen.len());
    for id in ids {
        assert!(!id.starts_with('-') && !id.ends_with('-') && !id.contains("--"));
        assert!(id.chars().all(|c| c.is_ascii_lowercase() || c == '-'));
    }
}
