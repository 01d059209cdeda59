use boa::themes::{
    available_themes, builtin_theme_names, builtin_themes, custom_themes_dir,
    discover_plugin_themes, is_builtin_theme, load_theme, load_theme_with_mode,
    select_custom_themes, unread_omitted, ThemeSource,
};

fn pair(a: &str, b: &str) -> (String, String) {
    (a.to_string(), b.to_string())
}

fn source_name(s: &ThemeSource) -> (&'static str, String) {
    match s {
        ThemeSource::Builtin(n) => ("builtin", n.clone()),
        ThemeSource::Custom(p) => ("custom", p.clone()),
        ThemeSource::Plugin(p) => ("plugin", p.clone()),
    }
}

#[test]
fn unknown_theme_falls_back_to_default() {
    let theme = load_theme("nonexistent-theme", &vec![], &vec![], &[]);
    let default = load_theme("zinc", &vec![], &vec![], &[]);
    assert_eq!(source_name(&theme), source_name(&default));
}

#[test]
fn test_builtin_themes_count() {
    assert_eq!(builtin_themes().len(), 9);
    let names = builtin_theme_names();
    for n in [
        "boa",
        "zinc",
        "empire",
        "phosphor",
        "tokyo-night-storm",
        "catppuccin-latte",
        "dracula",
        "rose-pine",
        "deep-ocean",
    ] {
        assert!(names.contains(&n.to_string()));
    }
}

#[test]
fn test_builtin_name_ignored_in_custom_dir() {
    assert!(is_builtin_theme("empire"));
    let picked = select_custom_themes(&vec![pair("empire.toml", "/t/empire.toml")]);
    assert!(picked.is_empty());
}

#[test]
fn test_available_themes_includes_builtins() {
    let themes = available_themes(&vec![], &vec![]);
    assert!(themes.len() >= 5);
    for n in ["empire", "phosphor", "tokyo-night-storm", "catppuccin-latte", "dracula"] {
        assert!(themes.contains(&n.to_string()));
    }
}

// ---------------------------------------------------------------------------
// Further cases
// ---------------------------------------------------------------------------

#[test]
fn builtin_names_keep_declared_order() {
    let names = builtin_theme_names();
    assert_eq!(names[0], "boa");
    assert_eq!(names[1], "zinc");
    assert_eq!(names[8], "deep-ocean");
    assert!(!is_builtin_theme("Empire"));
    assert!(!is_builtin_theme("my-dark"));
}

#[test]
fn custom_theme_dir_is_under_the_app_dir() {
    assert_eq!(custom_themes_dir(Some("/home/u/.config/aoe")).as_deref(), Some("/home/u/.config/aoe/themes"));
    assert_eq!(custom_themes_dir(Some("/home/u/.config/aoe/")).as_deref(), Some("/home/u/.config/aoe/themes"));
    assert_eq!(custom_themes_dir(None), None);
}

#[test]
fn custom_themes_are_toml_files_sorted_by_name() {
    let entries = vec![
        pair("my-light.toml", "/t/my-light.toml"),
        pair("readme.txt", "/t/readme.txt"),
        pair("dracula.toml", "/t/dracula.toml"),
        pair("Abyss.toml", "/t/Abyss.toml"),
        pair(".toml", "/t/.toml"),
        pair("my-dark.toml", "/t/my-dark.toml"),
        pair("a.b.toml", "/t/a.b.toml"),
    ];
    let picked = select_custom_themes(&entries);
    assert_eq!(
        picked,
        vec![
            pair("Abyss", "/t/Abyss.toml"),
            pair("a.b", "/t/a.b.toml"),
            pair("my-dark", "/t/my-dark.toml"),
            pair("my-light", "/t/my-light.toml"),
        ]
    );
}

#[test]
fn plugin_themes_cannot_shadow_and_first_plugin_wins() {
    let custom = vec![pair("mine", "/c/mine.toml")];
    let plugin = vec![
        pair("zinc", "/p1/zinc.toml"),
        pair("mine", "/p1/mine.toml"),
        pair("neon", "/p1/neon.toml"),
        pair("neon", "/p2/neon.toml"),
        pair("glow", "/p2/glow.toml"),
    ];
    let offered = discover_plugin_themes(&custom, &plugin);
    assert_eq!(offered, vec![pair("neon", "/p1/neon.toml"), pair("glow", "/p2/glow.toml")]);
    let all = available_themes(&custom, &plugin);
    assert_eq!(all.len(), 9 + 1 + 2);
    assert_eq!(all[9], "mine");
    assert_eq!(all[10], "neon");
    assert_eq!(all[11], "glow");
}

#[test]
fn theme_resolution_prefers_builtin_then_custom_then_plugin() {
    let custom = vec![pair("mine", "/c/mine.toml"), pair("broken", "/c/broken.toml")];
    let plugin = vec![pair("neon", "/p/neon.toml"), pair("broken", "/p/broken.toml")];
    let loadable = vec!["/c/mine.toml".to_string(), "/p/neon.toml".to_string(), "/p/broken.toml".to_string()];
    assert_eq!(
        source_name(&load_theme("dracula", &custom, &plugin, &loadable)),
        ("builtin", "dracula".to_string())
    );
    assert_eq!(
        source_name(&load_theme("mine", &custom, &plugin, &loadable)),
        ("custom", "/c/mine.toml".to_string())
    );
    assert_eq!(
        source_name(&load_theme("neon", &custom, &plugin, &loadable)),
        ("plugin", "/p/neon.toml".to_string())
    );
    // A custom name shadows the plugin theme of that name, even when the
    // custom file does not load: the name falls back to zinc.
    assert_eq!(
        source_name(&load_theme("broken", &custom, &plugin, &loadable)),
        ("builtin", "zinc".to_string())
    );
    let (src, palette) = load_theme_with_mode("mine", true, &custom, &plugin, &loadable);
    assert_eq!(source_name(&src), ("custom", "/c/mine.toml".to_string()));
    assert!(palette);
}

#[test]
fn omitted_unread_is_detected_from_the_table() {
    assert!(unread_omitted("background = \"#1a1b26\"\naccent = \"#7aa2f7\"\n"));
    assert!(!unread_omitted("background = \"#1a1b26\"\naccent = \"#7aa2f7\"\nunread = \"#ff0000\"\n"));
    // A file that does not parse omits nothing.
    assert!(!unread_omitted("not valid theme data"));
    // Only a top-level key counts.
    assert!(unread_omitted("[syntax]\nunread = \"#ff0000\"\n"));
}

#[test]
fn unread_verdict_from_the_parsed_table() {
    assert!(boa::themes::unread_omitted_from(Some(false)));
    assert!(!boa::themes::unread_omitted_from(Some(true)));
    assert!(!boa::themes::unread_omitted_from(None));
}

#[test]
fn theme_catalogue_lists_each_name_once() {
    let entries = vec![pair("mine.toml", "/t/mine.toml"), pair("zinc.toml", "/t/zinc.toml"), pair("alt.toml", "/t/alt.toml")];
    let custom = select_custom_themes(&entries);
    let plugin = vec![pair("alt", "/p/alt.toml"), pair("neon", "/p/neon.toml"), pair("neon", "/p/neon2.toml")];
    let all = available_themes(&custom, &plugin);
    let unique: std::collections::HashSet<&String> = all.iter().collect();
    assert_eq!(unique.len(), all.len());
    assert_eq!(&all[..9], &builtin_theme_names()[..]);
    for name in ["empire", "phosphor", "tokyo-night-storm", "catppuccin-latte", "dracula"] {
        assert!(all.iter().any(|n| n == name));
    }
}
