use std::time::Instant;

use kbhero::config::Config;
use kbhero::db::schema::{AppDef, AppFile, PlatformKeys, SemanticActionDef, ShortcutDef};
use kbhero::db::sources::bundled_sources;
use kbhero::db::{normalize_segment, DatabaseError, ShortcutDatabase};
use kbhero::resolver::resolve;
use kbhero::types::{AppIdentity, ElementRole, Platform, RawActivationEvent, ResolutionSource};

// ── Reading the bundled TOML files ───────────────────────────────────────────

fn opt_str(t: &toml::Table, key: &str) -> Option<String> {
    t.get(key).and_then(|v| v.as_str()).map(str::to_string)
}

fn strings(v: &toml::Value) -> Vec<String> {
    v.as_array().unwrap().iter().map(|x| x.as_str().unwrap().to_string()).collect()
}

fn keys(v: &toml::Value) -> Vec<PlatformKeys> {
    v.as_array()
        .unwrap()
        .iter()
        .map(|k| {
            let t = k.as_table().unwrap();
            PlatformKeys {
                linux: opt_str(t, "linux"),
                windows: opt_str(t, "windows"),
                macos: opt_str(t, "macos"),
            }
        })
        .collect()
}

fn parse_file(text: &str) -> Result<AppFile, toml::de::Error> {
    let t: toml::Table = toml::from_str(text)?;
    let app = t.get("app").map(|a| {
        let a = a.as_table().unwrap();
        AppDef {
            id: opt_str(a, "id").unwrap(),
            executables: strings(&a["executables"]),
            title_pattern: opt_str(a, "title_pattern").unwrap_or_default(),
        }
    });
    let shortcuts = t
        .get("shortcuts")
        .map(|v| {
            v.as_array()
                .unwrap()
                .iter()
                .map(|s| {
                    let s = s.as_table().unwrap();
                    ShortcutDef {
                        menu_path: strings(&s["menu_path"]),
                        keys: keys(&s["keys"]),
                        description: opt_str(s, "description").unwrap(),
                        category: opt_str(s, "category").unwrap(),
                    }
                })
                .collect()
        })
        .unwrap_or_default();
    let semantic_actions = t
        .get("semantic_actions")
        .map(|v| {
            v.as_array()
                .unwrap()
                .iter()
                .map(|s| {
                    let s = s.as_table().unwrap();
                    SemanticActionDef {
                        role: opt_str(s, "role").unwrap(),
                        context: opt_str(s, "context"),
                        keys: keys(&s["keys"]),
                        description: opt_str(s, "description").unwrap(),
                        category: opt_str(s, "category").unwrap(),
                    }
                })
                .collect()
        })
        .unwrap_or_default();
    Ok(AppFile {
        schema_version: t["schema_version"].as_integer().unwrap() as u32,
        app,
        shortcuts,
        semantic_actions,
    })
}

fn db() -> ShortcutDatabase {
    let sources = bundled_sources()
        .into_iter()
        .map(|(name, text)| (name, parse_file(text)))
        .collect();
    ShortcutDatabase::build(sources).expect("bundled TOML files must be valid")
}

fn identity(exe: &str) -> AppIdentity {
    AppIdentity { executable: exe.to_string(), window_title: None, pid: 1 }
}

fn path(segments: &[&str]) -> Vec<String> {
    segments.iter().map(|s| s.to_string()).collect()
}

fn event(exe: &str, role: ElementRole, path: &[&str], discovered: Option<&str>) -> RawActivationEvent {
    RawActivationEvent {
        timestamp: Instant::now(),
        app: AppIdentity { executable: exe.to_string(), window_title: None, pid: 1 },
        role,
        label_path: path.iter().map(|s| s.to_string()).collect(),
        discovered_shortcut: discovered.map(str::to_string),
    }
}

// ── build ────────────────────────────────────────────────────────────────────

#[test]
fn builds_without_error() {
    db();
}

// ── global fallback ──────────────────────────────────────────────────────────

#[test]
fn global_edit_copy_linux() {
    let m = db().lookup_menu(&identity("unknown-app"), &path(&["Edit", "Copy"]), Platform::Linux);
    assert!(m.is_some());
    assert_eq!(m.unwrap().shortcut_keys, "Ctrl+C");
}

#[test]
fn global_edit_copy_macos() {
    let m = db().lookup_menu(&identity("unknown-app"), &path(&["Edit", "Copy"]), Platform::MacOS);
    assert_eq!(m.unwrap().shortcut_keys, "⌘C");
}

#[test]
fn global_file_save_windows() {
    let m = db().lookup_menu(&identity("notepad"), &path(&["File", "Save"]), Platform::Windows);
    assert_eq!(m.unwrap().shortcut_keys, "Ctrl+S");
}

// ── app-specific lookups ─────────────────────────────────────────────────────

#[test]
fn firefox_new_private_window() {
    let m = db().lookup_menu(
        &identity("firefox"),
        &path(&["File", "New Private Window"]),
        Platform::Linux,
    );
    assert_eq!(m.unwrap().shortcut_keys, "Ctrl+Shift+P");
}

#[test]
fn chromium_incognito_window() {
    let m = db().lookup_menu(
        &identity("chromium"),
        &path(&["File", "New Incognito Window"]),
        Platform::Linux,
    );
    assert_eq!(m.unwrap().shortcut_keys, "Ctrl+Shift+N");
}

#[test]
fn vscode_command_palette() {
    let m = db().lookup_menu(
        &identity("code"),
        &path(&["View", "Command Palette"]),
        Platform::Linux,
    );
    assert_eq!(m.unwrap().shortcut_keys, "Ctrl+Shift+P");
}

#[test]
fn nautilus_new_folder() {
    let m = db().lookup_menu(
        &identity("nautilus"),
        &path(&["File", "New Folder"]),
        Platform::Linux,
    );
    assert_eq!(m.unwrap().shortcut_keys, "Ctrl+Shift+N");
}

// ── normalization ────────────────────────────────────────────────────────────

#[test]
fn matches_case_insensitive_path() {
    let m = db().lookup_menu(&identity("unknown"), &path(&["EDIT", "COPY"]), Platform::Linux);
    assert!(m.is_some());
}

#[test]
fn strips_trailing_ellipsis() {
    let m = db().lookup_menu(&identity("unknown"), &path(&["File", "Save As…"]), Platform::Linux);
    assert!(m.is_some(), "should match 'Save As' after stripping '…'");
}

#[test]
fn strips_trailing_triple_dot() {
    let m = db().lookup_menu(&identity("unknown"), &path(&["File", "Save As..."]), Platform::Linux);
    assert!(m.is_some(), "should match 'Save As' after stripping '...'");
}

// ── misses ───────────────────────────────────────────────────────────────────

#[test]
fn returns_none_for_unknown_path() {
    let m = db().lookup_menu(&identity("firefox"), &path(&["Edit", "Frobnicate"]), Platform::Linux);
    assert!(m.is_none());
}

// ── semantic actions ─────────────────────────────────────────────────────────

#[test]
fn firefox_tab_semantic_action() {
    let m = db().lookup_semantic(
        &identity("firefox"),
        "tab",
        Some("tab-not-selected"),
        Platform::Linux,
    );
    assert_eq!(m.unwrap().shortcut_keys, "Ctrl+Tab");
}

#[test]
fn semantic_returns_none_for_unknown_role() {
    let m = db().lookup_semantic(&identity("firefox"), "slider", None, Platform::Linux);
    assert!(m.is_none());
}

// ── resolution source ────────────────────────────────────────────────────────

#[test]
fn source_is_database() {
    let m = db().lookup_menu(&identity("unknown"), &path(&["Edit", "Copy"]), Platform::Linux);
    assert_eq!(m.unwrap().source, ResolutionSource::Database);
}

// ── resolver ─────────────────────────────────────────────────────────────────

#[test]
fn tier1_takes_priority_over_database() {
    let d = db();
    let cfg = Config::default();
    let e = event("firefox", ElementRole::MenuItem, &["Edit", "Copy"], Some("Ctrl+C (dynamic)"));
    let m = resolve(&d, &cfg, Platform::Linux, &e).unwrap();
    assert_eq!(m.source, ResolutionSource::Dynamic);
    assert_eq!(m.shortcut_keys, "Ctrl+C (dynamic)");
}

#[test]
fn falls_back_to_database_when_no_discovered_shortcut() {
    let d = db();
    let cfg = Config::default();
    let e = event("firefox", ElementRole::MenuItem, &["Edit", "Copy"], None);
    let m = resolve(&d, &cfg, Platform::Linux, &e).unwrap();
    assert_eq!(m.source, ResolutionSource::Database);
    assert_eq!(m.shortcut_keys, "Ctrl+C");
}

#[test]
fn excluded_app_returns_none() {
    let d = db();
    let mut cfg = Config::default();
    cfg.behavior.excluded_apps = vec!["firefox".into()];
    let e = event("firefox", ElementRole::MenuItem, &["Edit", "Copy"], Some("Ctrl+C"));
    assert!(resolve(&d, &cfg, Platform::Linux, &e).is_none());
}

#[test]
fn paused_returns_none() {
    let d = db();
    let mut cfg = Config::default();
    cfg.behavior.paused = true;
    let e = event("firefox", ElementRole::MenuItem, &["Edit", "Copy"], Some("Ctrl+C"));
    assert!(resolve(&d, &cfg, Platform::Linux, &e).is_none());
}

#[test]
fn semantic_element_resolves() {
    let d = db();
    let cfg = Config::default();
    let e = event(
        "firefox",
        ElementRole::SemanticElement {
            role: "tab".into(),
            context: Some("tab-not-selected".into()),
        },
        &[],
        None,
    );
    let m = resolve(&d, &cfg, Platform::Linux, &e).unwrap();
    assert_eq!(m.shortcut_keys, "Ctrl+Tab");
}

// ── further scenarios ────────────────────────────────────────────────────────

#[test]
fn app_entry_wins_over_global() {
    // Firefox's own "File › New Window" and the global "File › New" coexist;
    // the app-specific table is consulted first.
    let m = db()
        .lookup_menu(&identity("Firefox"), &path(&["File", "New Window"]), Platform::Linux)
        .unwrap();
    assert_eq!(m.shortcut_keys, "Ctrl+N");
    assert_eq!(m.description, "Open a new browser window");
    assert_eq!(m.action_name, "New Window");
    assert_eq!(m.menu_path, "File › New Window");
}

#[test]
fn app_without_own_entry_gets_global_one() {
    let m = db().lookup_menu(&identity("firefox"), &path(&["Edit", "Undo"]), Platform::MacOS).unwrap();
    assert_eq!(m.shortcut_keys, "⌘Z");
}

#[test]
fn platform_without_keys_has_no_entry() {
    let m = db().lookup_menu(&identity("nautilus"), &path(&["File", "New Folder"]), Platform::Windows);
    assert!(m.is_none());
}

#[test]
fn semantic_match_uses_role_and_no_path() {
    let m = db()
        .lookup_semantic(&identity("firefox"), "button", Some("navigation-back"), Platform::MacOS)
        .unwrap();
    assert_eq!(m.shortcut_keys, "⌘[");
    assert_eq!(m.action_name, "button");
    assert_eq!(m.menu_path, "");
    assert_eq!(m.source, ResolutionSource::Database);
}

#[test]
fn semantic_context_must_match() {
    let m = db().lookup_semantic(&identity("firefox"), "tab", None, Platform::Linux);
    assert!(m.is_none());
}

#[test]
fn tier1_normalizes_and_builds_path() {
    let d = db();
    let cfg = Config::default();
    let e = event("gedit", ElementRole::ToolbarButton, &["File", "Save"], Some("control+shift+S"));
    let m = resolve(&d, &cfg, Platform::Linux, &e).unwrap();
    assert_eq!(m.shortcut_keys, "Ctrl+Shift+S");
    assert_eq!(m.action_name, "Save");
    assert_eq!(m.description, "");
    assert_eq!(m.menu_path, "File › Save");
    assert_eq!(m.source, ResolutionSource::Dynamic);
}

#[test]
fn tier1_without_label_uses_reverse_index() {
    let d = db();
    let cfg = Config::default();
    let e = event("nautilus", ElementRole::MenuItem, &[], Some("Control+Shift+N"));
    let m = resolve(&d, &cfg, Platform::Linux, &e).unwrap();
    assert_eq!(m.shortcut_keys, "Ctrl+Shift+N");
    assert_eq!(m.action_name, "New Folder");
    assert_eq!(m.description, "Create a new folder");
    assert_eq!(m.menu_path, "File › New Folder");
    assert_eq!(m.source, ResolutionSource::Dynamic);
}

#[test]
fn tier1_without_label_and_unknown_keys() {
    let d = db();
    let cfg = Config::default();
    let e = event("nautilus", ElementRole::ContextMenuItem, &[], Some("Super+F12"));
    let m = resolve(&d, &cfg, Platform::Linux, &e).unwrap();
    assert_eq!(m.shortcut_keys, "Super+F12");
    assert_eq!(m.action_name, "");
    assert_eq!(m.menu_path, "");
}

#[test]
fn excluded_app_matching_ignores_ascii_case() {
    let d = db();
    let mut cfg = Config::default();
    cfg.behavior.excluded_apps = vec!["FireFox".into()];
    let e = event("firefox", ElementRole::MenuItem, &["Edit", "Copy"], None);
    assert!(resolve(&d, &cfg, Platform::Linux, &e).is_none());
}

#[test]
fn normalize_segment_trims_strips_and_lowercases() {
    assert_eq!(normalize_segment("  Save As…  "), "save as");
    assert_eq!(normalize_segment("Save As ... "), "save as");
    assert_eq!(normalize_segment("Export......"), "export");
    assert_eq!(normalize_segment("ÉDITER"), "éditer");
}

#[test]
fn build_reports_empty_keys() {
    let bad = AppFile {
        schema_version: 1,
        app: None,
        shortcuts: vec![ShortcutDef {
            menu_path: vec!["Edit".into()],
            keys: vec![],
            description: String::new(),
            category: String::new(),
        }],
        semantic_actions: vec![],
    };
    let r = ShortcutDatabase::build(vec![("broken", Ok(bad))]);
    assert!(matches!(r, Err(DatabaseError::EmptyKeys { file: "broken" })));
}

#[test]
fn build_reports_first_failing_source() {
    let parse_err = toml::from_str::<toml::Table>("= nonsense").unwrap_err();
    let bad = AppFile {
        schema_version: 1,
        app: None,
        shortcuts: vec![],
        semantic_actions: vec![SemanticActionDef {
            role: "tab".into(),
            context: None,
            keys: vec![],
            description: String::new(),
            category: String::new(),
        }],
    };
    let r = ShortcutDatabase::build(vec![("first", Err(parse_err)), ("second", Ok(bad))]);
    assert!(matches!(r, Err(DatabaseError::ParseError { file: "first", .. })));
}

#[test]
fn later_entry_for_same_key_overwrites() {
    let mk = |keys: &str| ShortcutDef {
        menu_path: vec!["Edit".into(), "Copy".into()],
        keys: vec![PlatformKeys { linux: Some(keys.into()), windows: None, macos: None }],
        description: keys.into(),
        category: String::new(),
    };
    let f = AppFile { schema_version: 1, app: None, shortcuts: vec![mk("A"), mk("B")], semantic_actions: vec![] };
    let d = ShortcutDatabase::build(vec![("g", Ok(f))]).unwrap();
    let m = d.lookup_menu(&identity("x"), &path(&["edit", "copy"]), Platform::Linux).unwrap();
    assert_eq!(m.shortcut_keys, "B");
}

#[test]
fn invalid_title_pattern_keeps_entries_unreachable() {
    let f = AppFile {
        schema_version: 1,
        app: Some(AppDef { id: "x".into(), executables: vec!["xapp".into()], title_pattern: "(".into() }),
        shortcuts: vec![ShortcutDef {
            menu_path: vec!["Tools".into(), "Magic".into()],
            keys: vec![PlatformKeys { linux: Some("Ctrl+M".into()), windows: None, macos: None }],
            description: String::new(),
            category: String::new(),
        }],
        semantic_actions: vec![],
    };
    let d = ShortcutDatabase::build(vec![("x", Ok(f))]).unwrap();
    assert!(d.lookup_menu(&identity("xapp"), &path(&["Tools", "Magic"]), Platform::Linux).is_none());
}

#[test]
fn normalize_segment_ignores_ascii_case() {
    for s in ["Save As...", "  new FOLDER… ", "Zoom In"] {
        let n = normalize_segment(s);
        assert_eq!(normalize_segment(&s.to_ascii_uppercase()), n);
        assert_eq!(normalize_segment(&s.to_ascii_lowercase()), n);
        assert!(!n.chars().any(|c| c.is_ascii_uppercase()));
    }
}

#[test]
fn menu_lookup_ignores_ascii_case() {
    let d = db();
    let a = d.lookup_menu(&identity("unknown"), &path(&["edit", "copy"]), Platform::Linux);
    let b = d.lookup_menu(&identity("unknown"), &path(&["Edit", "Copy"]), Platform::Linux);
    let c = d.lookup_menu(&identity("unknown"), &path(&["eDiT", "cOpY"]), Platform::Linux);
    let key = |m: Option<kbhero::types::ShortcutMatch>| {
        m.map(|m| (m.shortcut_keys, m.action_name, m.description, m.menu_path))
    };
    let (a, b, c) = (key(a), key(b), key(c));
    assert!(a.is_some());
    assert_eq!(a, b);
    assert_eq!(b, c);
}
