use kbhero::linux::{
    app_identity_from_name, child_label, ends_menu_path, is_activation, is_menu_item_role,
    parse_key_binding, parse_primary_shortcut, AccessibleRole, AccessibleState, LinuxDetectionEngine,
    MenuPathWalk, ParentInfo, plan_item, ItemPlan, shortcut_source, subtree_child_limit, subtree_step,
    ShortcutSource, SubtreeStep, SUBTREE_CHILDREN, SUBTREE_DEPTH,
};
use kbhero::overlay::{
    bottom_center_coords, callout_layout, keycap_row, placement_in_range, KeycapItem, MonitorRect, OverlayAction,
    OverlayEvent, OverlayState, Positioner,
};
use kbhero::resolver::normalize_shortcut;
use kbhero::types::{Platform, ResolutionSource, ShortcutMatch};

#[test]
fn normalizes_glib_key_names() {
    assert_eq!(normalize_shortcut("Control+N"), "Ctrl+N");
    assert_eq!(normalize_shortcut("shift+alt+F4"), "Shift+Alt+F4");
    assert_eq!(normalize_shortcut("Meta+Return"), "Super+Enter");
    assert_eq!(normalize_shortcut("control + Page_Down"), "Ctrl+PgDn");
    assert_eq!(normalize_shortcut("Escape"), "Esc");
    assert_eq!(normalize_shortcut("Delete+BackSpace+space+Tab"), "Del+Backspace+Space+Tab");
    assert_eq!(normalize_shortcut("Up+Down+Left+Right"), "↑+↓+←+→");
    assert_eq!(normalize_shortcut("KP_Enter+Home+End+Page_Up"), "Enter+Home+End+PgUp");
    assert_eq!(normalize_shortcut("win+super"), "Super+Super");
}

#[test]
fn normalize_shortcut_keeps_unknown_names_and_empty_pieces() {
    assert_eq!(normalize_shortcut("Ctrl+C (dynamic)"), "Ctrl+C (dynamic)");
    assert_eq!(normalize_shortcut(""), "");
    assert_eq!(normalize_shortcut("Control++"), "Ctrl++");
    assert_eq!(normalize_shortcut("CONTROL+x"), "CONTROL+x");
}

#[test]
fn normalize_shortcut_is_idempotent_on_examples() {
    for raw in ["Control+N", "shift + alt + F4", " Return ", "a+b+c", "Page_Up+control"] {
        let once = normalize_shortcut(raw);
        assert_eq!(normalize_shortcut(&once), once);
    }
}

#[test]
fn platform_from_target_os() {
    assert_eq!(Platform::current("linux"), Platform::Linux);
    assert_eq!(Platform::current("windows"), Platform::Windows);
    assert_eq!(Platform::current("macos"), Platform::MacOS);
    assert!(Platform::is_supported_os("linux"));
    assert!(!Platform::is_supported_os("freebsd"));
}

#[test]
fn primary_shortcut_is_first_alternative() {
    assert_eq!(parse_primary_shortcut("Control+N Alt+n"), Some("Control+N".to_string()));
    assert_eq!(parse_primary_shortcut("  F5"), Some("F5".to_string()));
    assert_eq!(parse_primary_shortcut("   "), None);
    assert_eq!(parse_primary_shortcut(""), None);
}

#[test]
fn key_binding_third_field() {
    assert_eq!(parse_key_binding("n;<Alt>f:n;<Control>n"), Some("<Control>n".to_string()));
    assert_eq!(parse_key_binding("n;;"), None);
    assert_eq!(parse_key_binding("n;x"), None);
    assert_eq!(parse_key_binding("a;b;c;d"), Some("c".to_string()));
}

#[test]
fn roles_and_states() {
    assert!(is_menu_item_role(AccessibleRole::CheckMenuItem));
    assert!(!is_menu_item_role(AccessibleRole::Other));
    assert!(ends_menu_path(AccessibleRole::MenuBar));
    assert!(!ends_menu_path(AccessibleRole::MenuItem));
    assert!(is_activation(AccessibleState::Focused, true));
    assert!(!is_activation(AccessibleState::Selected, false));
    assert!(!is_activation(AccessibleState::Other, true));
    let _engine = LinuxDetectionEngine::new();
}

#[test]
fn labels_and_identity() {
    assert_eq!(child_label("", "Quit"), Some("Quit".to_string()));
    assert_eq!(child_label("Open", "Quit"), Some("Open".to_string()));
    assert_eq!(child_label("", ""), None);
    let a = app_identity_from_name("Firefox");
    assert_eq!(a.executable, "firefox");
    assert_eq!(a.window_title, None);
}

#[test]
fn menu_path_walk_collects_ancestors() {
    let mut w = MenuPathWalk::new("Copy".to_string());
    assert!(w.wants_parent());
    w.visit(Some(ParentInfo { role: AccessibleRole::Other, name: Some("Edit".into()) }));
    assert!(w.wants_parent());
    w.visit(Some(ParentInfo { role: AccessibleRole::Other, name: Some(String::new()) }));
    w.visit(Some(ParentInfo { role: AccessibleRole::MenuBar, name: Some("Bar".into()) }));
    assert!(!w.wants_parent());
    assert_eq!(w.into_path(), vec!["Edit".to_string(), "Copy".to_string()]);
}

#[test]
fn menu_path_walk_is_bounded() {
    let mut w = MenuPathWalk::new("Leaf".to_string());
    let mut visits = 0;
    while w.wants_parent() {
        w.visit(Some(ParentInfo { role: AccessibleRole::Other, name: Some(format!("L{visits}")) }));
        visits += 1;
    }
    assert_eq!(visits, 6);
    assert_eq!(w.into_path().len(), 7);
}

#[test]
fn menu_path_walk_stops_on_unreadable_parent() {
    let mut w = MenuPathWalk::new("Leaf".to_string());
    w.visit(None);
    assert!(!w.wants_parent());
    assert_eq!(w.into_path(), vec!["Leaf".to_string()]);
}

#[test]
fn positioner_detection() {
    assert_eq!(Positioner::detect("GdkX11Display"), Positioner::X11);
    assert_eq!(Positioner::detect("GdkWaylandDisplay"), Positioner::Unpositioned);
    assert_eq!(Positioner::detect("none"), Positioner::Unpositioned);
}

#[test]
fn keycaps_split_on_plus() {
    let row = keycap_row("Ctrl+Shift+Z");
    assert_eq!(
        row,
        vec![
            KeycapItem::Key("Ctrl".into()),
            KeycapItem::Separator,
            KeycapItem::Key("Shift".into()),
            KeycapItem::Separator,
            KeycapItem::Key("Z".into()),
        ]
    );
    assert_eq!(keycap_row("+A"), vec![KeycapItem::Key("A".into())]);
    assert_eq!(keycap_row("Ctrl++A"), vec![
        KeycapItem::Key("Ctrl".into()),
        KeycapItem::Separator,
        KeycapItem::Key("A".into()),
    ]);
    assert_eq!(keycap_row("A+"), vec![KeycapItem::Key("A".into())]);
    assert_eq!(keycap_row(" F2 "), vec![KeycapItem::Key("F2".into())]);
    assert_eq!(keycap_row(""), vec![]);
}

#[test]
fn callout_layout_shows_what_is_there() {
    let m = ShortcutMatch {
        shortcut_keys: "Ctrl+C".into(),
        action_name: "Copy".into(),
        description: "Copy selection".into(),
        menu_path: "Edit › Copy".into(),
        source: ResolutionSource::Database,
    };
    let l = callout_layout(&m);
    assert_eq!(l.action, Some("Copy".to_string()));
    assert_eq!(l.path, Some("Edit › Copy".to_string()));
    assert_eq!(l.keys.len(), 3);
    let m2 = ShortcutMatch {
        shortcut_keys: "Ctrl+Tab".into(),
        action_name: String::new(),
        description: String::new(),
        menu_path: "Copy".into(),
        source: ResolutionSource::Dynamic,
    };
    let l2 = callout_layout(&m2);
    assert_eq!(l2.action, None);
    assert_eq!(l2.path, None);
}

#[test]
fn bottom_center_placement() {
    let g = MonitorRect { x: 0, y: 0, width: 1920, height: 1080 };
    assert_eq!(bottom_center_coords(300, 80, Some(g)), (810, 952));
    assert_eq!(bottom_center_coords(100, 10, Some(g)), (860, 972));
    assert_eq!(bottom_center_coords(300, 80, None), (810, 952));
    let narrow = MonitorRect { x: 10, y: 0, width: 197, height: 100 };
    assert_eq!(bottom_center_coords(200, 60, Some(narrow)), (9, -8));
}

#[test]
fn overlay_replaces_without_queuing() {
    let mut s = OverlayState::new();
    let a = s.step(OverlayEvent::Callout { window: 1, duration_ms: 3000 });
    assert_eq!(a, vec![OverlayAction::Present(1), OverlayAction::ScheduleDismiss { window: 1, after_ms: 3000 }]);
    let a = s.step(OverlayEvent::Callout { window: 2, duration_ms: 2000 });
    assert_eq!(
        a,
        vec![
            OverlayAction::Close(1),
            OverlayAction::Present(2),
            OverlayAction::ScheduleDismiss { window: 2, after_ms: 2000 },
        ]
    );
    assert_eq!(s.active, Some(2));
    // The stale timer of the replaced window leaves the newer callout shown.
    let a = s.step(OverlayEvent::DismissTimer { window: 1 });
    assert_eq!(a, vec![OverlayAction::Close(1)]);
    assert_eq!(s.active, Some(2));
    // So the next callout closes window 2 before it is presented.
    let a = s.step(OverlayEvent::Callout { window: 3, duration_ms: 1000 });
    assert_eq!(
        a,
        vec![
            OverlayAction::Close(2),
            OverlayAction::Present(3),
            OverlayAction::ScheduleDismiss { window: 3, after_ms: 1000 },
        ]
    );
    let a = s.step(OverlayEvent::DismissTimer { window: 3 });
    assert_eq!(a, vec![OverlayAction::Close(3)]);
    assert_eq!(s.active, None);
    assert_eq!(s.step(OverlayEvent::Disconnected), vec![OverlayAction::Stop]);
}

#[test]
fn placement_range_check() {
    let g = MonitorRect { x: 0, y: 0, width: 1920, height: 1080 };
    assert!(placement_in_range(300, 80, Some(g)));
    assert!(placement_in_range(300, 80, None));
    let far = MonitorRect { x: i32::MAX - 10, y: 0, width: 1920, height: 1080 };
    assert!(!placement_in_range(300, 80, Some(far)));
    let low = MonitorRect { x: 0, y: i32::MIN, width: 1920, height: 10 };
    assert!(!placement_in_range(300, 80, Some(low)));
}

#[test]
fn item_plans() {
    assert_eq!(plan_item("Copy", &None), ItemPlan::Named);
    assert_eq!(plan_item("", &Some("Control+C".into())), ItemPlan::Unnamed);
    assert_eq!(plan_item("", &None), ItemPlan::Drop);
}

#[test]
fn shortcut_source_prefers_attributes() {
    assert_eq!(
        shortcut_source(Some("Ctrl+S".to_string())),
        ShortcutSource::Attributes("Ctrl+S".to_string())
    );
    assert_eq!(shortcut_source(None), ShortcutSource::KeyBinding);
}

#[test]
fn subtree_search_limits() {
    assert_eq!(SUBTREE_DEPTH, 3);
    assert_eq!(SUBTREE_CHILDREN, 8);
    assert_eq!(subtree_child_limit(3, 20), 8);
    assert_eq!(subtree_child_limit(3, 5), 5);
    assert_eq!(subtree_child_limit(3, -1), 0);
    assert_eq!(subtree_child_limit(0, 5), 0);
}

#[test]
fn subtree_search_steps() {
    assert_eq!(subtree_step(3, "Open", "desc", None), SubtreeStep::Found("Open".to_string()));
    assert_eq!(subtree_step(3, "", "desc", None), SubtreeStep::Found("desc".to_string()));
    assert_eq!(subtree_step(3, "", "", None), SubtreeStep::ReadText);
    assert_eq!(subtree_step(3, "", "", Some("Save")), SubtreeStep::Found("Save".to_string()));
    assert_eq!(subtree_step(3, "", "", Some("")), SubtreeStep::Descend { depth: 2 });
    assert_eq!(subtree_step(1, "", "", Some("")), SubtreeStep::Next);
    assert_eq!(subtree_step(0, "Open", "", None), SubtreeStep::Next);
}

#[test]
fn normalize_shortcut_splits_on_plus() {
    let a = "control+shift";
    let b = "Page_Up";
    let joined = normalize_shortcut(&format!("{a}+{b}"));
    assert_eq!(joined, format!("{}+{}", normalize_shortcut(a), normalize_shortcut(b)));
    assert_eq!(joined, "Ctrl+Shift+PgUp");
    assert_eq!(normalize_shortcut("a++b").split('+').count(), 3);
    assert_eq!(normalize_shortcut(" + ").split('+').count(), 2);
}

#[test]
fn keycaps_ignore_leading_plus() {
    assert_eq!(keycap_row("+C"), vec![KeycapItem::Key("C".into())]);
    assert_eq!(keycap_row("+"), vec![]);
}
