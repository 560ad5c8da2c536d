use kbhero::config::Config;

#[test]
fn defaults_are_valid() {
    let mut cfg = Config::default();
    cfg.validate();
    assert_eq!(cfg.display.callout_duration_ms, 3000);
    assert_eq!(cfg.display.font_size_pt, 13);
    assert!(!cfg.behavior.paused);
    assert!(cfg.behavior.excluded_apps.is_empty());
    assert!(cfg.autostart.enabled);
}

#[test]
fn clamps_duration_below_minimum() {
    let mut cfg = Config::default();
    cfg.display.callout_duration_ms = 0;
    cfg.validate();
    assert_eq!(cfg.display.callout_duration_ms, 1000);
}

#[test]
fn clamps_duration_above_maximum() {
    let mut cfg = Config::default();
    cfg.display.callout_duration_ms = 99_999;
    cfg.validate();
    assert_eq!(cfg.display.callout_duration_ms, 10_000);
}

#[test]
fn clamps_font_size_below_minimum() {
    let mut cfg = Config::default();
    cfg.display.font_size_pt = 1;
    cfg.validate();
    assert_eq!(cfg.display.font_size_pt, 10);
}

#[test]
fn clamps_font_size_above_maximum() {
    let mut cfg = Config::default();
    cfg.display.font_size_pt = 255;
    cfg.validate();
    assert_eq!(cfg.display.font_size_pt, 24);
}

#[test]
fn validate_keeps_values_in_range_and_other_fields() {
    let mut cfg = Config::default();
    cfg.display.callout_duration_ms = 5000;
    cfg.display.font_size_pt = 16;
    cfg.behavior.paused = true;
    cfg.behavior.excluded_apps = vec!["blender".to_string()];
    cfg.autostart.enabled = false;
    cfg.validate();
    assert_eq!(cfg.display.callout_duration_ms, 5000);
    assert_eq!(cfg.display.font_size_pt, 16);
    assert!(cfg.behavior.paused);
    assert_eq!(cfg.behavior.excluded_apps, ["blender"]);
    assert!(!cfg.autostart.enabled);
}

#[test]
fn validate_is_idempotent() {
    let mut cfg = Config::default();
    cfg.display.callout_duration_ms = 12;
    cfg.display.font_size_pt = 200;
    cfg.validate();
    let (d, f) = (cfg.display.callout_duration_ms, cfg.display.font_size_pt);
    cfg.validate();
    assert_eq!((cfg.display.callout_duration_ms, cfg.display.font_size_pt), (d, f));
    assert_eq!((d, f), (1000, 24));
}

#[test]
fn clamps_range_bounds_are_kept() {
    let mut cfg = Config::default();
    cfg.display.callout_duration_ms = 1000;
    cfg.display.font_size_pt = 24;
    cfg.validate();
    assert_eq!(cfg.display.callout_duration_ms, 1000);
    assert_eq!(cfg.display.font_size_pt, 24);
    cfg.display.callout_duration_ms = 10_000;
    cfg.display.font_size_pt = 10;
    cfg.validate();
    assert_eq!(cfg.display.callout_duration_ms, 10_000);
    assert_eq!(cfg.display.font_size_pt, 10);
}
