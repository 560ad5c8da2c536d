use kbhero::db::matcher::AppMatcher;
use kbhero::db::AppId;
use kbhero::types::AppIdentity;

fn identity(exe: &str, title: Option<&str>) -> AppIdentity {
    AppIdentity {
        executable: exe.to_string(),
        window_title: title.map(str::to_string),
        pid: 1234,
    }
}

#[test]
fn resolves_exact_executable() {
    let mut m = AppMatcher::new();
    m.add(AppId(1), vec!["firefox".into()], None).unwrap();
    assert_eq!(m.resolve(&identity("firefox", None)), Some(AppId(1)));
}

#[test]
fn resolves_case_insensitive() {
    let mut m = AppMatcher::new();
    m.add(AppId(1), vec!["Firefox".into()], None).unwrap();
    assert_eq!(m.resolve(&identity("firefox", None)), Some(AppId(1)));
}

#[test]
fn resolves_alternate_executable_name() {
    let mut m = AppMatcher::new();
    m.add(AppId(1), vec!["firefox".into(), "firefox-esr".into()], None).unwrap();
    assert_eq!(m.resolve(&identity("firefox-esr", None)), Some(AppId(1)));
}

#[test]
fn returns_none_for_unknown_app() {
    let m = AppMatcher::new();
    assert_eq!(m.resolve(&identity("unknown-app", None)), None);
}

#[test]
fn title_pattern_must_match() {
    let mut m = AppMatcher::new();
    m.add(AppId(1), vec!["code".into()], Some(".*\\.rs")).unwrap();
    assert_eq!(m.resolve(&identity("code", Some("main.rs — project"))), Some(AppId(1)));
    assert_eq!(m.resolve(&identity("code", Some("index.ts — project"))), None);
}

#[test]
fn title_pattern_without_window_title_does_not_match() {
    let mut m = AppMatcher::new();
    m.add(AppId(1), vec!["code".into()], Some(".*\\.rs")).unwrap();
    assert_eq!(m.resolve(&identity("code", None)), None);
}

#[test]
fn no_title_pattern_matches_any_title() {
    let mut m = AppMatcher::new();
    m.add(AppId(1), vec!["code".into()], None).unwrap();
    assert_eq!(m.resolve(&identity("code", Some("anything"))), Some(AppId(1)));
    assert_eq!(m.resolve(&identity("code", None)), Some(AppId(1)));
}

#[test]
fn first_matching_entry_wins() {
    let mut m = AppMatcher::new();
    m.add(AppId(1), vec!["code".into()], Some("project-a")).unwrap();
    m.add(AppId(2), vec!["code".into()], None).unwrap();
    assert_eq!(m.resolve(&identity("code", Some("project-a"))), Some(AppId(1)));
    assert_eq!(m.resolve(&identity("code", Some("project-b"))), Some(AppId(2)));
}

#[test]
fn invalid_title_pattern_is_refused_and_not_registered() {
    let mut m = AppMatcher::new();
    assert!(m.add(AppId(1), vec!["code".into()], Some("foo(bar")).is_err());
    assert_eq!(m.resolve(&identity("code", Some("foo(bar"))), None);
}

#[test]
fn empty_title_pattern_matches_any_title() {
    let mut m = AppMatcher::new();
    m.add(AppId(3), vec!["code".into()], Some("")).unwrap();
    assert_eq!(m.resolve(&identity("code", None)), Some(AppId(3)));
}

#[test]
fn pattern_matches_anywhere_in_title() {
    let mut m = AppMatcher::new();
    m.add(AppId(4), vec!["code".into()], Some("proj")).unwrap();
    assert_eq!(m.resolve(&identity("code", Some("my-project"))), Some(AppId(4)));
}

#[test]
fn executable_case_folding_is_ascii_only() {
    let mut m = AppMatcher::new();
    m.add(AppId(5), vec!["ÉDIT".into()], None).unwrap();
    assert_eq!(m.resolve(&identity("édit", None)), None);
    assert_eq!(m.resolve(&identity("ÉdIT", None)), Some(AppId(5)));
}
