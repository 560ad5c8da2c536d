//! The shortcut resolver: turns an activation event into the shortcut to
//! show, from the shortcut the application advertised (Tier 1) or from the
//! shortcut database (Tier 2).

use vstd::prelude::*;
use crate::config::Config;
use crate::db::{
    action_name_of, lookup_by_shortcut_spec, lookup_menu_spec, lookup_semantic_spec, DbView,
    ShortcutDatabase,
};
use crate::types::{
    opt_match_view, opt_view, ElementRole, MatchView, Platform, RawActivationEvent,
    ResolutionSource, ShortcutMatch,
};
use crate::text::{
    chars_eq_str, is_ws, lacks, lemma_join_concat, lemma_split_concat, lemma_split_join,
    lemma_split_pieces, lemma_trim_idempotent,
    lemma_trim_lacks, lemma_trim_of_unpadded, eq_ignore_ascii_case, join_strings, str_eq_ignore_ascii_case,
    string_views, chars_of, join, join_chars, split, split_chars, string_of, sub_chars, trim, trim_chars, views};

verus! {

// ── Shortcut normalization ───────────────────────────────────────────────────

/// Display form of one key name of an accessibility shortcut string: GLib
/// and ARIA names of modifiers and special keys are mapped to the names the
/// callout shows; every other key name is kept as it is.
pub open spec fn display_key(t: Seq<char>) -> Seq<char> {
    if t == "Control"@ || t == "control"@ {
        "Ctrl"@
    } else if t == "Shift"@ || t == "shift"@ {
        "Shift"@
    } else if t == "Alt"@ || t == "alt"@ {
        "Alt"@
    } else if t == "Super"@ || t == "super"@ || t == "Meta"@ || t == "meta"@ || t == "Win"@
        || t == "win"@ {
        "Super"@
    } else if t == "Return"@ || t == "KP_Enter"@ {
        "Enter"@
    } else if t == "Escape"@ {
        "Esc"@
    } else if t == "Delete"@ {
        "Del"@
    } else if t == "BackSpace"@ || t == "Backspace"@ {
        "Backspace"@
    } else if t == "Tab"@ {
        "Tab"@
    } else if t == "space"@ {
        "Space"@
    } else if t == "Up"@ {
        "↑"@
    } else if t == "Down"@ {
        "↓"@
    } else if t == "Left"@ {
        "←"@
    } else if t == "Right"@ {
        "→"@
    } else if t == "Home"@ {
        "Home"@
    } else if t == "End"@ {
        "End"@
    } else if t == "Page_Up"@ {
        "PgUp"@
    } else if t == "Page_Down"@ {
        "PgDn"@
    } else {
        t
    }
}

/// The display form of an accessibility shortcut string: the `+`-separated
/// key names, each trimmed and mapped by `display_key`, joined again by `+`.
pub open spec fn normalize_shortcut_spec(raw: Seq<char>) -> Seq<char> {
    join(split(raw, '+').map_values(|p: Seq<char>| display_key(trim(p))), seq!['+'])
}

/// The names `display_key` gives.
pub open spec fn is_display_name(o: Seq<char>) -> bool {
    o == "Ctrl"@ || o == "Shift"@ || o == "Alt"@ || o == "Super"@ || o == "Enter"@ || o == "Esc"@ || o == "Del"@ || o == "Backspace"@ || o == "Tab"@ || o == "Space"@ || o == "↑"@ || o == "↓"@ || o == "←"@ || o == "→"@ || o == "Home"@ || o == "End"@ || o == "PgUp"@ || o == "PgDn"@
}

/// Every name `display_key` gives is a fixed point of it, carries no
/// whitespace at its ends and holds no `+`.
proof fn lemma_display_names(o: Seq<char>)
    requires
        is_display_name(o),
    ensures
        display_key(o) == o,
        trim(o) == o,
        lacks(o, '+'),
{
    reveal_strlit("+");
    reveal_strlit("Alt");
    reveal_strlit("BackSpace");
    reveal_strlit("Backspace");
    reveal_strlit("Control");
    reveal_strlit("Ctrl");
    reveal_strlit("Del");
    reveal_strlit("Delete");
    reveal_strlit("Down");
    reveal_strlit("End");
    reveal_strlit("Enter");
    reveal_strlit("Esc");
    reveal_strlit("Escape");
    reveal_strlit("Home");
    reveal_strlit("KP_Enter");
    reveal_strlit("Left");
    reveal_strlit("Meta");
    reveal_strlit("Page_Down");
    reveal_strlit("Page_Up");
    reveal_strlit("PgDn");
    reveal_strlit("PgUp");
    reveal_strlit("Return");
    reveal_strlit("Right");
    reveal_strlit("Shift");
    reveal_strlit("Space");
    reveal_strlit("Super");
    reveal_strlit("Tab");
    reveal_strlit("Up");
    reveal_strlit("Win");
    reveal_strlit("alt");
    reveal_strlit("control");
    reveal_strlit("meta");
    reveal_strlit("shift");
    reveal_strlit("space");
    reveal_strlit("super");
    reveal_strlit("win");
    reveal_strlit("←");
    reveal_strlit("↑");
    reveal_strlit("→");
    reveal_strlit("↓");
    assert(o.len() > 0 && !is_ws(o[0]) && !is_ws(o.last()));
    lemma_trim_of_unpadded(o);
}

/// `display_key` either keeps a name or gives a display name.
proof fn lemma_display_key_cases(t: Seq<char>)
    ensures
        display_key(t) == t || is_display_name(display_key(t)),
{
}

/// Normalizing a normalized key name changes nothing, and the normalized
/// name of a piece without `+` holds no `+`.
proof fn lemma_key_stable(p: Seq<char>)
    requires
        lacks(p, '+'),
    ensures
        display_key(trim(display_key(trim(p)))) == display_key(trim(p)),
        lacks(display_key(trim(p)), '+'),
{
    let u = trim(p);
    lemma_trim_lacks(p, '+');
    lemma_display_key_cases(u);
    if display_key(u) == u {
        lemma_trim_idempotent(p);
    } else {
        lemma_display_names(display_key(u));
    }
}

/// Normalizing a shortcut string that is already in display form leaves it
/// unchanged.
pub proof fn lemma_normalize_shortcut_idempotent(raw: Seq<char>)
    ensures
        normalize_shortcut_spec(normalize_shortcut_spec(raw)) == normalize_shortcut_spec(raw),
{
    let f = |p: Seq<char>| display_key(trim(p));
    let ps = split(raw, '+');
    lemma_split_pieces(raw, '+');
    let qs = ps.map_values(f);
    assert forall|k: int| 0 <= k < qs.len() implies lacks(#[trigger] qs[k], '+')
        && f(qs[k]) == qs[k] by {
        assert(lacks(ps[k], '+'));
        lemma_key_stable(ps[k]);
    }
    lemma_split_join(qs, '+');
    assert(qs.map_values(f) =~= qs);
}

/// Normalizing a shortcut string normalizes each side of a `+`:
/// `a + "+" + b` normalizes to the normalized `a`, `+`, the normalized `b`.
pub proof fn lemma_normalize_shortcut_concat(a: Seq<char>, b: Seq<char>)
    ensures
        normalize_shortcut_spec(a + seq!['+'] + b) == normalize_shortcut_spec(a) + seq!['+']
            + normalize_shortcut_spec(b),
{
    let f = |p: Seq<char>| display_key(trim(p));
    lemma_split_concat(a, b, '+');
    let pa = split(a, '+');
    let pb = split(b, '+');
    lemma_split_pieces(a, '+');
    lemma_split_pieces(b, '+');
    assert((pa + pb).map_values(f) =~= pa.map_values(f) + pb.map_values(f));
    lemma_join_concat(pa.map_values(f), pb.map_values(f), seq!['+']);
}

/// The `+`-separated pieces of a normalized shortcut string are the
/// normalized pieces of the original, so there are as many.
pub proof fn lemma_normalize_shortcut_pieces(raw: Seq<char>)
    ensures
        split(normalize_shortcut_spec(raw), '+') == split(raw, '+').map_values(
            |p: Seq<char>| display_key(trim(p)),
        ),
        split(normalize_shortcut_spec(raw), '+').len() == split(raw, '+').len(),
{
    let f = |p: Seq<char>| display_key(trim(p));
    let ps = split(raw, '+');
    lemma_split_pieces(raw, '+');
    let qs = ps.map_values(f);
    assert forall|k: int| 0 <= k < qs.len() implies lacks(#[trigger] qs[k], '+') by {
        assert(lacks(ps[k], '+'));
        lemma_key_stable(ps[k]);
    }
    lemma_split_join(qs, '+');
}

/// Display form of one trimmed key name.
fn display_key_chars(t: &Vec<char>) -> (r: Vec<char>)
    ensures
        r@ == display_key(t@),
{
    if chars_eq_str(t, "Control") || chars_eq_str(t, "control") {
        chars_of("Ctrl")
    } else if chars_eq_str(t, "Shift") || chars_eq_str(t, "shift") {
        chars_of("Shift")
    } else if chars_eq_str(t, "Alt") || chars_eq_str(t, "alt") {
        chars_of("Alt")
    } else if chars_eq_str(t, "Super") || chars_eq_str(t, "super") || chars_eq_str(t, "Meta")
        || chars_eq_str(t, "meta") || chars_eq_str(t, "Win") || chars_eq_str(t, "win") {
        chars_of("Super")
    } else if chars_eq_str(t, "Return") || chars_eq_str(t, "KP_Enter") {
        chars_of("Enter")
    } else if chars_eq_str(t, "Escape") {
        chars_of("Esc")
    } else if chars_eq_str(t, "Delete") {
        chars_of("Del")
    } else if chars_eq_str(t, "BackSpace") || chars_eq_str(t, "Backspace") {
        chars_of("Backspace")
    } else if chars_eq_str(t, "Tab") {
        chars_of("Tab")
    } else if chars_eq_str(t, "space") {
        chars_of("Space")
    } else if chars_eq_str(t, "Up") {
        chars_of("↑")
    } else if chars_eq_str(t, "Down") {
        chars_of("↓")
    } else if chars_eq_str(t, "Left") {
        chars_of("←")
    } else if chars_eq_str(t, "Right") {
        chars_of("→")
    } else if chars_eq_str(t, "Home") {
        chars_of("Home")
    } else if chars_eq_str(t, "End") {
        chars_of("End")
    } else if chars_eq_str(t, "Page_Up") {
        chars_of("PgUp")
    } else if chars_eq_str(t, "Page_Down") {
        chars_of("PgDn")
    } else {
        sub_chars(t, 0, t.len())
    }
}

/// Converts an AT-SPI2 / ARIA shortcut string ("Control+N", "shift+alt+F4")
/// into the display form used by the callout ("Ctrl+N", "Shift+Alt+F4").
pub fn normalize_shortcut(raw: &str) -> (r: String)
    ensures
        r@ == normalize_shortcut_spec(raw@),
{
    let v = chars_of(raw);
    let parts = split_chars(&v, '+');
    let mut mapped: Vec<Vec<char>> = Vec::new();
    let mut i: usize = 0;
    while i < parts.len()
        invariant
            i <= parts.len(),
            views(parts@) == split(raw@, '+'),
            views(mapped@) == views(parts@).take(i as int).map_values(
                |p: Seq<char>| display_key(trim(p)),
            ),
        decreases parts.len() - i,
    {
        let t = trim_chars(&parts[i]);
        let k = display_key_chars(&t);
        let ghost old_mapped = views(mapped@);
        assert(views(parts@)[i as int] == parts@[i as int]@);
        mapped.push(k);
        assert(views(mapped@) =~= old_mapped.push(display_key(trim(views(parts@)[i as int]))));
        assert(views(mapped@) =~= views(parts@).take(i + 1).map_values(
            |p: Seq<char>| display_key(trim(p)),
        ));
        i += 1;
    }
    assert(views(parts@).take(parts.len() as int) =~= views(parts@));
    let plus = chars_of("+");
    proof {
        reveal_strlit("+");
    }
    assert(plus@ =~= seq!['+']);
    let joined = join_chars(&mapped, &plus);
    string_of(&joined)
}

// ── Resolution ───────────────────────────────────────────────────────────────

/// `exe` equals one of the excluded executable names, up to ASCII case.
pub open spec fn is_excluded(excluded: Seq<Seq<char>>, exe: Seq<char>) -> bool {
    exists|i: int| 0 <= i < excluded.len() && eq_ignore_ascii_case(#[trigger] excluded[i], exe)
}

/// The element is a menu item, a toolbar button or a context-menu item.
pub open spec fn is_menu_like(role: ElementRole) -> bool {
    match role {
        ElementRole::SemanticElement { .. } => false,
        _ => true,
    }
}

/// What the resolver gives for `event`: nothing while paused or for an
/// excluded application; for menu-like elements the advertised shortcut
/// (Tier 1, completed from the database's reverse index when the element has
/// no label) or else the database's menu entry (Tier 2); for semantic
/// elements the database's semantic action.
pub open spec fn resolve_event_spec(db: DbView, config: Config, platform: Platform, event: RawActivationEvent) -> Option<MatchView> {
    let exe = event.app.executable@;
    let title = opt_view(event.app.window_title);
    let labels = string_views(event.label_path@);
    if config.behavior.paused {
        None
    } else if is_excluded(string_views(config.behavior.excluded_apps@), exe) {
        None
    } else {
        match event.role {
            ElementRole::SemanticElement { role, context } => lookup_semantic_spec(
                db,
                exe,
                title,
                role@,
                opt_view(context),
                platform,
            ),
            _ => match event.discovered_shortcut {
                Some(raw) => {
                    let keys = normalize_shortcut_spec(raw@);
                    let action = action_name_of(labels);
                    match lookup_by_shortcut_spec(db, exe, title, keys, platform) {
                        Some(d) if action.len() == 0 => Some(
                            MatchView {
                                shortcut_keys: keys,
                                action_name: d.action_name,
                                description: d.description,
                                menu_path: d.menu_path,
                                source: ResolutionSource::Dynamic,
                            },
                        ),
                        _ => Some(
                            MatchView {
                                shortcut_keys: keys,
                                action_name: action,
                                description: Seq::<char>::empty(),
                                menu_path: join(labels, " › "@),
                                source: ResolutionSource::Dynamic,
                            },
                        ),
                    }
                },
                None => lookup_menu_spec(db, exe, title, labels, platform),
            },
        }
    }
}

/// Whether `exe` is one of the excluded applications.
fn excluded_app(excluded: &Vec<String>, exe: &str) -> (b: bool)
    ensures
        b == is_excluded(string_views(excluded@), exe@),
{
    let mut i: usize = 0;
    while i < excluded.len()
        invariant
            i <= excluded.len(),
            forall|j: int| 0 <= j < i ==> !eq_ignore_ascii_case(#[trigger] string_views(excluded@)[j], exe@),
        decreases excluded.len() - i,
    {
        assert(string_views(excluded@)[i as int] == excluded@[i as int]@);
        if str_eq_ignore_ascii_case(excluded[i].as_str(), exe) {
            return true;
        }
        i += 1;
    }
    false
}

/// Resolves one activation event against the database under the current
/// configuration.
pub fn resolve(db: &ShortcutDatabase, config: &Config, platform: Platform, event: &RawActivationEvent) -> (r: Option<ShortcutMatch>)
    ensures
        opt_match_view(r) == resolve_event_spec(db@, *config, platform, *event),
{
    if config.behavior.paused {
        return None;
    }
    if excluded_app(&config.behavior.excluded_apps, event.app.executable.as_str()) {
        return None;
    }
    match &event.role {
        ElementRole::SemanticElement { role, context } => {
            let ctx: Option<&str> = match context {
                Some(c) => Some(c.as_str()),
                None => None,
            };
            db.lookup_semantic(&event.app, role.as_str(), ctx, platform)
        },
        _ => {
            match &event.discovered_shortcut {
                Some(raw) => {
                    // Tier 1: use the shortcut the app already advertised.
                    let shortcut_keys = normalize_shortcut(raw.as_str());
                    let n = event.label_path.len();
                    let action_name = if n > 0 {
                        event.label_path[n - 1].clone()
                    } else {
                        String::new()
                    };
                    proof {
                        if n > 0 {
                            assert(string_views(event.label_path@).last() == event.label_path@[n - 1]@);
                        }
                    }
                    // With a shortcut but no label (some toolkits omit accessible
                    // names), the action name and description come from the
                    // database's reverse index.
                    if action_name.as_str().is_empty() {
                        if let Some(d) = db.lookup_by_shortcut(&event.app, shortcut_keys.as_str(), platform) {
                            return Some(
                                ShortcutMatch {
                                    shortcut_keys,
                                    action_name: d.action_name,
                                    description: d.description,
                                    menu_path: d.menu_path,
                                    source: ResolutionSource::Dynamic,
                                },
                            );
                        }
                    }
                    let menu_path = join_strings(&event.label_path, " › ");
                    Some(
                        ShortcutMatch {
                            shortcut_keys,
                            action_name,
                            description: String::new(),
                            menu_path,
                            source: ResolutionSource::Dynamic,
                        },
                    )
                },
                // Tier 2: database fallback.
                None => db.lookup_menu(&event.app, event.label_path.as_slice(), platform),
            }
        },
    }
}

// ── Laws of the resolver ─────────────────────────────────────────────────────

/// A paused daemon resolves nothing.
pub proof fn lemma_paused_resolves_nothing(db: DbView, config: Config, platform: Platform, event: RawActivationEvent)
    requires
        config.behavior.paused,
    ensures
        resolve_event_spec(db, config, platform, event) is None,
{
}

/// An excluded application gets no callout.
pub proof fn lemma_excluded_resolves_nothing(db: DbView, config: Config, platform: Platform, event: RawActivationEvent)
    requires
        is_excluded(string_views(config.behavior.excluded_apps@), event.app.executable@),
    ensures
        resolve_event_spec(db, config, platform, event) is None,
{
}

/// Every name on the excluded list counts, wherever it stands: an event
/// whose executable equals the `i`-th excluded name up to ASCII case
/// resolves to nothing.
pub proof fn lemma_each_excluded_name_resolves_nothing(
    db: DbView,
    config: Config,
    platform: Platform,
    event: RawActivationEvent,
    i: int,
)
    requires
        0 <= i < config.behavior.excluded_apps@.len(),
        eq_ignore_ascii_case(config.behavior.excluded_apps@[i]@, event.app.executable@),
    ensures
        resolve_event_spec(db, config, platform, event) is None,
{
    assert(string_views(config.behavior.excluded_apps@)[i] == config.behavior.excluded_apps@[i]@);
}

/// Only the listed applications are excluded: when the daemon is not paused
/// and no excluded name equals the executable up to ASCII case, a menu-like
/// element that advertised a shortcut gets the callout for that shortcut in
/// display form.
pub proof fn lemma_unlisted_app_gets_callout(
    db: DbView,
    config: Config,
    platform: Platform,
    event: RawActivationEvent,
)
    requires
        !config.behavior.paused,
        forall|i: int|
            0 <= i < config.behavior.excluded_apps@.len() ==> !eq_ignore_ascii_case(
                #[trigger] config.behavior.excluded_apps@[i]@,
                event.app.executable@,
            ),
        is_menu_like(event.role),
        event.discovered_shortcut is Some,
    ensures
        resolve_event_spec(db, config, platform, event) matches Some(m) && m.shortcut_keys
            == normalize_shortcut_spec(event.discovered_shortcut->0@),
{
    let ex = string_views(config.behavior.excluded_apps@);
    assert forall|i: int| 0 <= i < ex.len() implies !eq_ignore_ascii_case(#[trigger] ex[i], event.app.executable@) by {
        assert(ex[i] == config.behavior.excluded_apps@[i]@);
    }
}

/// Tier 1 takes priority: for a menu-like element that advertised a
/// shortcut, the callout shows that shortcut in display form, marked
/// `Dynamic`, whatever the database holds.
pub proof fn lemma_tier1_priority(db: DbView, config: Config, platform: Platform, event: RawActivationEvent)
    requires
        !config.behavior.paused,
        !is_excluded(string_views(config.behavior.excluded_apps@), event.app.executable@),
        is_menu_like(event.role),
        event.discovered_shortcut is Some,
    ensures
        resolve_event_spec(db, config, platform, event) matches Some(m) && m.source
            == ResolutionSource::Dynamic && m.shortcut_keys == normalize_shortcut_spec(
            event.discovered_shortcut->0@,
        ),
{
}

/// Without an advertised shortcut, a menu-like element resolves exactly as
/// the database's menu lookup does, and any match it gives comes from the
/// database.
pub proof fn lemma_tier2_fallback(db: DbView, config: Config, platform: Platform, event: RawActivationEvent)
    requires
        !config.behavior.paused,
        !is_excluded(string_views(config.behavior.excluded_apps@), event.app.executable@),
        is_menu_like(event.role),
        event.discovered_shortcut is None,
    ensures
        resolve_event_spec(db, config, platform, event) == lookup_menu_spec(
            db,
            event.app.executable@,
            opt_view(event.app.window_title),
            string_views(event.label_path@),
            platform,
        ),
        resolve_event_spec(db, config, platform, event) matches Some(m) ==> m.source
            == ResolutionSource::Database,
{
}

/// Semantic elements have no Tier 1 path: any match they get comes from the
/// database.
pub proof fn lemma_semantic_from_database(db: DbView, config: Config, platform: Platform, event: RawActivationEvent)
    requires
        !is_menu_like(event.role),
    ensures
        resolve_event_spec(db, config, platform, event) matches Some(m) ==> m.source
            == ResolutionSource::Database,
{
}

/// No suppression: the callout for an event depends only on the database,
/// the configuration, the platform and what the event reports of the
/// element, never on when it happened, so every repetition of a missed
/// shortcut gets the same callout.
pub proof fn lemma_no_suppression(
    db: DbView,
    config: Config,
    platform: Platform,
    e1: RawActivationEvent,
    e2: RawActivationEvent,
)
    requires
        e1.app == e2.app,
        e1.role == e2.role,
        e1.label_path == e2.label_path,
        e1.discovered_shortcut == e2.discovered_shortcut,
    ensures
        resolve_event_spec(db, config, platform, e1) == resolve_event_spec(db, config, platform, e2),
{
}

} // verus!
