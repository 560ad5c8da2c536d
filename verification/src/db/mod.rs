//! The shortcut database: the bundled shortcut files indexed by application,
//! platform and normalized menu path (menu shortcuts) or by application,
//! platform, role and context (semantic actions).

pub mod matcher;
pub mod schema;
pub mod sources;
pub mod table;

use vstd::prelude::*;
use crate::db::matcher::{resolve_spec, AppMatcher, EntryView, GLOBAL_APP_NUMBER};
use crate::db::schema::{AppDef, AppFile, PlatformKeys, SemanticActionDef, ShortcutDef};
use crate::db::table::{
    first_index, has_key, is_first, lemma_first_index, lemma_first_unique, table_get, table_insert,
};
use crate::text::{
    chars_of, join, join_strings, lower_text, str_eq, string_of, string_views, strip_end_char,
    strip_end_char_chars, strip_end_dots, strip_end_dots_chars, to_lowercase, trim, trim_chars,
    is_ws, lemma_lead_ws, lemma_trim_end_unpadded, lemma_trim_start_append, three_dots, trim_start,
    all_ascii, ascii_lower, ascii_lowercase, ascii_uppercase, eq_ignore_ascii_case, is_ascii_upper,
    lemma_lower_char, lemma_upper_char, lemma_strip_dots_lower, lemma_strip_ellipsis_lower,
    lemma_trim_lower,
};
use crate::types::{opt_match_view, opt_view, AppIdentity, MatchView, Platform, ResolutionSource, ShortcutMatch};

verus! {

/// Opaque identifier for an app registered in the database.
#[derive(Debug, Clone, Copy, PartialEq, Eq, Hash, Structural)]
pub struct AppId(pub u32);

/// Why the shortcut database could not be built.
#[derive(Debug)]
pub enum DatabaseError {
    /// A bundled file is not valid TOML for a shortcut file.
    ParseError { file: &'static str, source: toml::de::Error },
    /// A shortcut entry of a bundled file has an empty `keys` array.
    EmptyKeys { file: &'static str },
}

// ── Text normalization ───────────────────────────────────────────────────────

/// A menu-path segment as it is indexed and looked up: trimmed, without its
/// trailing `…` and `...`, trimmed again, lowercased.
pub open spec fn normalize_segment_spec(s: Seq<char>) -> Seq<char> {
    lower_text(trim(strip_end_dots(strip_end_char(trim(s), '…'))))
}

/// A menu path as it is indexed and looked up.
pub open spec fn normalize_path_spec(path: Seq<Seq<char>>) -> Seq<Seq<char>> {
    path.map_values(|s: Seq<char>| normalize_segment_spec(s))
}

/// Normalizes one menu-path segment.
pub fn normalize_segment(s: &str) -> (r: String)
    ensures
        r@ == normalize_segment_spec(s@),
{
    let v = chars_of(s);
    let a = trim_chars(&v);
    let b = strip_end_char_chars(&a, '…');
    let c = strip_end_dots_chars(&b);
    let d = trim_chars(&c);
    let e = string_of(&d);
    to_lowercase(e.as_str())
}

/// Normalizes every segment of a menu path.
fn normalize_path(path: &[String]) -> (r: Vec<String>)
    ensures
        string_views(r@) == normalize_path_spec(string_views(path@)),
{
    let mut r: Vec<String> = Vec::new();
    let mut i: usize = 0;
    while i < path.len()
        invariant
            i <= path.len(),
            string_views(r@) == normalize_path_spec(string_views(path@)).take(i as int),
        decreases path.len() - i,
    {
        let n = normalize_segment(path[i].as_str());
        let ghost before = string_views(r@);
        r.push(n);
        assert(string_views(r@) =~= before.push(n@));
        assert(normalize_path_spec(string_views(path@)).take(i + 1) =~= normalize_path_spec(
            string_views(path@),
        ).take(i as int).push(normalize_segment_spec(path@[i as int]@)));
        i += 1;
    }
    assert(normalize_path_spec(string_views(path@)).take(path.len() as int) =~= normalize_path_spec(
        string_views(path@),
    ));
    r
}

/// A copy of a list of strings.
fn copy_strings(v: &Vec<String>) -> (r: Vec<String>)
    ensures
        string_views(r@) == string_views(v@),
{
    let mut r: Vec<String> = Vec::new();
    let mut i: usize = 0;
    while i < v.len()
        invariant
            i <= v.len(),
            string_views(r@) == string_views(v@).take(i as int),
        decreases v.len() - i,
    {
        let ghost before = string_views(r@);
        r.push(v[i].clone());
        assert(string_views(r@) =~= before.push(v@[i as int]@));
        assert(string_views(v@).take(i + 1) =~= string_views(v@).take(i as int).push(v@[i as int]@));
        i += 1;
    }
    assert(string_views(v@).take(v.len() as int) =~= string_views(v@));
    r
}

/// A copy of an optional string.
fn copy_opt_string(o: &Option<String>) -> (r: Option<String>)
    ensures
        opt_view(r) == opt_view(*o),
{
    match o {
        Some(s) => Some(s.clone()),
        None => None,
    }
}

/// Whether two lists of strings are equal.
fn strings_eq(a: &Vec<String>, b: &Vec<String>) -> (r: bool)
    ensures
        r == (string_views(a@) == string_views(b@)),
{
    if a.len() != b.len() {
        assert(string_views(a@).len() != string_views(b@).len());
        return false;
    }
    let mut i: usize = 0;
    while i < a.len()
        invariant
            i <= a.len() == b.len(),
            forall|j: int| 0 <= j < i ==> a@[j]@ == b@[j]@,
        decreases a.len() - i,
    {
        if a[i] != b[i] {
            assert(string_views(a@)[i as int] != string_views(b@)[i as int]);
            return false;
        }
        i += 1;
    }
    assert(string_views(a@) =~= string_views(b@));
    true
}

/// Whether two optional strings are equal.
fn opt_strings_eq(a: &Option<String>, b: &Option<String>) -> (r: bool)
    ensures
        r == (opt_view(*a) == opt_view(*b)),
{
    match (a, b) {
        (Some(x), Some(y)) => *x == *y,
        (None, None) => true,
        _ => false,
    }
}

// ── Index keys and entries ───────────────────────────────────────────────────

/// Key of the menu-shortcut index.
pub struct MenuKey {
    app_id: AppId,
    platform: Platform,
    /// Each segment is normalized (`normalize_segment`).
    path: Vec<String>,
}

/// Abstract key of the menu-shortcut index.
pub struct MenuKeyView {
    pub app_id: AppId,
    pub platform: Platform,
    pub path: Seq<Seq<char>>,
}

impl View for MenuKey {
    type V = MenuKeyView;

    closed spec fn view(&self) -> MenuKeyView {
        MenuKeyView { app_id: self.app_id, platform: self.platform, path: string_views(self.path@) }
    }
}

/// Key of the semantic-action index.
pub struct SemanticKey {
    app_id: AppId,
    platform: Platform,
    role: String,
    context: Option<String>,
}

/// Abstract key of the semantic-action index.
pub struct SemanticKeyView {
    pub app_id: AppId,
    pub platform: Platform,
    pub role: Seq<char>,
    pub context: Option<Seq<char>>,
}

impl View for SemanticKey {
    type V = SemanticKeyView;

    closed spec fn view(&self) -> SemanticKeyView {
        SemanticKeyView {
            app_id: self.app_id,
            platform: self.platform,
            role: self.role@,
            context: opt_view(self.context),
        }
    }
}

/// A menu shortcut of the index.
pub struct MenuEntry {
    keys: String,
    description: String,
    action_name: String,
    menu_path_display: String,
}

/// Abstract menu shortcut.
pub struct MenuEntryView {
    pub keys: Seq<char>,
    pub description: Seq<char>,
    pub action_name: Seq<char>,
    pub menu_path_display: Seq<char>,
}

impl View for MenuEntry {
    type V = MenuEntryView;

    closed spec fn view(&self) -> MenuEntryView {
        MenuEntryView {
            keys: self.keys@,
            description: self.description@,
            action_name: self.action_name@,
            menu_path_display: self.menu_path_display@,
        }
    }
}

/// A semantic action of the index.
pub struct SemanticEntry {
    keys: String,
    description: String,
    role: String,
}

/// Abstract semantic action.
pub struct SemanticEntryView {
    pub keys: Seq<char>,
    pub description: Seq<char>,
    pub role: Seq<char>,
}

impl View for SemanticEntry {
    type V = SemanticEntryView;

    closed spec fn view(&self) -> SemanticEntryView {
        SemanticEntryView { keys: self.keys@, description: self.description@, role: self.role@ }
    }
}

/// The match shown for a menu shortcut.
pub open spec fn menu_match(e: MenuEntryView, source: ResolutionSource) -> MatchView {
    MatchView {
        shortcut_keys: e.keys,
        action_name: e.action_name,
        description: e.description,
        menu_path: e.menu_path_display,
        source,
    }
}

/// The match shown for a semantic action: its role stands for the action
/// name, and it has no menu path.
pub open spec fn semantic_match(e: SemanticEntryView, source: ResolutionSource) -> MatchView {
    MatchView {
        shortcut_keys: e.keys,
        action_name: e.role,
        description: e.description,
        menu_path: Seq::<char>::empty(),
        source,
    }
}

impl MenuEntry {
    fn to_match(&self, source: ResolutionSource) -> (m: ShortcutMatch)
        ensures
            m@ == menu_match(self@, source),
    {
        ShortcutMatch {
            shortcut_keys: self.keys.clone(),
            action_name: self.action_name.clone(),
            description: self.description.clone(),
            menu_path: self.menu_path_display.clone(),
            source,
        }
    }
}

impl SemanticEntry {
    fn to_match(&self, source: ResolutionSource) -> (m: ShortcutMatch)
        ensures
            m@ == semantic_match(self@, source),
    {
        ShortcutMatch {
            shortcut_keys: self.keys.clone(),
            action_name: self.role.clone(),
            description: self.description.clone(),
            menu_path: String::new(),
            source,
        }
    }
}

/// The abstract menu index.
pub open spec fn menu_view(t: Seq<(MenuKey, MenuEntry)>) -> Seq<(MenuKeyView, MenuEntryView)> {
    t.map_values(|p: (MenuKey, MenuEntry)| (p.0@, p.1@))
}

/// The abstract semantic index.
pub open spec fn semantic_view(t: Seq<(SemanticKey, SemanticEntry)>) -> Seq<(SemanticKeyView, SemanticEntryView)> {
    t.map_values(|p: (SemanticKey, SemanticEntry)| (p.0@, p.1@))
}

fn menu_key_eq(a: &MenuKey, b: &MenuKey) -> (r: bool)
    ensures
        r == (a@ == b@),
{
    a.app_id == b.app_id && a.platform == b.platform && strings_eq(&a.path, &b.path)
}

fn semantic_key_eq(a: &SemanticKey, b: &SemanticKey) -> (r: bool)
    ensures
        r == (a@ == b@),
{
    a.app_id == b.app_id && a.platform == b.platform && a.role == b.role && opt_strings_eq(
        &a.context,
        &b.context,
    )
}

/// Reads the menu index.
fn menu_get<'a>(t: &'a Vec<(MenuKey, MenuEntry)>, k: &MenuKey) -> (r: Option<&'a MenuEntry>)
    ensures
        match r {
            Some(e) => table_get(menu_view(t@), k@) == Some(e@),
            None => table_get(menu_view(t@), k@) is None,
        },
{
    let ghost tv = menu_view(t@);
    let mut i: usize = 0;
    while i < t.len()
        invariant
            i <= t.len(),
            tv == menu_view(t@),
            forall|j: int| 0 <= j < i ==> tv[j].0 != k@,
        decreases t.len() - i,
    {
        if menu_key_eq(&t[i].0, k) {
            assert(is_first(tv, k@, i as int));
            proof { lemma_first_unique(tv, k@, i as int); }
            return Some(&t[i].1);
        }
        i += 1;
    }
    assert(!has_key(tv, k@));
    None
}

/// Writes the menu index.
fn menu_insert(t: &mut Vec<(MenuKey, MenuEntry)>, k: MenuKey, e: MenuEntry)
    ensures
        menu_view(final(t)@) == table_insert(menu_view(old(t)@), k@, e@),
{
    let ghost tv = menu_view(t@);
    let mut i: usize = 0;
    while i < t.len()
        invariant
            i <= t.len(),
            tv == menu_view(t@),
            tv == menu_view(old(t)@),
            forall|j: int| 0 <= j < i ==> tv[j].0 != k@,
        decreases t.len() - i,
    {
        if menu_key_eq(&t[i].0, &k) {
            assert(is_first(tv, k@, i as int));
            proof { lemma_first_unique(tv, k@, i as int); }
            assert(has_key(tv, k@));
            let ghost kv = (k@, e@);
            t.set(i, (k, e));
            assert(menu_view(t@) =~= tv.update(i as int, kv));
            assert(first_index(tv, k@) == i as int);
            assert(table_insert(tv, k@, e@) == tv.update(i as int, kv));
            return;
        }
        i += 1;
    }
    assert(!has_key(tv, k@));
    let ghost kv = (k@, e@);
    t.push((k, e));
    assert(menu_view(t@) =~= tv.push(kv));
}

/// Reads the semantic index.
fn semantic_get<'a>(t: &'a Vec<(SemanticKey, SemanticEntry)>, k: &SemanticKey) -> (r: Option<&'a SemanticEntry>)
    ensures
        match r {
            Some(e) => table_get(semantic_view(t@), k@) == Some(e@),
            None => table_get(semantic_view(t@), k@) is None,
        },
{
    let ghost tv = semantic_view(t@);
    let mut i: usize = 0;
    while i < t.len()
        invariant
            i <= t.len(),
            tv == semantic_view(t@),
            forall|j: int| 0 <= j < i ==> tv[j].0 != k@,
        decreases t.len() - i,
    {
        if semantic_key_eq(&t[i].0, k) {
            assert(is_first(tv, k@, i as int));
            proof { lemma_first_unique(tv, k@, i as int); }
            return Some(&t[i].1);
        }
        i += 1;
    }
    assert(!has_key(tv, k@));
    None
}

/// Writes the semantic index.
fn semantic_insert(t: &mut Vec<(SemanticKey, SemanticEntry)>, k: SemanticKey, e: SemanticEntry)
    ensures
        semantic_view(final(t)@) == table_insert(semantic_view(old(t)@), k@, e@),
{
    let ghost tv = semantic_view(t@);
    let mut i: usize = 0;
    while i < t.len()
        invariant
            i <= t.len(),
            tv == semantic_view(t@),
            tv == semantic_view(old(t)@),
            forall|j: int| 0 <= j < i ==> tv[j].0 != k@,
        decreases t.len() - i,
    {
        if semantic_key_eq(&t[i].0, &k) {
            assert(is_first(tv, k@, i as int));
            proof { lemma_first_unique(tv, k@, i as int); }
            assert(has_key(tv, k@));
            let ghost kv = (k@, e@);
            t.set(i, (k, e));
            assert(semantic_view(t@) =~= tv.update(i as int, kv));
            assert(first_index(tv, k@) == i as int);
            assert(table_insert(tv, k@, e@) == tv.update(i as int, kv));
            return;
        }
        i += 1;
    }
    assert(!has_key(tv, k@));
    let ghost kv = (k@, e@);
    t.push((k, e));
    assert(semantic_view(t@) =~= tv.push(kv));
}

// ── The database ─────────────────────────────────────────────────────────────

/// The shortcut database: the application matcher and the two indexes.
pub struct ShortcutDatabase {
    matcher: AppMatcher,
    menu_table: Vec<(MenuKey, MenuEntry)>,
    semantic_table: Vec<(SemanticKey, SemanticEntry)>,
}

/// The abstract content of the database.
pub struct DbView {
    pub matcher: Seq<EntryView>,
    pub menu: Seq<(MenuKeyView, MenuEntryView)>,
    pub semantic: Seq<(SemanticKeyView, SemanticEntryView)>,
}

impl ShortcutDatabase {
    /// Every semantic action is stored under a key with its own role.
    #[verifier::type_invariant]
    spec fn well_formed(self) -> bool {
        roles_tied(semantic_view(self.semantic_table@))
    }
}

impl View for ShortcutDatabase {
    type V = DbView;

    closed spec fn view(&self) -> DbView {
        DbView {
            matcher: self.matcher@,
            menu: menu_view(self.menu_table@),
            semantic: semantic_view(self.semantic_table@),
        }
    }
}

/// The global application ID.
pub open spec fn global_id() -> AppId {
    AppId(GLOBAL_APP_NUMBER)
}

// ── Building ─────────────────────────────────────────────────────────────────

/// The state of a build: the database so far and the next application ID.
pub struct BuildState {
    pub db: DbView,
    pub next_id: nat,
}

/// The (platform, keys) pairs of a key definition, in the order they are indexed.
pub open spec fn keys_list(k: PlatformKeys) -> Seq<(Platform, Option<Seq<char>>)> {
    seq![
        (Platform::Linux, opt_view(k.linux)),
        (Platform::Windows, opt_view(k.windows)),
        (Platform::MacOS, opt_view(k.macos)),
    ]
}

/// The last segment of a menu path, or nothing for an empty path.
pub open spec fn action_name_of(path: Seq<Seq<char>>) -> Seq<char> {
    if path.len() > 0 {
        path.last()
    } else {
        Seq::<char>::empty()
    }
}

/// The index entry of shortcut `s` with key combination `keys`.
pub open spec fn menu_entry_of(s: ShortcutDef, keys: Seq<char>) -> MenuEntryView {
    MenuEntryView {
        keys,
        description: s.description@,
        action_name: action_name_of(string_views(s.menu_path@)),
        menu_path_display: join(string_views(s.menu_path@), " › "@),
    }
}

/// `menu` with shortcut `s` of application `id` set for each platform of `ks`
/// that has keys.
pub open spec fn index_menu_keys(
    menu: Seq<(MenuKeyView, MenuEntryView)>,
    id: AppId,
    s: ShortcutDef,
    ks: Seq<(Platform, Option<Seq<char>>)>,
) -> Seq<(MenuKeyView, MenuEntryView)>
    decreases ks.len(),
{
    if ks.len() == 0 {
        menu
    } else {
        let m = index_menu_keys(menu, id, s, ks.drop_last());
        match ks.last().1 {
            Some(k) => table_insert(
                m,
                MenuKeyView {
                    app_id: id,
                    platform: ks.last().0,
                    path: normalize_path_spec(string_views(s.menu_path@)),
                },
                menu_entry_of(s, k),
            ),
            None => m,
        }
    }
}

/// `menu` with the shortcuts `ss` of application `id` set, in order.
pub open spec fn index_shortcuts(
    menu: Seq<(MenuKeyView, MenuEntryView)>,
    id: AppId,
    ss: Seq<ShortcutDef>,
) -> Seq<(MenuKeyView, MenuEntryView)>
    decreases ss.len(),
{
    if ss.len() == 0 {
        menu
    } else {
        index_menu_keys(
            index_shortcuts(menu, id, ss.drop_last()),
            id,
            ss.last(),
            keys_list(ss.last().keys@[0]),
        )
    }
}

/// `sem` with semantic action `a` of application `id` set for each platform
/// of `ks` that has keys.
pub open spec fn index_action_keys(
    sem: Seq<(SemanticKeyView, SemanticEntryView)>,
    id: AppId,
    a: SemanticActionDef,
    ks: Seq<(Platform, Option<Seq<char>>)>,
) -> Seq<(SemanticKeyView, SemanticEntryView)>
    decreases ks.len(),
{
    if ks.len() == 0 {
        sem
    } else {
        let m = index_action_keys(sem, id, a, ks.drop_last());
        match ks.last().1 {
            Some(k) => table_insert(
                m,
                SemanticKeyView {
                    app_id: id,
                    platform: ks.last().0,
                    role: a.role@,
                    context: opt_view(a.context),
                },
                SemanticEntryView { keys: k, description: a.description@, role: a.role@ },
            ),
            None => m,
        }
    }
}

/// `sem` with the semantic actions `aa` of application `id` set, in order.
pub open spec fn index_actions(
    sem: Seq<(SemanticKeyView, SemanticEntryView)>,
    id: AppId,
    aa: Seq<SemanticActionDef>,
) -> Seq<(SemanticKeyView, SemanticEntryView)>
    decreases aa.len(),
{
    if aa.len() == 0 {
        sem
    } else {
        index_action_keys(
            index_actions(sem, id, aa.drop_last()),
            id,
            aa.last(),
            keys_list(aa.last().keys@[0]),
        )
    }
}

/// Every entry of the semantic index `t` carries the role of its key.
pub open spec fn roles_tied(t: Seq<(SemanticKeyView, SemanticEntryView)>) -> bool {
    forall|i: int| 0 <= i < t.len() ==> (#[trigger] t[i]).1.role == t[i].0.role
}

/// Writing an entry that carries the role of its key keeps the index tied.
proof fn lemma_insert_keeps_tie(
    t: Seq<(SemanticKeyView, SemanticEntryView)>,
    k: SemanticKeyView,
    v: SemanticEntryView,
)
    requires
        roles_tied(t),
        v.role == k.role,
    ensures
        roles_tied(table_insert(t, k, v)),
{
    if has_key(t, k) {
        lemma_first_index(t, k);
    }
}

/// What a tied index gives for a key carries the key's role.
proof fn lemma_get_tied(t: Seq<(SemanticKeyView, SemanticEntryView)>, k: SemanticKeyView)
    requires
        roles_tied(t),
    ensures
        table_get(t, k) matches Some(e) ==> e.role == k.role,
{
    if has_key(t, k) {
        lemma_first_index(t, k);
    }
}

proof fn lemma_index_action_keys_tied(
    sem: Seq<(SemanticKeyView, SemanticEntryView)>,
    id: AppId,
    a: SemanticActionDef,
    ks: Seq<(Platform, Option<Seq<char>>)>,
)
    requires
        roles_tied(sem),
    ensures
        roles_tied(index_action_keys(sem, id, a, ks)),
    decreases ks.len(),
{
    if ks.len() > 0 {
        lemma_index_action_keys_tied(sem, id, a, ks.drop_last());
        let m = index_action_keys(sem, id, a, ks.drop_last());
        if let Some(k) = ks.last().1 {
            lemma_insert_keeps_tie(
                m,
                SemanticKeyView {
                    app_id: id,
                    platform: ks.last().0,
                    role: a.role@,
                    context: opt_view(a.context),
                },
                SemanticEntryView { keys: k, description: a.description@, role: a.role@ },
            );
        }
    }
}

proof fn lemma_index_actions_tied(
    sem: Seq<(SemanticKeyView, SemanticEntryView)>,
    id: AppId,
    aa: Seq<SemanticActionDef>,
)
    requires
        roles_tied(sem),
    ensures
        roles_tied(index_actions(sem, id, aa)),
    decreases aa.len(),
{
    if aa.len() > 0 {
        lemma_index_actions_tied(sem, id, aa.drop_last());
        lemma_index_action_keys_tied(
            index_actions(sem, id, aa.drop_last()),
            id,
            aa.last(),
            keys_list(aa.last().keys@[0]),
        );
    }
}

/// Some shortcut or semantic action of `f` has an empty `keys` array.
pub open spec fn has_empty_keys(f: AppFile) -> bool {
    ||| exists|i: int| 0 <= i < f.shortcuts@.len() && (#[trigger] f.shortcuts@[i]).keys@.len() == 0
    ||| exists|i: int|
        0 <= i < f.semantic_actions@.len() && (#[trigger] f.semantic_actions@[i]).keys@.len() == 0
}

/// The matcher after registering application `def` under `id`: the entry is
/// added unless its title pattern does not compile.
pub open spec fn register_app(matcher: Seq<EntryView>, id: AppId, def: AppDef) -> Seq<EntryView> {
    let pat = def.title_pattern@;
    if pat.len() > 0 && !crate::db::matcher::regex_compiles(pat) {
        matcher
    } else {
        matcher.push(
            EntryView {
                app_id: id,
                executables: string_views(def.executables@),
                title_pattern: if pat.len() > 0 {
                    Some(pat)
                } else {
                    None
                },
            },
        )
    }
}

/// The state after indexing file `f`, which has no empty `keys` array: an
/// application file gets the next ID and is registered with the matcher; a
/// global file's entries go under the global ID.
pub open spec fn index_file(st: BuildState, f: AppFile) -> BuildState {
    let (matcher, id, next_id) = match f.app {
        Some(def) => (
            register_app(st.db.matcher, AppId(st.next_id as u32), def),
            AppId(st.next_id as u32),
            st.next_id + 1,
        ),
        None => (st.db.matcher, global_id(), st.next_id),
    };
    BuildState {
        db: DbView {
            matcher,
            menu: index_shortcuts(st.db.menu, id, f.shortcuts@),
            semantic: index_actions(st.db.semantic, id, f.semantic_actions@),
        },
        next_id,
    }
}

/// The outcome of processing the source named `name` whose parse gave `r`.
pub open spec fn process_source(
    st: BuildState,
    name: &'static str,
    r: Result<AppFile, toml::de::Error>,
) -> Result<BuildState, DatabaseError> {
    match r {
        Err(e) => Err(DatabaseError::ParseError { file: name, source: e }),
        Ok(f) => if has_empty_keys(f) {
            Err(DatabaseError::EmptyKeys { file: name })
        } else {
            Ok(index_file(st, f))
        },
    }
}

/// The state before any source.
pub open spec fn initial_state() -> BuildState {
    BuildState {
        db: DbView { matcher: Seq::empty(), menu: Seq::empty(), semantic: Seq::empty() },
        next_id: 1,
    }
}

/// The outcome of building from `sources`, processed in order; the first
/// failing source ends the build.
pub open spec fn build_spec(sources: Seq<(&'static str, Result<AppFile, toml::de::Error>)>) -> Result<BuildState, DatabaseError>
    decreases sources.len(),
{
    if sources.len() == 0 {
        Ok(initial_state())
    } else {
        match build_spec(sources.drop_last()) {
            Err(e) => Err(e),
            Ok(st) => process_source(st, sources.last().0, sources.last().1),
        }
    }
}

/// Once a prefix of the sources fails, the whole build fails the same way.
pub proof fn lemma_build_err_prefix(s: Seq<(&'static str, Result<AppFile, toml::de::Error>)>, n: int)
    requires
        0 <= n <= s.len(),
        build_spec(s.take(n)) is Err,
    ensures
        build_spec(s) == build_spec(s.take(n)),
    decreases s.len() - n,
{
    if n < s.len() {
        assert(s.take(n + 1).drop_last() =~= s.take(n));
        lemma_build_err_prefix(s, n + 1);
    } else {
        assert(s.take(n) =~= s);
    }
}

/// The application ID numbers stay below `1 + the number of sources`.
pub proof fn lemma_build_next_id(s: Seq<(&'static str, Result<AppFile, toml::de::Error>)>)
    ensures
        build_spec(s) matches Ok(st) ==> 1 <= st.next_id <= 1 + s.len(),
    decreases s.len(),
{
    if s.len() > 0 {
        lemma_build_next_id(s.drop_last());
    }
}

/// The (platform, keys) pairs of a key definition.
pub fn platform_iter(keys: &PlatformKeys) -> (r: [(Platform, Option<String>); 3])
    ensures
        r@.map_values(|p: (Platform, Option<String>)| (p.0, opt_view(p.1))) == keys_list(*keys),
{
    let r = [
        (Platform::Linux, copy_opt_string(&keys.linux)),
        (Platform::Windows, copy_opt_string(&keys.windows)),
        (Platform::MacOS, copy_opt_string(&keys.macos)),
    ];
    assert(r@.map_values(|p: (Platform, Option<String>)| (p.0, opt_view(p.1))) =~= keys_list(*keys));
    r
}

/// Sets shortcut `s` of application `id` in the menu index, for each platform
/// of its first key definition that has keys.
fn index_menu_shortcut(menu: &mut Vec<(MenuKey, MenuEntry)>, id: AppId, s: &ShortcutDef)
    requires
        s.keys@.len() > 0,
    ensures
        menu_view(final(menu)@) == index_menu_keys(menu_view(old(menu)@), id, *s, keys_list(s.keys@[0])),
{
    let normalized = normalize_path(s.menu_path.as_slice());
    let action_name = if s.menu_path.len() > 0 {
        s.menu_path[s.menu_path.len() - 1].clone()
    } else {
        String::new()
    };
    proof {
        if s.menu_path@.len() > 0 {
            assert(string_views(s.menu_path@).last() == s.menu_path@[s.menu_path@.len() - 1]@);
        }
    }
    let display = join_strings(&s.menu_path, " › ");
    let pk = platform_iter(&s.keys[0]);
    let ghost ks = keys_list(s.keys@[0]);
    let ghost m0 = menu_view(menu@);
    let mut j: usize = 0;
    while j < 3
        invariant
            j <= 3,
            ks == keys_list(s.keys@[0]),
            pk@.map_values(|p: (Platform, Option<String>)| (p.0, opt_view(p.1))) == ks,
            m0 == menu_view(old(menu)@),
            string_views(normalized@) == normalize_path_spec(string_views(s.menu_path@)),
            action_name@ == action_name_of(string_views(s.menu_path@)),
            display@ == join(string_views(s.menu_path@), " › "@),
            menu_view(menu@) == index_menu_keys(m0, id, *s, ks.take(j as int)),
        decreases 3 - j,
    {
        assert(ks.take(j + 1).drop_last() =~= ks.take(j as int));
        assert(ks.take(j + 1).last() == ks[j as int]);
        assert(ks[j as int] == (pk@[j as int].0, opt_view(pk@[j as int].1)));
        let platform = pk[j].0;
        match &pk[j].1 {
            Some(keys) => {
                let key = MenuKey { app_id: id, platform, path: copy_strings(&normalized) };
                let entry = MenuEntry {
                    keys: keys.clone(),
                    description: s.description.clone(),
                    action_name: action_name.clone(),
                    menu_path_display: display.clone(),
                };
                menu_insert(menu, key, entry);
            },
            None => {},
        }
        j += 1;
    }
    assert(ks.take(3) =~= ks);
}

/// Sets semantic action `a` of application `id` in the semantic index, for
/// each platform of its first key definition that has keys.
fn index_semantic_action(sem: &mut Vec<(SemanticKey, SemanticEntry)>, id: AppId, a: &SemanticActionDef)
    requires
        a.keys@.len() > 0,
    ensures
        semantic_view(final(sem)@) == index_action_keys(semantic_view(old(sem)@), id, *a, keys_list(a.keys@[0])),
{
    let pk = platform_iter(&a.keys[0]);
    let ghost ks = keys_list(a.keys@[0]);
    let ghost m0 = semantic_view(sem@);
    let mut j: usize = 0;
    while j < 3
        invariant
            j <= 3,
            ks == keys_list(a.keys@[0]),
            pk@.map_values(|p: (Platform, Option<String>)| (p.0, opt_view(p.1))) == ks,
            m0 == semantic_view(old(sem)@),
            semantic_view(sem@) == index_action_keys(m0, id, *a, ks.take(j as int)),
        decreases 3 - j,
    {
        assert(ks.take(j + 1).drop_last() =~= ks.take(j as int));
        assert(ks.take(j + 1).last() == ks[j as int]);
        assert(ks[j as int] == (pk@[j as int].0, opt_view(pk@[j as int].1)));
        let platform = pk[j].0;
        match &pk[j].1 {
            Some(keys) => {
                let key = SemanticKey {
                    app_id: id,
                    platform,
                    role: a.role.clone(),
                    context: copy_opt_string(&a.context),
                };
                let entry = SemanticEntry {
                    keys: keys.clone(),
                    description: a.description.clone(),
                    role: a.role.clone(),
                };
                semantic_insert(sem, key, entry);
            },
            None => {},
        }
        j += 1;
    }
    assert(ks.take(3) =~= ks);
}

impl ShortcutDatabase {
    /// Indexes the shortcut sources, each given by its name and the outcome
    /// of parsing its TOML text, in order. The first source that failed to
    /// parse, or that has a shortcut or semantic action with an empty `keys`
    /// array, ends the build with the matching error.
    #[verifier::loop_isolation(false)]
    pub fn build(sources: Vec<(&'static str, Result<AppFile, toml::de::Error>)>) -> (r: Result<ShortcutDatabase, DatabaseError>)
        requires
            sources@.len() < u32::MAX,
        ensures
            match r {
                Ok(db) => build_spec(sources@) matches Ok(st) && db@ == st.db,
                Err(e) => build_spec(sources@) == Err::<BuildState, DatabaseError>(e),
            },
            r matches Ok(db) ==> roles_tied(db@.semantic),
    {
        let ghost src = sources@;
        let mut matcher = AppMatcher::new();
        let mut menu: Vec<(MenuKey, MenuEntry)> = Vec::new();
        let mut semantic: Vec<(SemanticKey, SemanticEntry)> = Vec::new();
        let mut next_id: u32 = 1;
        let ghost mut done: Seq<(&'static str, Result<AppFile, toml::de::Error>)> = Seq::empty();
        let mut sources = sources;
        assert(matcher@ =~= Seq::<EntryView>::empty());
        assert(menu_view(menu@) =~= Seq::<(MenuKeyView, MenuEntryView)>::empty());
        assert(semantic_view(semantic@) =~= Seq::<(SemanticKeyView, SemanticEntryView)>::empty());
        assert(done + sources@ =~= src);
        while sources.len() > 0
            invariant
                done + sources@ == src,
                src.len() < u32::MAX,
                build_spec(done) == Ok::<BuildState, DatabaseError>(
                    BuildState {
                        db: DbView {
                            matcher: matcher@,
                            menu: menu_view(menu@),
                            semantic: semantic_view(semantic@),
                        },
                        next_id: next_id as nat,
                    },
                ),
                roles_tied(semantic_view(semantic@)),
            decreases sources.len(),
        {
            let ghost rem = sources@;
            let item = sources.remove(0);
            proof {
                assert(rem[0] == item);
                assert(done.push(item) + sources@ =~= src);
                assert(done.push(item).drop_last() =~= done);
                lemma_build_next_id(done);
            }
            proof {
                done = done.push(item);
            }
            let (file, parsed) = item;
            let f = match parsed {
                Err(e) => {
                    let err = DatabaseError::ParseError { file, source: e };
                    proof {
                        assert(src.take(done.len() as int) =~= done);
                        lemma_build_err_prefix(src, done.len() as int);
                    }
                    return Err(err);
                },
                Ok(f) => f,
            };
            let ghost fv = f;
            let AppFile { schema_version: _, app, shortcuts, semantic_actions } = f;
            let ghost old_matcher = matcher@;
            let app_id = match app {
                Some(def) => {
                    let id = AppId(next_id);
                    next_id = next_id + 1;
                    let ghost dv = def;
                    let AppDef { id: _, executables, title_pattern } = def;
                    let _ = matcher.add(id, executables, Some(title_pattern.as_str()));
                    assert(matcher@ == register_app(old_matcher, id, dv));
                    id
                },
                None => AppId(GLOBAL_APP_NUMBER),
            };
            let ghost menu0 = menu_view(menu@);
            let mut i: usize = 0;
            while i < shortcuts.len()
                invariant
                    i <= shortcuts.len(),
                    forall|j: int| 0 <= j < i ==> (#[trigger] shortcuts@[j]).keys@.len() > 0,
                    menu_view(menu@) == index_shortcuts(menu0, app_id, shortcuts@.take(i as int)),
                decreases shortcuts.len() - i,
            {
                if shortcuts[i].keys.len() == 0 {
                    proof {
                        assert(has_empty_keys(fv));
                        assert(src.take(done.len() as int) =~= done);
                        lemma_build_err_prefix(src, done.len() as int);
                    }
                    return Err(DatabaseError::EmptyKeys { file });
                }
                index_menu_shortcut(&mut menu, app_id, &shortcuts[i]);
                assert(shortcuts@.take(i + 1).drop_last() =~= shortcuts@.take(i as int));
                i += 1;
            }
            assert(shortcuts@.take(shortcuts@.len() as int) =~= shortcuts@);
            let ghost sem0 = semantic_view(semantic@);
            let mut i: usize = 0;
            while i < semantic_actions.len()
                invariant
                    i <= semantic_actions.len(),
                    forall|j: int| 0 <= j < i ==> (#[trigger] semantic_actions@[j]).keys@.len() > 0,
                    semantic_view(semantic@) == index_actions(sem0, app_id, semantic_actions@.take(i as int)),
                decreases semantic_actions.len() - i,
            {
                if semantic_actions[i].keys.len() == 0 {
                    proof {
                        assert(has_empty_keys(fv));
                        assert(src.take(done.len() as int) =~= done);
                        lemma_build_err_prefix(src, done.len() as int);
                    }
                    return Err(DatabaseError::EmptyKeys { file });
                }
                index_semantic_action(&mut semantic, app_id, &semantic_actions[i]);
                assert(semantic_actions@.take(i + 1).drop_last() =~= semantic_actions@.take(i as int));
                i += 1;
            }
            assert(semantic_actions@.take(semantic_actions@.len() as int) =~= semantic_actions@);
            proof { lemma_index_actions_tied(sem0, app_id, semantic_actions@); }
            assert(!has_empty_keys(fv));
        }
        assert(done =~= src);
        Ok(ShortcutDatabase { matcher, menu_table: menu, semantic_table: semantic })
    }
}

// ── Lookups ──────────────────────────────────────────────────────────────────

/// What `lookup_menu` gives: the entry of the application that the identity
/// resolves to, for the platform and the normalized path; failing that, the
/// global entry for them.
pub open spec fn lookup_menu_spec(
    db: DbView,
    exe: Seq<char>,
    title: Option<Seq<char>>,
    label_path: Seq<Seq<char>>,
    platform: Platform,
) -> Option<MatchView> {
    let path = normalize_path_spec(label_path);
    let app_hit = match resolve_spec(db.matcher, exe, title) {
        Some(id) => table_get(db.menu, MenuKeyView { app_id: id, platform, path }),
        None => None,
    };
    match app_hit {
        Some(e) => Some(menu_match(e, ResolutionSource::Database)),
        None => match table_get(db.menu, MenuKeyView { app_id: global_id(), platform, path }) {
            Some(e) => Some(menu_match(e, ResolutionSource::Database)),
            None => None,
        },
    }
}

/// What `lookup_semantic` gives: the entry of the application that the
/// identity resolves to, for the platform, role and context; failing that,
/// the global entry for them.
pub open spec fn lookup_semantic_spec(
    db: DbView,
    exe: Seq<char>,
    title: Option<Seq<char>>,
    role: Seq<char>,
    context: Option<Seq<char>>,
    platform: Platform,
) -> Option<MatchView> {
    let app_hit = match resolve_spec(db.matcher, exe, title) {
        Some(id) => table_get(db.semantic, SemanticKeyView { app_id: id, platform, role, context }),
        None => None,
    };
    match app_hit {
        Some(e) => Some(semantic_match(e, ResolutionSource::Database)),
        None => match table_get(
            db.semantic,
            SemanticKeyView { app_id: global_id(), platform, role, context },
        ) {
            Some(e) => Some(semantic_match(e, ResolutionSource::Database)),
            None => None,
        },
    }
}

/// Menu entry `p` belongs to application `id` and platform `platform` and has
/// the key combination `keys`.
pub open spec fn keys_hit(p: (MenuKeyView, MenuEntryView), id: AppId, platform: Platform, keys: Seq<char>) -> bool {
    p.0.app_id == id && p.0.platform == platform && p.1.keys == keys
}

/// The first menu entry of `t` that `keys_hit` selects.
pub open spec fn find_by_keys(
    t: Seq<(MenuKeyView, MenuEntryView)>,
    id: AppId,
    platform: Platform,
    keys: Seq<char>,
) -> Option<MenuEntryView>
    decreases t.len(),
{
    if t.len() == 0 {
        None
    } else if keys_hit(t[0], id, platform, keys) {
        Some(t[0].1)
    } else {
        find_by_keys(t.drop_first(), id, platform, keys)
    }
}

/// What `lookup_by_shortcut` gives: the first menu entry, in index order, of
/// the application that the identity resolves to, for the platform, whose key
/// combination is `keys`; failing that, the first such global entry.
pub open spec fn lookup_by_shortcut_spec(
    db: DbView,
    exe: Seq<char>,
    title: Option<Seq<char>>,
    keys: Seq<char>,
    platform: Platform,
) -> Option<MatchView> {
    let app_hit = match resolve_spec(db.matcher, exe, title) {
        Some(id) => find_by_keys(db.menu, id, platform, keys),
        None => None,
    };
    match app_hit {
        Some(e) => Some(menu_match(e, ResolutionSource::Database)),
        None => match find_by_keys(db.menu, global_id(), platform, keys) {
            Some(e) => Some(menu_match(e, ResolutionSource::Database)),
            None => None,
        },
    }
}

/// Finds the first menu entry of `t` for `id` and `platform` whose keys are `keys`.
fn menu_find_by_keys<'a>(t: &'a Vec<(MenuKey, MenuEntry)>, id: AppId, platform: Platform, keys: &str) -> (r: Option<&'a MenuEntry>)
    ensures
        match r {
            Some(e) => find_by_keys(menu_view(t@), id, platform, keys@) == Some(e@),
            None => find_by_keys(menu_view(t@), id, platform, keys@) is None,
        },
{
    let ghost tv = menu_view(t@);
    let mut i: usize = 0;
    assert(tv.skip(0) =~= tv);
    while i < t.len()
        invariant
            i <= t.len(),
            tv == menu_view(t@),
            find_by_keys(tv, id, platform, keys@) == find_by_keys(tv.skip(i as int), id, platform, keys@),
        decreases t.len() - i,
    {
        assert(tv.skip(i as int)[0] == tv[i as int]);
        assert(tv.skip(i as int).drop_first() =~= tv.skip(i + 1));
        let entry = &t[i];
        if entry.0.app_id == id && entry.0.platform == platform && str_eq(entry.1.keys.as_str(), keys) {
            return Some(&entry.1);
        }
        i += 1;
    }
    None
}

impl ShortcutDatabase {
    /// Look up a menu or toolbar shortcut via Tier 2 (database).
    /// Tries app-specific entry first, then falls back to the global table.
    pub fn lookup_menu(&self, app: &AppIdentity, label_path: &[String], platform: Platform) -> (r: Option<ShortcutMatch>)
        ensures
            opt_match_view(r) == lookup_menu_spec(
                self@,
                app.executable@,
                opt_view(app.window_title),
                string_views(label_path@),
                platform,
            ),
    {
        let path = normalize_path(label_path);
        if let Some(app_id) = self.matcher.resolve(app) {
            let key = MenuKey { app_id, platform, path: copy_strings(&path) };
            if let Some(entry) = menu_get(&self.menu_table, &key) {
                return Some(entry.to_match(ResolutionSource::Database));
            }
        }
        let global_key = MenuKey { app_id: AppId(GLOBAL_APP_NUMBER), platform, path };
        match menu_get(&self.menu_table, &global_key) {
            Some(e) => Some(e.to_match(ResolutionSource::Database)),
            None => None,
        }
    }

    /// Look up a semantic action shortcut via Tier 2 (database).
    /// Tries app-specific entry first, then falls back to the global table.
    pub fn lookup_semantic(
        &self,
        app: &AppIdentity,
        role: &str,
        context: Option<&str>,
        platform: Platform,
    ) -> (r: Option<ShortcutMatch>)
        ensures
            opt_match_view(r) == lookup_semantic_spec(
                self@,
                app.executable@,
                opt_view(app.window_title),
                role@,
                match context {
                    Some(c) => Some(c@),
                    None => None::<Seq<char>>,
                },
                platform,
            ),
            r matches Some(m) ==> m.action_name@ == role@ && m.menu_path@.len() == 0,
    {
        proof { use_type_invariant(self); }
        let context_owned: Option<String> = match context {
            Some(c) => Some(c.to_owned()),
            None => None,
        };
        if let Some(app_id) = self.matcher.resolve(app) {
            let key = SemanticKey {
                app_id,
                platform,
                role: role.to_owned(),
                context: copy_opt_string(&context_owned),
            };
            if let Some(entry) = semantic_get(&self.semantic_table, &key) {
                proof { lemma_get_tied(semantic_view(self.semantic_table@), key@); }
                return Some(entry.to_match(ResolutionSource::Database));
            }
        }
        let global_key = SemanticKey {
            app_id: AppId(GLOBAL_APP_NUMBER),
            platform,
            role: role.to_owned(),
            context: context_owned,
        };
        proof { lemma_get_tied(semantic_view(self.semantic_table@), global_key@); }
        match semantic_get(&self.semantic_table, &global_key) {
            Some(e) => Some(e.to_match(ResolutionSource::Database)),
            None => None,
        }
    }

    /// Reverse lookup of a menu shortcut by its key combination, used when
    /// the accessibility API advertised a shortcut but no label: the first
    /// entry of the resolved application with these keys on `platform`,
    /// failing that the first such global entry.
    pub fn lookup_by_shortcut(&self, app: &AppIdentity, shortcut_keys: &str, platform: Platform) -> (r: Option<ShortcutMatch>)
        ensures
            opt_match_view(r) == lookup_by_shortcut_spec(
                self@,
                app.executable@,
                opt_view(app.window_title),
                shortcut_keys@,
                platform,
            ),
    {
        if let Some(app_id) = self.matcher.resolve(app) {
            if let Some(entry) = menu_find_by_keys(&self.menu_table, app_id, platform, shortcut_keys) {
                return Some(entry.to_match(ResolutionSource::Database));
            }
        }
        match menu_find_by_keys(&self.menu_table, AppId(GLOBAL_APP_NUMBER), platform, shortcut_keys) {
            Some(e) => Some(e.to_match(ResolutionSource::Database)),
            None => None,
        }
    }
}

/// A trailing `…` does not change how a menu-path segment is matched, for a
/// segment that does not end in whitespace.
pub proof fn lemma_normalize_ignores_ellipsis(s: Seq<char>)
    requires
        s.len() == 0 || !is_ws(s.last()),
    ensures
        normalize_segment_spec(s + seq!['…']) == normalize_segment_spec(s),
{
    let e = seq!['…'];
    lemma_trim_start_append(s, e);
    let t = trim_start(s);
    lemma_trim_end_unpadded(t + e);
    assert((t + e).drop_last() =~= t);
    if s.len() > 0 {
        lemma_lead_ws(s);
        assert(t.last() == s.last());
        lemma_trim_end_unpadded(t);
    } else {
        assert(t =~= s);
        assert(trim(s) =~= s);
    }
}

/// A trailing `...` does not change how a menu-path segment is matched, for
/// a segment that ends in neither whitespace nor `…`.
pub proof fn lemma_normalize_ignores_three_dots(s: Seq<char>)
    requires
        s.len() == 0 || (!is_ws(s.last()) && s.last() != '…'),
    ensures
        normalize_segment_spec(s + three_dots()) == normalize_segment_spec(s),
{
    let d = three_dots();
    lemma_trim_start_append(s, d);
    let t = trim_start(s);
    lemma_trim_end_unpadded(t + d);
    let x = t + d;
    assert(strip_end_char(x, '…') == x);
    assert(x.subrange(x.len() - 3, x.len() as int) =~= d);
    assert(x.take(x.len() - 3) =~= t);
    if s.len() > 0 {
        lemma_lead_ws(s);
        assert(t.last() == s.last());
        lemma_trim_end_unpadded(t);
        assert(strip_end_char(t, '…') == t);
    } else {
        assert(t =~= s);
        assert(trim(s) =~= s);
    }
}

/// The steps of segment normalization before lowercasing.
pub open spec fn segment_core(s: Seq<char>) -> Seq<char> {
    trim(strip_end_dots(strip_end_char(trim(s), '…')))
}

/// For all-ASCII `s`, the normalized segment is the core of the
/// ASCII-lowercased segment, and it is all ASCII.
proof fn lemma_normalize_ascii(s: Seq<char>)
    requires
        all_ascii(s),
    ensures
        normalize_segment_spec(s) == segment_core(ascii_lowercase(s)),
        all_ascii(segment_core(s)),
{
    let a = trim(s);
    lemma_trim_lower(s);
    let b = strip_end_char(a, '…');
    lemma_strip_ellipsis_lower(a);
    assert(all_ascii(b)) by {
        assert forall|i: int| 0 <= i < b.len() implies (#[trigger] b[i] as u32) < 128 by {
            assert(b[i] == a.take(b.len() as int)[i]);
        }
    }
    let c = strip_end_dots(b);
    lemma_strip_dots_lower(b);
    assert(all_ascii(c)) by {
        assert forall|i: int| 0 <= i < c.len() implies (#[trigger] c[i] as u32) < 128 by {
            assert(c[i] == b.take(c.len() as int)[i]);
        }
    }
    lemma_trim_lower(c);
}

/// For all-ASCII text, how a menu-path segment is matched does not depend on
/// ASCII case: two segments equal up to ASCII case normalize alike, and a
/// normalized segment holds no uppercase ASCII letter.
pub proof fn lemma_normalize_segment_ascii_case(s: Seq<char>, t: Seq<char>)
    requires
        all_ascii(s),
        all_ascii(t),
        eq_ignore_ascii_case(s, t),
    ensures
        normalize_segment_spec(s) == normalize_segment_spec(t),
        forall|i: int|
            0 <= i < normalize_segment_spec(s).len() ==> !is_ascii_upper(
                #[trigger] normalize_segment_spec(s)[i],
            ),
{
    lemma_normalize_ascii(s);
    lemma_normalize_ascii(t);
    assert(ascii_lowercase(s) =~= ascii_lowercase(t));
    let d = segment_core(s);
    assert forall|i: int| 0 <= i < normalize_segment_spec(s).len() implies !is_ascii_upper(
        #[trigger] normalize_segment_spec(s)[i],
    ) by {
        lemma_lower_char(d[i]);
    }
}

/// For all-ASCII `s`, the ASCII-uppercased and the ASCII-lowercased segment
/// normalize as `s` does.
pub proof fn lemma_normalize_segment_case_variants(s: Seq<char>)
    requires
        all_ascii(s),
    ensures
        normalize_segment_spec(ascii_uppercase(s)) == normalize_segment_spec(s),
        normalize_segment_spec(ascii_lowercase(s)) == normalize_segment_spec(s),
{
    let u = ascii_uppercase(s);
    let l = ascii_lowercase(s);
    assert forall|i: int| 0 <= i < s.len() implies (#[trigger] u[i] as u32) < 128
        && ascii_lower(u[i]) == ascii_lower(s[i]) by {
        lemma_upper_char(s[i]);
    }
    assert forall|i: int| 0 <= i < s.len() implies (#[trigger] l[i] as u32) < 128
        && ascii_lower(l[i]) == ascii_lower(s[i]) by {
        lemma_lower_char(s[i]);
    }
    lemma_normalize_segment_ascii_case(u, s);
    lemma_normalize_segment_ascii_case(l, s);
}

// ── Laws of the database ─────────────────────────────────────────────────────

/// The keys a key definition gives for `platform`.
pub open spec fn keys_for(k: PlatformKeys, platform: Platform) -> Option<Seq<char>> {
    match platform {
        Platform::Linux => opt_view(k.linux),
        Platform::Windows => opt_view(k.windows),
        Platform::MacOS => opt_view(k.macos),
    }
}

/// Indexing a shortcut makes it readable: afterwards the key of the
/// application, a platform and the shortcut's normalized path gives the
/// shortcut's entry with that platform's keys, when the definition has keys
/// for that platform, and what it gave before otherwise; every other key
/// gives what it gave before.
pub proof fn lemma_index_shortcut_readable(
    menu: Seq<(MenuKeyView, MenuEntryView)>,
    id: AppId,
    s: ShortcutDef,
    k: PlatformKeys,
    key: MenuKeyView,
)
    ensures
        table_get(index_menu_keys(menu, id, s, keys_list(k)), key) == if key.app_id == id
            && key.path == normalize_path_spec(string_views(s.menu_path@))
            && keys_for(k, key.platform) is Some {
            Some(menu_entry_of(s, keys_for(k, key.platform)->0))
        } else {
            table_get(menu, key)
        },
{
    let ks = keys_list(k);
    let path = normalize_path_spec(string_views(s.menu_path@));
    assert(ks.drop_last().drop_last().drop_last() =~= Seq::<(Platform, Option<Seq<char>>)>::empty());
    assert(ks.drop_last().drop_last().last() == (Platform::Linux, opt_view(k.linux)));
    assert(ks.drop_last().last() == (Platform::Windows, opt_view(k.windows)));
    assert(ks.last() == (Platform::MacOS, opt_view(k.macos)));
    let m0 = menu;
    let m1 = index_menu_keys(menu, id, s, ks.drop_last().drop_last());
    let m2 = index_menu_keys(menu, id, s, ks.drop_last());
    let m3 = index_menu_keys(menu, id, s, ks);
    assert(index_menu_keys(menu, id, s, ks.drop_last().drop_last().drop_last()) == m0);
    if let Some(x) = opt_view(k.linux) {
        crate::db::table::lemma_get_insert(
            m0,
            MenuKeyView { app_id: id, platform: Platform::Linux, path },
            menu_entry_of(s, x),
            key,
        );
    }
    if let Some(x) = opt_view(k.windows) {
        crate::db::table::lemma_get_insert(
            m1,
            MenuKeyView { app_id: id, platform: Platform::Windows, path },
            menu_entry_of(s, x),
            key,
        );
    }
    if let Some(x) = opt_view(k.macos) {
        crate::db::table::lemma_get_insert(
            m2,
            MenuKeyView { app_id: id, platform: Platform::MacOS, path },
            menu_entry_of(s, x),
            key,
        );
    }
}

/// Indexing a semantic action makes it readable: afterwards the key of the
/// application, a platform, the action's role and context gives the
/// action's entry with that platform's keys, when the definition has keys
/// for that platform, and what it gave before otherwise; every other key
/// gives what it gave before.
pub proof fn lemma_index_action_readable(
    sem: Seq<(SemanticKeyView, SemanticEntryView)>,
    id: AppId,
    a: SemanticActionDef,
    k: PlatformKeys,
    key: SemanticKeyView,
)
    ensures
        table_get(index_action_keys(sem, id, a, keys_list(k)), key) == if key.app_id == id
            && key.role == a.role@ && key.context == opt_view(a.context)
            && keys_for(k, key.platform) is Some {
            Some(
                SemanticEntryView {
                    keys: keys_for(k, key.platform)->0,
                    description: a.description@,
                    role: a.role@,
                },
            )
        } else {
            table_get(sem, key)
        },
{
    let ks = keys_list(k);
    assert(ks.drop_last().drop_last().drop_last() =~= Seq::<(Platform, Option<Seq<char>>)>::empty());
    assert(ks.drop_last().drop_last().last() == (Platform::Linux, opt_view(k.linux)));
    assert(ks.drop_last().last() == (Platform::Windows, opt_view(k.windows)));
    assert(ks.last() == (Platform::MacOS, opt_view(k.macos)));
    let m0 = sem;
    let m1 = index_action_keys(sem, id, a, ks.drop_last().drop_last());
    let m2 = index_action_keys(sem, id, a, ks.drop_last());
    assert(index_action_keys(sem, id, a, ks.drop_last().drop_last().drop_last()) == m0);
    let e = |x: Seq<char>| SemanticEntryView { keys: x, description: a.description@, role: a.role@ };
    if let Some(x) = opt_view(k.linux) {
        crate::db::table::lemma_get_insert(
            m0,
            SemanticKeyView { app_id: id, platform: Platform::Linux, role: a.role@, context: opt_view(a.context) },
            e(x),
            key,
        );
    }
    if let Some(x) = opt_view(k.windows) {
        crate::db::table::lemma_get_insert(
            m1,
            SemanticKeyView { app_id: id, platform: Platform::Windows, role: a.role@, context: opt_view(a.context) },
            e(x),
            key,
        );
    }
    if let Some(x) = opt_view(k.macos) {
        crate::db::table::lemma_get_insert(
            m2,
            SemanticKeyView { app_id: id, platform: Platform::MacOS, role: a.role@, context: opt_view(a.context) },
            e(x),
            key,
        );
    }
}

/// Indexing the semantic actions of application `id` leaves every key of
/// another application as it was.
pub proof fn lemma_index_actions_other_apps(
    sem: Seq<(SemanticKeyView, SemanticEntryView)>,
    id: AppId,
    aa: Seq<SemanticActionDef>,
    key: SemanticKeyView,
)
    requires
        key.app_id != id,
    ensures
        table_get(index_actions(sem, id, aa), key) == table_get(sem, key),
    decreases aa.len(),
{
    if aa.len() > 0 {
        lemma_index_actions_other_apps(sem, id, aa.drop_last(), key);
        lemma_index_action_readable(
            index_actions(sem, id, aa.drop_last()),
            id,
            aa.last(),
            aa.last().keys@[0],
            key,
        );
    }
}

/// Indexing the shortcuts of application `id` leaves every key of another
/// application as it was.
pub proof fn lemma_index_shortcuts_other_apps(
    menu: Seq<(MenuKeyView, MenuEntryView)>,
    id: AppId,
    ss: Seq<ShortcutDef>,
    key: MenuKeyView,
)
    requires
        key.app_id != id,
    ensures
        table_get(index_shortcuts(menu, id, ss), key) == table_get(menu, key),
    decreases ss.len(),
{
    if ss.len() > 0 {
        lemma_index_shortcuts_other_apps(menu, id, ss.drop_last(), key);
        lemma_index_shortcut_readable(
            index_shortcuts(menu, id, ss.drop_last()),
            id,
            ss.last(),
            ss.last().keys@[0],
            key,
        );
    }
}

/// A file with an `[app]` section gets its own application ID: indexing it
/// leaves every menu and semantic key of another application, the global
/// ones included, as it was, and the ID it takes is the next one.
pub proof fn lemma_index_app_file_isolated(
    st: BuildState,
    f: AppFile,
    mkey: MenuKeyView,
    skey: SemanticKeyView,
)
    requires
        f.app is Some,
        1 <= st.next_id <= u32::MAX,
        mkey.app_id != AppId(st.next_id as u32),
        skey.app_id != AppId(st.next_id as u32),
    ensures
        table_get(index_file(st, f).db.menu, mkey) == table_get(st.db.menu, mkey),
        table_get(index_file(st, f).db.semantic, skey) == table_get(st.db.semantic, skey),
        table_get(index_file(st, f).db.menu, MenuKeyView { app_id: global_id(), ..mkey })
            == table_get(st.db.menu, MenuKeyView { app_id: global_id(), ..mkey }),
        table_get(index_file(st, f).db.semantic, SemanticKeyView { app_id: global_id(), ..skey })
            == table_get(st.db.semantic, SemanticKeyView { app_id: global_id(), ..skey }),
        index_file(st, f).next_id == st.next_id + 1,
{
    let id = AppId(st.next_id as u32);
    lemma_index_shortcuts_other_apps(st.db.menu, id, f.shortcuts@, mkey);
    lemma_index_actions_other_apps(st.db.semantic, id, f.semantic_actions@, skey);
    lemma_index_shortcuts_other_apps(
        st.db.menu,
        id,
        f.shortcuts@,
        MenuKeyView { app_id: global_id(), ..mkey },
    );
    lemma_index_actions_other_apps(
        st.db.semantic,
        id,
        f.semantic_actions@,
        SemanticKeyView { app_id: global_id(), ..skey },
    );
}

/// A file without an `[app]` section is global: indexing it leaves every key
/// of an application as it was, and takes no ID.
pub proof fn lemma_index_global_file_isolated(
    st: BuildState,
    f: AppFile,
    mkey: MenuKeyView,
    skey: SemanticKeyView,
)
    requires
        f.app is None,
        mkey.app_id != global_id(),
        skey.app_id != global_id(),
    ensures
        table_get(index_file(st, f).db.menu, mkey) == table_get(st.db.menu, mkey),
        table_get(index_file(st, f).db.semantic, skey) == table_get(st.db.semantic, skey),
        index_file(st, f).next_id == st.next_id,
        index_file(st, f).db.matcher == st.db.matcher,
{
    lemma_index_shortcuts_other_apps(st.db.menu, global_id(), f.shortcuts@, mkey);
    lemma_index_actions_other_apps(st.db.semantic, global_id(), f.semantic_actions@, skey);
}

/// The last semantic action of an application file is readable under the
/// file's own ID: the key of that ID, a platform the action has keys for,
/// the action's role and context gives the action's entry.
pub proof fn lemma_index_app_file_semantic_readable(st: BuildState, f: AppFile, platform: Platform)
    requires
        f.app is Some,
        f.semantic_actions@.len() > 0,
        keys_for(f.semantic_actions@.last().keys@[0], platform) is Some,
    ensures
        ({
            let a = f.semantic_actions@.last();
            table_get(
                index_file(st, f).db.semantic,
                SemanticKeyView {
                    app_id: AppId(st.next_id as u32),
                    platform,
                    role: a.role@,
                    context: opt_view(a.context),
                },
            ) == Some(
                SemanticEntryView {
                    keys: keys_for(a.keys@[0], platform)->0,
                    description: a.description@,
                    role: a.role@,
                },
            )
        }),
{
    let aa = f.semantic_actions@;
    let a = aa.last();
    let id = AppId(st.next_id as u32);
    lemma_index_action_readable(
        index_actions(st.db.semantic, id, aa.drop_last()),
        id,
        a,
        a.keys@[0],
        SemanticKeyView { app_id: id, platform, role: a.role@, context: opt_view(a.context) },
    );
}

/// The last shortcut of an application file is readable under the file's own
/// ID: the key of that ID, a platform the shortcut has keys for and the
/// shortcut's normalized path gives the shortcut's entry.
pub proof fn lemma_index_app_file_menu_readable(st: BuildState, f: AppFile, platform: Platform)
    requires
        f.app is Some,
        f.shortcuts@.len() > 0,
        keys_for(f.shortcuts@.last().keys@[0], platform) is Some,
    ensures
        ({
            let s = f.shortcuts@.last();
            table_get(
                index_file(st, f).db.menu,
                MenuKeyView {
                    app_id: AppId(st.next_id as u32),
                    platform,
                    path: normalize_path_spec(string_views(s.menu_path@)),
                },
            ) == Some(menu_entry_of(s, keys_for(s.keys@[0], platform)->0))
        }),
{
    let ss = f.shortcuts@;
    let s = ss.last();
    let id = AppId(st.next_id as u32);
    lemma_index_shortcut_readable(
        index_shortcuts(st.db.menu, id, ss.drop_last()),
        id,
        s,
        s.keys@[0],
        MenuKeyView { app_id: id, platform, path: normalize_path_spec(string_views(s.menu_path@)) },
    );
}

/// Every semantic action indexed for application `id` is readable unless a
/// later action of the run, with the same role and context and keys for the
/// platform, replaced it: the key of `id`, the platform, the action's role
/// and context gives the action's entry.
pub proof fn lemma_index_actions_readable(
    sem: Seq<(SemanticKeyView, SemanticEntryView)>,
    id: AppId,
    aa: Seq<SemanticActionDef>,
    i: int,
    platform: Platform,
)
    requires
        0 <= i < aa.len(),
        keys_for(aa[i].keys@[0], platform) is Some,
        forall|j: int|
            i < j < aa.len() ==> !((#[trigger] aa[j]).role@ == aa[i].role@ && opt_view(aa[j].context)
                == opt_view(aa[i].context) && keys_for(aa[j].keys@[0], platform) is Some),
    ensures
        table_get(
            index_actions(sem, id, aa),
            SemanticKeyView { app_id: id, platform, role: aa[i].role@, context: opt_view(aa[i].context) },
        ) == Some(
            SemanticEntryView {
                keys: keys_for(aa[i].keys@[0], platform)->0,
                description: aa[i].description@,
                role: aa[i].role@,
            },
        ),
    decreases aa.len(),
{
    let key = SemanticKeyView { app_id: id, platform, role: aa[i].role@, context: opt_view(aa[i].context) };
    let d = aa.drop_last();
    lemma_index_action_readable(index_actions(sem, id, d), id, aa.last(), aa.last().keys@[0], key);
    if i < aa.len() - 1 {
        assert(aa[aa.len() - 1] == aa.last());
        assert forall|j: int| i < j < d.len() implies !((#[trigger] d[j]).role@ == d[i].role@ && opt_view(
            d[j].context,
        ) == opt_view(d[i].context) && keys_for(d[j].keys@[0], platform) is Some) by {
            assert(d[j] == aa[j]);
        }
        lemma_index_actions_readable(sem, id, d, i, platform);
    }
}

/// Every shortcut indexed for application `id` is readable unless a later
/// shortcut of the run, with the same normalized path and keys for the
/// platform, replaced it: the key of `id`, the platform and the shortcut's
/// normalized path gives the shortcut's entry.
pub proof fn lemma_index_shortcuts_readable(
    menu: Seq<(MenuKeyView, MenuEntryView)>,
    id: AppId,
    ss: Seq<ShortcutDef>,
    i: int,
    platform: Platform,
)
    requires
        0 <= i < ss.len(),
        keys_for(ss[i].keys@[0], platform) is Some,
        forall|j: int|
            i < j < ss.len() ==> !(normalize_path_spec(string_views((#[trigger] ss[j]).menu_path@))
                == normalize_path_spec(string_views(ss[i].menu_path@)) && keys_for(ss[j].keys@[0], platform)
                is Some),
    ensures
        table_get(
            index_shortcuts(menu, id, ss),
            MenuKeyView { app_id: id, platform, path: normalize_path_spec(string_views(ss[i].menu_path@)) },
        ) == Some(menu_entry_of(ss[i], keys_for(ss[i].keys@[0], platform)->0)),
    decreases ss.len(),
{
    let key = MenuKeyView { app_id: id, platform, path: normalize_path_spec(string_views(ss[i].menu_path@)) };
    let d = ss.drop_last();
    lemma_index_shortcut_readable(index_shortcuts(menu, id, d), id, ss.last(), ss.last().keys@[0], key);
    if i < ss.len() - 1 {
        assert(ss[ss.len() - 1] == ss.last());
        assert forall|j: int| i < j < d.len() implies !(normalize_path_spec(
            string_views((#[trigger] d[j]).menu_path@),
        ) == normalize_path_spec(string_views(d[i].menu_path@)) && keys_for(d[j].keys@[0], platform) is Some) by {
            assert(d[j] == ss[j]);
        }
        lemma_index_shortcuts_readable(menu, id, d, i, platform);
    }
}

/// The ID a file's entries are indexed under: the next application ID for a
/// file with an `[app]` section, the global ID otherwise.
pub open spec fn file_id(st: BuildState, f: AppFile) -> AppId {
    match f.app {
        Some(_) => AppId(st.next_id as u32),
        None => global_id(),
    }
}

/// Every semantic action of a file that no later action of the file
/// replaced is readable under the file's ID (its own application ID, or the
/// global ID for a file without `[app]`).
pub proof fn lemma_index_file_semantic_readable(st: BuildState, f: AppFile, i: int, platform: Platform)
    requires
        0 <= i < f.semantic_actions@.len(),
        keys_for(f.semantic_actions@[i].keys@[0], platform) is Some,
        forall|j: int|
            i < j < f.semantic_actions@.len() ==> !((#[trigger] f.semantic_actions@[j]).role@
                == f.semantic_actions@[i].role@ && opt_view(f.semantic_actions@[j].context) == opt_view(
                f.semantic_actions@[i].context,
            ) && keys_for(f.semantic_actions@[j].keys@[0], platform) is Some),
    ensures
        ({
            let a = f.semantic_actions@[i];
            table_get(
                index_file(st, f).db.semantic,
                SemanticKeyView { app_id: file_id(st, f), platform, role: a.role@, context: opt_view(a.context) },
            ) == Some(
                SemanticEntryView {
                    keys: keys_for(a.keys@[0], platform)->0,
                    description: a.description@,
                    role: a.role@,
                },
            )
        }),
{
    lemma_index_actions_readable(st.db.semantic, file_id(st, f), f.semantic_actions@, i, platform);
}

/// Every shortcut of a file that no later shortcut of the file replaced is
/// readable under the file's ID.
pub proof fn lemma_index_file_menu_readable(st: BuildState, f: AppFile, k: int, platform: Platform)
    requires
        0 <= k < f.shortcuts@.len(),
        keys_for(f.shortcuts@[k].keys@[0], platform) is Some,
        forall|j: int|
            k < j < f.shortcuts@.len() ==> !(normalize_path_spec(
                string_views((#[trigger] f.shortcuts@[j]).menu_path@),
            ) == normalize_path_spec(string_views(f.shortcuts@[k].menu_path@)) && keys_for(
                f.shortcuts@[j].keys@[0],
                platform,
            ) is Some),
    ensures
        ({
            let s = f.shortcuts@[k];
            table_get(
                index_file(st, f).db.menu,
                MenuKeyView {
                    app_id: file_id(st, f),
                    platform,
                    path: normalize_path_spec(string_views(s.menu_path@)),
                },
            ) == Some(menu_entry_of(s, keys_for(s.keys@[0], platform)->0))
        }),
{
    lemma_index_shortcuts_readable(st.db.menu, file_id(st, f), f.shortcuts@, k, platform);
}

/// Building with one more application file indexes it after the others
/// under the next application ID: the semantic and menu keys of every other
/// application, the global ones included, read as they did before it.
pub proof fn lemma_build_app_source(
    s: Seq<(&'static str, Result<AppFile, toml::de::Error>)>,
    name: &'static str,
    f: AppFile,
    mkey: MenuKeyView,
    skey: SemanticKeyView,
)
    requires
        build_spec(s) is Ok,
        s.len() < u32::MAX,
        f.app is Some,
        !has_empty_keys(f),
    ensures
        match build_spec(s) {
            Ok(st) => {
                &&& build_spec(s.push((name, Ok(f)))) == Ok::<BuildState, DatabaseError>(index_file(st, f))
                &&& global_id() != AppId(st.next_id as u32)
                &&& (mkey.app_id != AppId(st.next_id as u32) ==> table_get(index_file(st, f).db.menu, mkey)
                    == table_get(st.db.menu, mkey))
                &&& (skey.app_id != AppId(st.next_id as u32) ==> table_get(
                    index_file(st, f).db.semantic,
                    skey,
                ) == table_get(st.db.semantic, skey))
            },
            Err(_) => true,
        },
{
    lemma_build_next_id(s);
    assert(s.push((name, Ok(f))).drop_last() =~= s);
    if let Ok(st) = build_spec(s) {
        if mkey.app_id != AppId(st.next_id as u32) && skey.app_id != AppId(st.next_id as u32) {
            lemma_index_app_file_isolated(st, f, mkey, skey);
        } else if mkey.app_id != AppId(st.next_id as u32) {
            lemma_index_shortcuts_other_apps(st.db.menu, AppId(st.next_id as u32), f.shortcuts@, mkey);
        } else if skey.app_id != AppId(st.next_id as u32) {
            lemma_index_actions_other_apps(st.db.semantic, AppId(st.next_id as u32), f.semantic_actions@, skey);
        }
    }
}

/// `find_by_keys` finds the first entry that `keys_hit` selects: it finds
/// nothing exactly when no entry is selected, and what it finds is the entry
/// of a selected position before which none is selected.
pub proof fn lemma_find_by_keys(
    t: Seq<(MenuKeyView, MenuEntryView)>,
    id: AppId,
    platform: Platform,
    keys: Seq<char>,
)
    ensures
        (find_by_keys(t, id, platform, keys) is None) <==> (forall|i: int|
            0 <= i < t.len() ==> !keys_hit(#[trigger] t[i], id, platform, keys)),
        find_by_keys(t, id, platform, keys) matches Some(e) ==> exists|i: int|
            0 <= i < t.len() && keys_hit(#[trigger] t[i], id, platform, keys) && t[i].1 == e && forall|j: int|
                0 <= j < i ==> !keys_hit(#[trigger] t[j], id, platform, keys),
    decreases t.len(),
{
    if t.len() > 0 {
        let d = t.drop_first();
        lemma_find_by_keys(d, id, platform, keys);
        if !keys_hit(t[0], id, platform, keys) {
            assert forall|i: int| 0 <= i < d.len() implies d[i] == t[i + 1] by {}
            if find_by_keys(d, id, platform, keys) is None {
                assert forall|i: int| 0 <= i < t.len() implies !keys_hit(#[trigger] t[i], id, platform, keys) by {
                    if i > 0 {
                        assert(t[i] == d[i - 1]);
                    }
                }
            } else {
                let e = find_by_keys(d, id, platform, keys)->0;
                let w = choose|i: int|
                    0 <= i < d.len() && keys_hit(#[trigger] d[i], id, platform, keys) && d[i].1 == e
                        && forall|j: int| 0 <= j < i ==> !keys_hit(#[trigger] d[j], id, platform, keys);
                assert(keys_hit(t[w + 1], id, platform, keys) && t[w + 1].1 == e);
                assert forall|j: int| 0 <= j < w + 1 implies !keys_hit(#[trigger] t[j], id, platform, keys) by {
                    if j > 0 {
                        assert(t[j] == d[j - 1]);
                    }
                }
            }
        }
    }
}

/// The reverse lookup falls back to the global table: when the identity
/// resolves to no application, or to one without a menu entry with these
/// keys on the platform, the lookup gives the first global entry with them,
/// and it finds one whenever the global table has one.
pub proof fn lemma_lookup_by_shortcut_global_fallback(
    db: DbView,
    exe: Seq<char>,
    title: Option<Seq<char>>,
    keys: Seq<char>,
    platform: Platform,
)
    requires
        resolve_spec(db.matcher, exe, title) matches Some(id) ==> forall|i: int|
            0 <= i < db.menu.len() ==> !keys_hit(#[trigger] db.menu[i], id, platform, keys),
    ensures
        lookup_by_shortcut_spec(db, exe, title, keys, platform) == match find_by_keys(
            db.menu,
            global_id(),
            platform,
            keys,
        ) {
            Some(e) => Some(menu_match(e, ResolutionSource::Database)),
            None => None::<MatchView>,
        },
        (exists|j: int| 0 <= j < db.menu.len() && keys_hit(#[trigger] db.menu[j], global_id(), platform, keys))
            ==> (lookup_by_shortcut_spec(db, exe, title, keys, platform) matches Some(m) && m.shortcut_keys
            == keys && m.source == ResolutionSource::Database),
{
    lemma_find_by_keys(db.menu, global_id(), platform, keys);
    if let Some(id) = resolve_spec(db.matcher, exe, title) {
        lemma_find_by_keys(db.menu, id, platform, keys);
    }
}

/// The application's own entry wins in the reverse lookup: when the identity
/// resolves to an application that has a menu entry with these keys on the
/// platform, the lookup gives the first of that application's entries with
/// them, in index order.
pub proof fn lemma_lookup_by_shortcut_prefers_app(
    db: DbView,
    exe: Seq<char>,
    title: Option<Seq<char>>,
    keys: Seq<char>,
    platform: Platform,
    id: AppId,
)
    requires
        resolve_spec(db.matcher, exe, title) == Some(id),
        exists|i: int| 0 <= i < db.menu.len() && keys_hit(#[trigger] db.menu[i], id, platform, keys),
    ensures
        lookup_by_shortcut_spec(db, exe, title, keys, platform) matches Some(m) && exists|i: int|
            0 <= i < db.menu.len() && keys_hit(#[trigger] db.menu[i], id, platform, keys) && m == menu_match(
                db.menu[i].1,
                ResolutionSource::Database,
            ) && forall|j: int| 0 <= j < i ==> !keys_hit(#[trigger] db.menu[j], id, platform, keys),
{
    lemma_find_by_keys(db.menu, id, platform, keys);
}

/// The application's own entry wins over the global one: when the identity
/// resolves to an application that has an entry for the platform and the
/// normalized path, the lookup gives that entry.
pub proof fn lemma_lookup_menu_prefers_app(
    db: DbView,
    exe: Seq<char>,
    title: Option<Seq<char>>,
    label_path: Seq<Seq<char>>,
    platform: Platform,
    id: AppId,
    e: MenuEntryView,
)
    requires
        resolve_spec(db.matcher, exe, title) == Some(id),
        table_get(db.menu, MenuKeyView { app_id: id, platform, path: normalize_path_spec(label_path) })
            == Some(e),
    ensures
        lookup_menu_spec(db, exe, title, label_path, platform) == Some(
            menu_match(e, ResolutionSource::Database),
        ),
{
}

/// Without an entry of its own application, the lookup falls back to the
/// global entry for the platform and the normalized path.
pub proof fn lemma_lookup_menu_global_fallback(
    db: DbView,
    exe: Seq<char>,
    title: Option<Seq<char>>,
    label_path: Seq<Seq<char>>,
    platform: Platform,
)
    requires
        match resolve_spec(db.matcher, exe, title) {
            Some(id) => table_get(
                db.menu,
                MenuKeyView { app_id: id, platform, path: normalize_path_spec(label_path) },
            ) is None,
            None => true,
        },
    ensures
        lookup_menu_spec(db, exe, title, label_path, platform) == match table_get(
            db.menu,
            MenuKeyView { app_id: global_id(), platform, path: normalize_path_spec(label_path) },
        ) {
            Some(e) => Some(menu_match(e, ResolutionSource::Database)),
            None => None::<MatchView>,
        },
{
}

/// Menu paths that normalize alike (differing only in case, surrounding
/// whitespace and trailing ellipses) are looked up alike.
pub proof fn lemma_lookup_menu_normalized(
    db: DbView,
    exe: Seq<char>,
    title: Option<Seq<char>>,
    p1: Seq<Seq<char>>,
    p2: Seq<Seq<char>>,
    platform: Platform,
)
    requires
        normalize_path_spec(p1) == normalize_path_spec(p2),
    ensures
        lookup_menu_spec(db, exe, title, p1, platform) == lookup_menu_spec(db, exe, title, p2, platform),
{
}

/// Menu lookup ignores ASCII case: all-ASCII paths whose segments are equal
/// up to ASCII case are looked up alike.
pub proof fn lemma_lookup_menu_ascii_case(
    db: DbView,
    exe: Seq<char>,
    title: Option<Seq<char>>,
    p1: Seq<Seq<char>>,
    p2: Seq<Seq<char>>,
    platform: Platform,
)
    requires
        p1.len() == p2.len(),
        forall|i: int|
            0 <= i < p1.len() ==> all_ascii(#[trigger] p1[i]) && all_ascii(p2[i])
                && eq_ignore_ascii_case(p1[i], p2[i]),
    ensures
        lookup_menu_spec(db, exe, title, p1, platform) == lookup_menu_spec(db, exe, title, p2, platform),
{
    assert forall|i: int| 0 <= i < p1.len() implies normalize_segment_spec(#[trigger] p1[i])
        == normalize_segment_spec(p2[i]) by {
        lemma_normalize_segment_ascii_case(p1[i], p2[i]);
    }
    assert(normalize_path_spec(p1) =~= normalize_path_spec(p2));
}

/// Every database match is marked as coming from the database.
pub proof fn lemma_database_matches_are_tier2(
    db: DbView,
    exe: Seq<char>,
    title: Option<Seq<char>>,
    label_path: Seq<Seq<char>>,
    role: Seq<char>,
    context: Option<Seq<char>>,
    keys: Seq<char>,
    platform: Platform,
)
    ensures
        lookup_menu_spec(db, exe, title, label_path, platform) matches Some(m) ==> m.source
            == ResolutionSource::Database,
        lookup_semantic_spec(db, exe, title, role, context, platform) matches Some(m) ==> m.source
            == ResolutionSource::Database,
        lookup_by_shortcut_spec(db, exe, title, keys, platform) matches Some(m) ==> m.source
            == ResolutionSource::Database,
{
}

} // verus!
