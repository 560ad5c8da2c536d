//! The decisions of the Linux (AT-SPI2) detection engine: which accessibility
//! events are activations, which elements are menu items, how the menu path
//! is collected while walking up the accessibility tree, and how shortcut
//! strings and labels are read from accessibility attributes. The bus
//! traffic itself is done by the daemon, which feeds these functions.

use vstd::prelude::*;
use crate::text::{
    chars_of, is_whitespace, is_ws, lacks, lemma_lead_ws_is, lemma_split_concat, lemma_split_pieces,
    lemma_split_plain, lower_text, split,
    split_chars, string_of, string_views, sub_chars, to_lowercase, trim_start,
};
use crate::types::{opt_view, AppIdentity};

verus! {

/// The Linux detection engine (AT-SPI2 backend).
pub struct LinuxDetectionEngine;

impl LinuxDetectionEngine {
    /// A new engine.
    pub fn new() -> Self {
        LinuxDetectionEngine
    }
}

// ── Accessibility roles and states ───────────────────────────────────────────

/// The accessibility roles the engine tells apart.
#[derive(Debug, Clone, Copy, PartialEq, Eq, Structural)]
pub enum AccessibleRole {
    MenuItem,
    CheckMenuItem,
    RadioMenuItem,
    MenuBar,
    Frame,
    Application,
    Dialog,
    Window,
    /// Any other role.
    Other,
}

/// The accessibility states the engine tells apart.
#[derive(Debug, Clone, Copy, PartialEq, Eq, Structural)]
pub enum AccessibleState {
    Selected,
    Focused,
    /// Any other state.
    Other,
}

/// Elements whose activation produces an event: plain, check and radio menu items.
pub open spec fn is_menu_item_role_spec(role: AccessibleRole) -> bool {
    role == AccessibleRole::MenuItem || role == AccessibleRole::CheckMenuItem || role
        == AccessibleRole::RadioMenuItem
}

/// Ancestors that end the menu path: the menu bar and the window-level roots.
pub open spec fn ends_menu_path_spec(role: AccessibleRole) -> bool {
    role == AccessibleRole::MenuBar || role == AccessibleRole::Frame || role
        == AccessibleRole::Application || role == AccessibleRole::Dialog || role
        == AccessibleRole::Window
}

/// Whether an element of this role produces an activation event.
pub fn is_menu_item_role(role: AccessibleRole) -> (b: bool)
    ensures
        b == is_menu_item_role_spec(role),
{
    role == AccessibleRole::MenuItem || role == AccessibleRole::CheckMenuItem || role
        == AccessibleRole::RadioMenuItem
}

/// Whether an ancestor of this role ends the menu path.
pub fn ends_menu_path(role: AccessibleRole) -> (b: bool)
    ensures
        b == ends_menu_path_spec(role),
{
    role == AccessibleRole::MenuBar || role == AccessibleRole::Frame || role
        == AccessibleRole::Application || role == AccessibleRole::Dialog || role
        == AccessibleRole::Window
}

/// Whether a state-change event is an activation: a `Selected` (GTK3 and
/// others) or `Focused` (GTK4) state being switched on.
pub fn is_activation(state: AccessibleState, enabled: bool) -> (b: bool)
    ensures
        b == ((state == AccessibleState::Selected || state == AccessibleState::Focused) && enabled),
{
    (state == AccessibleState::Selected || state == AccessibleState::Focused) && enabled
}

// ── Shortcut attributes ──────────────────────────────────────────────────────

/// Number of leading non-whitespace characters of `s`.
pub open spec fn word_len(s: Seq<char>) -> nat
    decreases s.len(),
{
    if s.len() > 0 && !is_ws(s[0]) {
        1 + word_len(s.drop_first())
    } else {
        0
    }
}

/// The first whitespace-separated word of `s`, if `s` has one.
pub open spec fn first_word(s: Seq<char>) -> Option<Seq<char>> {
    let t = trim_start(s);
    if t.len() == 0 {
        None
    } else {
        Some(t.take(word_len(t) as int))
    }
}

/// A non-whitespace run of length `k` followed by whitespace (or the end)
/// means `word_len(s) == k`.
proof fn lemma_word_len_is(s: Seq<char>, k: int)
    requires
        0 <= k <= s.len(),
        forall|j: int| 0 <= j < k ==> !is_ws(#[trigger] s[j]),
        k == s.len() || is_ws(s[k]),
    ensures
        word_len(s) == k,
    decreases k,
{
    if k > 0 {
        let t = s.drop_first();
        assert forall|j: int| 0 <= j < k - 1 implies !is_ws(#[trigger] t[j]) by {
            assert(t[j] == s[j + 1]);
        }
        if k < s.len() {
            assert(t[k - 1] == s[k]);
        }
        lemma_word_len_is(t, k - 1);
    }
}

/// Parses the primary shortcut of a GTK4 ARIA `keyshortcuts` attribute: the
/// value lists space-separated alternatives ("Control+N Alt+n"); the first
/// is taken.
pub fn parse_primary_shortcut(s: &str) -> (r: Option<String>)
    ensures
        opt_view(r) == first_word(s@),
{
    let v = chars_of(s);
    let n = v.len();
    let mut lo: usize = 0;
    while lo < n && is_whitespace(v[lo])
        invariant
            lo <= n == v.len(),
            v@ == s@,
            forall|j: int| 0 <= j < lo ==> is_ws(#[trigger] v@[j]),
        decreases n - lo,
    {
        lo += 1;
    }
    proof {
        lemma_lead_ws_is(v@, lo as int);
    }
    if lo == n {
        return None;
    }
    let mut hi: usize = lo;
    while hi < n && !is_whitespace(v[hi])
        invariant
            lo <= hi <= n == v.len(),
            forall|j: int| lo <= j < hi ==> !is_ws(#[trigger] v@[j]),
        decreases n - hi,
    {
        hi += 1;
    }
    let ghost t = trim_start(v@);
    proof {
        assert(t =~= v@.subrange(lo as int, n as int));
        assert forall|j: int| 0 <= j < hi - lo implies !is_ws(#[trigger] t[j]) by {
            assert(t[j] == v@[j + lo]);
        }
        if hi < n {
            assert(t[hi - lo] == v@[hi as int]);
        }
        lemma_word_len_is(t, (hi - lo) as int);
        assert(t.take((hi - lo) as int) =~= v@.subrange(lo as int, hi as int));
    }
    let w = sub_chars(&v, lo, hi);
    Some(string_of(&w))
}

/// The shortcut field of an AT-SPI2 key binding "mnemonic;sequence;shortcut":
/// the third `;`-separated field, when it is present and not empty.
pub open spec fn key_binding_shortcut(binding: Seq<char>) -> Option<Seq<char>> {
    let fields = split(binding, ';');
    if fields.len() > 2 && fields[2].len() > 0 {
        Some(fields[2])
    } else {
        None
    }
}

/// Reads the keyboard shortcut out of an AT-SPI2 key binding string.
pub fn parse_key_binding(binding: &str) -> (r: Option<String>)
    ensures
        opt_view(r) == key_binding_shortcut(binding@),
{
    let v = chars_of(binding);
    let fields = split_chars(&v, ';');
    if fields.len() > 2 && fields[2].len() > 0 {
        proof {
            assert(crate::text::views(fields@)[2] == fields@[2]@);
        }
        Some(string_of(&fields[2]))
    } else {
        proof {
            if fields@.len() > 2 {
                assert(crate::text::views(fields@)[2] == fields@[2]@);
            }
        }
        None
    }
}

/// The shortcut read from a key binding is only ever its third
/// `;`-separated field: present when that field exists and is not empty,
/// and absent otherwise, whatever the mnemonic and the sequence hold.
pub proof fn lemma_key_binding_third_field(b: Seq<char>)
    ensures
        key_binding_shortcut(b) matches Some(s) ==> s == split(b, ';')[2] && s.len() > 0,
        split(b, ';').len() <= 2 || split(b, ';')[2].len() == 0 ==> key_binding_shortcut(b) is None,
        split(b, ';').len() > 2 && split(b, ';')[2].len() > 0 ==> key_binding_shortcut(b) == Some(
            split(b, ';')[2],
        ),
{
}

/// For a binding "mnemonic;sequence;shortcut", with or without further
/// fields, the shortcut read is the shortcut field when it is not empty and
/// nothing when it is empty.
pub proof fn lemma_key_binding_fields(m: Seq<char>, q: Seq<char>, s: Seq<char>, rest: Seq<char>)
    requires
        lacks(m, ';'),
        lacks(q, ';'),
        lacks(s, ';'),
    ensures
        key_binding_shortcut(m + seq![';'] + q + seq![';'] + s) == if s.len() > 0 {
            Some(s)
        } else {
            None::<Seq<char>>
        },
        key_binding_shortcut(m + seq![';'] + q + seq![';'] + s + seq![';'] + rest) == if s.len() > 0 {
            Some(s)
        } else {
            None::<Seq<char>>
        },
{
    lemma_split_plain(m, ';');
    lemma_split_plain(q, ';');
    lemma_split_plain(s, ';');
    let x = m + seq![';'] + q;
    lemma_split_concat(m, q, ';');
    let y = x + seq![';'] + s;
    lemma_split_concat(x, s, ';');
    assert(split(y, ';') =~= seq![m, q, s]);
    lemma_split_concat(y, rest, ';');
    lemma_split_pieces(rest, ';');
    assert(split(y + seq![';'] + rest, ';')[2] == s);
}

// ── Activated items ──────────────────────────────────────────────────────────

/// What becomes of an activated menu item once its name and the shortcut of
/// its attributes are known.
#[derive(Debug, Clone, Copy, PartialEq, Eq, Structural)]
pub enum ItemPlan {
    /// Neither a name nor a shortcut: no event.
    Drop,
    /// A shortcut but no name: an event with an empty label path.
    Unnamed,
    /// A name: an event whose label path is walked up from the item.
    Named,
}

/// Decides what to make of an activated menu item: an event needs at least
/// a name or a shortcut, and only a named item has a menu path.
pub fn plan_item(name: &str, attr_shortcut: &Option<String>) -> (p: ItemPlan)
    ensures
        p == (if name@.len() > 0 {
            ItemPlan::Named
        } else if attr_shortcut is Some {
            ItemPlan::Unnamed
        } else {
            ItemPlan::Drop
        }),
{
    if !name.is_empty() {
        ItemPlan::Named
    } else if attr_shortcut.is_some() {
        ItemPlan::Unnamed
    } else {
        ItemPlan::Drop
    }
}

// ── Labels ───────────────────────────────────────────────────────────────────

/// The label of a child element: its accessible name, or failing that its
/// description; nothing when both are empty.
pub fn child_label(name: &str, description: &str) -> (r: Option<String>)
    ensures
        opt_view(r) == (if name@.len() > 0 {
            Some(name@)
        } else if description@.len() > 0 {
            Some(description@)
        } else {
            None
        }),
{
    if !name.is_empty() {
        Some(name.to_owned())
    } else if !description.is_empty() {
        Some(description.to_owned())
    } else {
        None
    }
}

/// Where the shortcut of an activated item comes from.
#[derive(Debug, Clone, PartialEq, Eq)]
pub enum ShortcutSource {
    /// The item's `keyshortcuts` attribute gave this shortcut.
    Attributes(String),
    /// The attribute gave none: read the key binding of the item's action.
    KeyBinding,
}

/// Chooses the source of an activated item's shortcut: the shortcut of its
/// attributes when there is one, else its action's key binding.
pub fn shortcut_source(from_attributes: Option<String>) -> (s: ShortcutSource)
    ensures
        match from_attributes {
            Some(k) => s matches ShortcutSource::Attributes(a) && a@ == k@,
            None => s is KeyBinding,
        },
{
    match from_attributes {
        Some(k) => ShortcutSource::Attributes(k),
        None => ShortcutSource::KeyBinding,
    }
}

// ── Label search below a nameless item ───────────────────────────────────────

/// How many levels below a nameless menu item its label is searched for.
pub const SUBTREE_DEPTH: u8 = 3;

/// How many children of one element the label search looks at, at most.
pub const SUBTREE_CHILDREN: u32 = 8;

/// What the label search does next with one child element.
#[derive(Debug, Clone, PartialEq, Eq)]
pub enum SubtreeStep {
    /// The child gives the label.
    Found(String),
    /// Read the child's text content, then decide again.
    ReadText,
    /// Search the child's own children, with `depth` levels left.
    Descend { depth: u8 },
    /// The child gives no label: go on with the next child.
    Next,
}

/// How many children of an element the label search looks at, with `depth`
/// levels left, when the element reports `child_count` children: none when
/// no level is left or the count is not positive, else the first
/// `child_count` but at most `SUBTREE_CHILDREN`.
pub fn subtree_child_limit(depth: u8, child_count: i32) -> (n: u32)
    ensures
        n == (if depth == 0 || child_count <= 0 {
            0
        } else if child_count >= SUBTREE_CHILDREN {
            SUBTREE_CHILDREN as int
        } else {
            child_count as int
        }),
{
    if depth == 0 || child_count <= 0 {
        0
    } else if child_count >= 8 {
        SUBTREE_CHILDREN
    } else {
        child_count as u32
    }
}

/// Decides the label search's next move on one child, with `depth` levels
/// left, from the child's accessible name, its description and its text
/// content (`None` while it has not been read; an empty text when it cannot
/// be read). The label is the first of name, description and text that is
/// not empty; a child with none of them is searched in turn, one level
/// deeper, while a level is left below it.
pub fn subtree_step(depth: u8, name: &str, description: &str, text: Option<&str>) -> (s: SubtreeStep)
    ensures
        depth == 0 ==> s is Next,
        depth > 0 && name@.len() > 0 ==> (s matches SubtreeStep::Found(l) && l@ == name@),
        depth > 0 && name@.len() == 0 && description@.len() > 0 ==> (s matches SubtreeStep::Found(l)
            && l@ == description@),
        depth > 0 && name@.len() == 0 && description@.len() == 0 ==> match text {
            None => s is ReadText,
            Some(t) => if t@.len() > 0 {
                s matches SubtreeStep::Found(l) && l@ == t@
            } else if depth > 1 {
                s matches SubtreeStep::Descend { depth: d } && d == depth - 1
            } else {
                s is Next
            },
        },
{
    if depth == 0 {
        return SubtreeStep::Next;
    }
    if let Some(label) = child_label(name, description) {
        return SubtreeStep::Found(label);
    }
    match text {
        None => SubtreeStep::ReadText,
        Some(t) => {
            proof {
                reveal_strlit("");
            }
            if let Some(label) = child_label(t, "") {
                SubtreeStep::Found(label)
            } else if depth > 1 {
                SubtreeStep::Descend { depth: depth - 1 }
            } else {
                SubtreeStep::Next
            }
        },
    }
}

/// The identity of the application owning an element, from the accessible
/// name of its application root, lowercased to match the executable names of
/// the shortcut database.
pub fn app_identity_from_name(name: &str) -> (a: AppIdentity)
    ensures
        a.executable@ == lower_text(name@),
        a.window_title is None,
        a.pid == 0,
{
    AppIdentity { executable: to_lowercase(name), window_title: None, pid: 0 }
}

// ── Menu-path walk ───────────────────────────────────────────────────────────

/// Most ancestors visited above the activated item.
pub const MAX_MENU_DEPTH: u32 = 6;

/// What the daemon learned of the next ancestor: its role and, if it could
/// be read, its accessible name.
pub struct ParentInfo {
    pub role: AccessibleRole,
    pub name: Option<String>,
}

/// The walk up the accessibility tree that collects the menu path of an
/// activated item.
pub struct MenuPathWalk {
    segments: Vec<String>,
    steps: u32,
    done: bool,
}

impl MenuPathWalk {
    /// The collected path, outermost segment first.
    pub closed spec fn path(&self) -> Seq<Seq<char>> {
        string_views(self.segments@)
    }

    /// Number of ancestors visited.
    pub closed spec fn steps_taken(&self) -> nat {
        self.steps as nat
    }

    /// The walk has ended.
    pub closed spec fn finished(&self) -> bool {
        self.done
    }

    /// Starts a walk at the activated item labelled `leaf`.
    pub fn new(leaf: String) -> (w: Self)
        ensures
            w.path() == seq![leaf@],
            w.steps_taken() == 0,
            !w.finished(),
    {
        let mut segments: Vec<String> = Vec::new();
        let ghost l = leaf@;
        segments.push(leaf);
        assert(string_views(segments@) =~= seq![l]);
        MenuPathWalk { segments, steps: 0, done: false }
    }

    /// Whether the daemon should read the next ancestor.
    pub fn wants_parent(&self) -> (b: bool)
        ensures
            b == (!self.finished() && self.steps_taken() < MAX_MENU_DEPTH),
    {
        !self.done && self.steps < MAX_MENU_DEPTH
    }

    /// Takes in the next ancestor; `None` means it could not be read. The
    /// walk ends at an unreadable ancestor or at one that ends the menu path;
    /// otherwise a non-empty ancestor name is put in front of the path.
    pub fn visit(&mut self, parent: Option<ParentInfo>)
        requires
            !old(self).finished(),
            old(self).steps_taken() < MAX_MENU_DEPTH,
        ensures
            final(self).steps_taken() == old(self).steps_taken() + 1,
            match parent {
                None => final(self).finished() && final(self).path() == old(self).path(),
                Some(p) => if ends_menu_path_spec(p.role) {
                    final(self).finished() && final(self).path() == old(self).path()
                } else {
                    !final(self).finished() && final(self).path() == match p.name {
                        Some(n) => if n@.len() > 0 {
                            seq![n@] + old(self).path()
                        } else {
                            old(self).path()
                        },
                        None => old(self).path(),
                    }
                },
            },
    {
        self.steps = self.steps + 1;
        match parent {
            None => {
                self.done = true;
            },
            Some(p) => {
                if ends_menu_path(p.role) {
                    self.done = true;
                } else {
                    match p.name {
                        Some(n) => {
                            if !n.as_str().is_empty() {
                                let ghost before = string_views(self.segments@);
                                let ghost nv = n@;
                                self.segments.insert(0, n);
                                assert(string_views(self.segments@) =~= seq![nv] + before);
                            }
                        },
                        None => {},
                    }
                }
            },
        }
    }

    /// The collected path, outermost segment first.
    pub fn into_path(self) -> (v: Vec<String>)
        ensures
            string_views(v@) == self.path(),
    {
        self.segments
    }
}

} // verus!
