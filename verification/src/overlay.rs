//! The decisions of the callout overlay: what the callout shows, where it is
//! placed, which positioning strategy the display allows, and how windows
//! come and go as callouts arrive and expire. Drawing is done by the daemon.

use vstd::prelude::*;
use crate::text::{chars_of, split, split_chars, string_of, trim, trim_chars, views};
use crate::types::ShortcutMatch;

verus! {

// ── Positioning strategy ─────────────────────────────────────────────────────

/// How the overlay window is positioned.
#[derive(Debug, Clone, Copy, PartialEq, Eq, Structural)]
pub enum Positioner {
    /// GDK uses the X11 backend (native X11 or XWayland): override-redirect
    /// and an explicit move give pixel-accurate placement.
    X11,
    /// GDK uses another backend (Wayland without layer-shell): the
    /// compositor places the window.
    Unpositioned,
}

/// `pat` occurs in `s`.
pub open spec fn contains_sub(s: Seq<char>, pat: Seq<char>) -> bool {
    exists|i: int| 0 <= i && i + pat.len() <= s.len() && #[trigger] s.subrange(i, i + pat.len()) == pat
}

/// Whether `pat` occurs in `s`.
fn contains_chars(s: &Vec<char>, pat: &Vec<char>) -> (b: bool)
    ensures
        b == contains_sub(s@, pat@),
{
    if pat.len() > s.len() {
        return false;
    }
    let last = s.len() - pat.len();
    let mut i: usize = 0;
    while i <= last
        invariant
            pat.len() <= s.len(),
            last == s.len() - pat.len(),
            i <= last + 1,
            forall|k: int| 0 <= k < i ==> #[trigger] s@.subrange(k, k + pat.len()) != pat@,
        decreases last + 1 - i,
    {
        let mut j: usize = 0;
        while j < pat.len() && s[i + j] == pat[j]
            invariant
                j <= pat.len(),
                i + pat.len() <= s.len(),
                forall|q: int| 0 <= q < j ==> s@[i + q] == pat@[q],
            decreases pat.len() - j,
        {
            j += 1;
        }
        if j == pat.len() {
            assert(s@.subrange(i as int, i + pat.len()) =~= pat@);
            return true;
        }
        assert(s@.subrange(i as int, i + pat.len())[j as int] != pat@[j as int]);
        i += 1;
    }
    assert forall|k: int| 0 <= k && k + pat.len() <= s.len() implies #[trigger] s@.subrange(k, k + pat.len()) != pat@ by {
        assert(k < i);
    }
    false
}

impl Positioner {
    /// The strategy for a GDK display whose type name is `display_kind`: X11
    /// when the name mentions X11, otherwise none.
    pub fn detect(display_kind: &str) -> (p: Positioner)
        ensures
            p == (if contains_sub(display_kind@, "X11"@) {
                Positioner::X11
            } else {
                Positioner::Unpositioned
            }),
    {
        let s = chars_of(display_kind);
        let pat = chars_of("X11");
        if contains_chars(&s, &pat) {
            Positioner::X11
        } else {
            Positioner::Unpositioned
        }
    }
}

// ── Callout content ──────────────────────────────────────────────────────────

/// One element of the keycap row.
#[derive(Debug, Clone, PartialEq, Eq)]
pub enum KeycapItem {
    /// A faint "+" between two keys.
    Separator,
    /// A key badge.
    Key(String),
}

/// The abstract content of a keycap row element.
pub enum KeycapView {
    Separator,
    Key(Seq<char>),
}

/// The view of a keycap row.
pub open spec fn keycaps_view(v: Seq<KeycapItem>) -> Seq<KeycapView> {
    v.map_values(
        |k: KeycapItem|
            match k {
                KeycapItem::Separator => KeycapView::Separator,
                KeycapItem::Key(s) => KeycapView::Key(s@),
            },
    )
}

/// The keycap row of the `+`-separated pieces `pieces`: each piece, trimmed,
/// becomes a key badge unless it is empty, and one separator stands between
/// each two badges (none before the first, none after the last).
pub open spec fn keycaps_of(pieces: Seq<Seq<char>>) -> Seq<KeycapView>
    decreases pieces.len(),
{
    if pieces.len() == 0 {
        Seq::empty()
    } else {
        let prev = keycaps_of(pieces.drop_last());
        let key = trim(pieces.last());
        if key.len() == 0 {
            prev
        } else if prev.len() > 0 {
            prev.push(KeycapView::Separator).push(KeycapView::Key(key))
        } else {
            prev.push(KeycapView::Key(key))
        }
    }
}

/// The keycap row of a shortcut string such as "Ctrl+Shift+Z".
pub fn keycap_row(shortcut_keys: &str) -> (r: Vec<KeycapItem>)
    ensures
        keycaps_view(r@) == keycaps_of(split(shortcut_keys@, '+')),
{
    let v = chars_of(shortcut_keys);
    let parts = split_chars(&v, '+');
    let ghost ps = split(shortcut_keys@, '+');
    let mut row: Vec<KeycapItem> = Vec::new();
    let mut i: usize = 0;
    while i < parts.len()
        invariant
            i <= parts.len(),
            views(parts@) == ps,
            keycaps_view(row@) == keycaps_of(ps.take(i as int)),
        decreases parts.len() - i,
    {
        assert(ps.take(i + 1).drop_last() =~= ps.take(i as int));
        assert(ps.take(i + 1).last() == parts@[i as int]@);
        let key = trim_chars(&parts[i]);
        if key.len() > 0 {
            let ghost before = keycaps_view(row@);
            let had_keys = row.len() > 0;
            if had_keys {
                row.push(KeycapItem::Separator);
            }
            let s = string_of(&key);
            let ghost sv = s@;
            row.push(KeycapItem::Key(s));
            proof {
                if had_keys {
                    assert(keycaps_view(row@) =~= before.push(KeycapView::Separator).push(KeycapView::Key(sv)));
                } else {
                    assert(keycaps_view(row@) =~= before.push(KeycapView::Key(sv)));
                }
            }
        }
        i += 1;
    }
    assert(ps.take(parts.len() as int) =~= ps);
    row
}

/// What the callout shows.
pub struct CalloutLayout {
    /// The action name, on top; absent when the match has none.
    pub action: Option<String>,
    /// The keycap badges.
    pub keys: Vec<KeycapItem>,
    /// The menu-path breadcrumb; present only when the item has a parent
    /// menu, that is when the path holds a `›`.
    pub path: Option<String>,
}

/// The layout of the callout for match `m`.
pub fn callout_layout(m: &ShortcutMatch) -> (l: CalloutLayout)
    ensures
        l.action matches Some(a) ==> a@ == m.action_name@,
        l.action is Some <==> m.action_name@.len() > 0,
        keycaps_view(l.keys@) == keycaps_of(split(m.shortcut_keys@, '+')),
        l.path matches Some(p) ==> p@ == m.menu_path@,
        l.path is Some <==> m.menu_path@.contains('›'),
{
    let action = if m.action_name.as_str().is_empty() {
        None
    } else {
        Some(m.action_name.clone())
    };
    let keys = keycap_row(m.shortcut_keys.as_str());
    let pv = chars_of(m.menu_path.as_str());
    let mut has_sep = false;
    let mut i: usize = 0;
    while i < pv.len()
        invariant
            i <= pv.len(),
            pv@ == m.menu_path@,
            has_sep <==> exists|j: int| 0 <= j < i && pv@[j] == '›',
        decreases pv.len() - i,
    {
        if pv[i] == '›' {
            has_sep = true;
        }
        i += 1;
    }
    let path = if has_sep {
        Some(m.menu_path.clone())
    } else {
        None
    };
    CalloutLayout { action, keys, path }
}

// ── Placement ────────────────────────────────────────────────────────────────

/// Gap between the callout and the bottom edge of the monitor, in pixels.
pub const MARGIN_BOTTOM_PX: i32 = 48;
/// Narrowest callout, in pixels.
pub const MIN_CALLOUT_WIDTH_PX: i32 = 200;
/// Lowest callout, in pixels.
pub const MIN_CALLOUT_HEIGHT_PX: i32 = 60;

/// A monitor's geometry, in pixels.
#[derive(Debug, Clone, Copy, PartialEq, Eq)]
pub struct MonitorRect {
    pub x: i32,
    pub y: i32,
    pub width: i32,
    pub height: i32,
}

/// The monitor assumed when none is known: 1920×1080 at the origin.
pub open spec fn default_monitor() -> MonitorRect {
    MonitorRect { x: 0, y: 0, width: 1920, height: 1080 }
}

/// Division by two rounding toward zero, as `i32` division does.
pub open spec fn half_toward_zero(d: int) -> int {
    if d >= 0 {
        d / 2
    } else {
        -((-d) / 2)
    }
}

/// The intermediate values of the placement, each of which must fit in an `i32`.
pub open spec fn placement_fits(w: int, h: int, g: MonitorRect) -> bool {
    let d = g.width - w;
    &&& i32::MIN <= d <= i32::MAX
    &&& i32::MIN <= g.x + half_toward_zero(d) <= i32::MAX
    &&& i32::MIN <= g.y + g.height <= i32::MAX
    &&& i32::MIN <= g.y + g.height - h <= i32::MAX
    &&& i32::MIN <= g.y + g.height - h - MARGIN_BOTTOM_PX <= i32::MAX
}

/// The larger of two integers.
pub open spec fn max_int(a: int, b: int) -> int {
    if a >= b {
        a
    } else {
        b
    }
}

/// Whether `bottom_center_coords` can compute the placement for these
/// values without an intermediate value leaving the `i32` range.
pub fn placement_in_range(natural_width: i32, natural_height: i32, monitor: Option<MonitorRect>) -> (b: bool)
    ensures
        b == placement_fits(
            max_int(natural_width as int, MIN_CALLOUT_WIDTH_PX as int),
            max_int(natural_height as int, MIN_CALLOUT_HEIGHT_PX as int),
            match monitor {
                Some(m) => m,
                None => default_monitor(),
            },
        ),
{
    let w: i64 = if natural_width >= MIN_CALLOUT_WIDTH_PX {
        natural_width as i64
    } else {
        MIN_CALLOUT_WIDTH_PX as i64
    };
    let h: i64 = if natural_height >= MIN_CALLOUT_HEIGHT_PX {
        natural_height as i64
    } else {
        MIN_CALLOUT_HEIGHT_PX as i64
    };
    let g = match monitor {
        Some(m) => m,
        None => MonitorRect { x: 0, y: 0, width: 1920, height: 1080 },
    };
    let lo = i32::MIN as i64;
    let hi = i32::MAX as i64;
    let d: i64 = g.width as i64 - w;
    let half: i64 = if d >= 0 {
        d / 2
    } else {
        -((-d) / 2)
    };
    let x: i64 = g.x as i64 + half;
    let bottom: i64 = g.y as i64 + g.height as i64;
    let top: i64 = bottom - h;
    let y: i64 = top - MARGIN_BOTTOM_PX as i64;
    lo <= d && d <= hi && lo <= x && x <= hi && lo <= bottom && bottom <= hi && lo <= top && top
        <= hi && lo <= y && y <= hi
}

/// The position that places a window of the measured natural size
/// (enlarged to at least 200×60) at the bottom-center of the monitor, or of
/// the default 1920×1080 monitor when none is known.
pub fn bottom_center_coords(natural_width: i32, natural_height: i32, monitor: Option<MonitorRect>) -> (xy: (i32, i32))
    requires
        placement_fits(
            max_int(natural_width as int, MIN_CALLOUT_WIDTH_PX as int),
            max_int(natural_height as int, MIN_CALLOUT_HEIGHT_PX as int),
            match monitor {
                Some(m) => m,
                None => default_monitor(),
            },
        ),
    ensures
        ({
            let g = match monitor {
                Some(m) => m,
                None => default_monitor(),
            };
            let w = max_int(natural_width as int, MIN_CALLOUT_WIDTH_PX as int);
            let h = max_int(natural_height as int, MIN_CALLOUT_HEIGHT_PX as int);
            &&& xy.0 == g.x + half_toward_zero(g.width - w)
            &&& xy.1 == g.y + g.height - h - MARGIN_BOTTOM_PX
        }),
{
    let w: i32 = if natural_width >= MIN_CALLOUT_WIDTH_PX {
        natural_width
    } else {
        MIN_CALLOUT_WIDTH_PX
    };
    let h: i32 = if natural_height >= MIN_CALLOUT_HEIGHT_PX {
        natural_height
    } else {
        MIN_CALLOUT_HEIGHT_PX
    };
    let g = match monitor {
        Some(m) => m,
        None => MonitorRect { x: 0, y: 0, width: 1920, height: 1080 },
    };
    let d: i32 = g.width - w;
    let half: i32 = d / 2;
    let x: i32 = g.x + half;
    let y: i32 = g.y + g.height - h - MARGIN_BOTTOM_PX;
    (x, y)
}

/// A callout to show, sent from the resolver's thread to the GUI thread.
pub struct CalloutMsg {
    pub m: ShortcutMatch,
    pub duration_ms: u32,
}

// ── Callout window life cycle ────────────────────────────────────────────────

/// What happens to the overlay.
pub enum OverlayEvent {
    /// A new callout arrived; the daemon built window `window` for it.
    Callout { window: u64, duration_ms: u32 },
    /// The dismiss timer of window `window` fired.
    DismissTimer { window: u64 },
    /// The channel of callouts closed.
    Disconnected,
}

/// What the daemon must do to the overlay.
#[derive(Debug, Clone, Copy, PartialEq, Eq, Structural)]
pub enum OverlayAction {
    /// Close window `.0`.
    Close(u64),
    /// Present window `.0`.
    Present(u64),
    /// Arm a one-shot timer that dismisses window `window` after `after_ms`.
    ScheduleDismiss { window: u64, after_ms: u32 },
    /// Stop polling for callouts.
    Stop,
}

/// The windows that `active` records as shown: none or one.
pub open spec fn shown(active: Option<u64>) -> Set<u64> {
    match active {
        Some(w) => set![w],
        None => Set::empty(),
    }
}

/// The windows open after `actions` are performed in order on the open
/// windows `open`: a close removes its window, a present adds its window.
pub open spec fn open_after(open: Set<u64>, actions: Seq<OverlayAction>) -> Set<u64>
    decreases actions.len(),
{
    if actions.len() == 0 {
        open
    } else {
        let before = open_after(open, actions.drop_last());
        match actions.last() {
            OverlayAction::Close(w) => before.remove(w),
            OverlayAction::Present(w) => before.insert(w),
            _ => before,
        }
    }
}

/// The overlay's state: the window currently shown, if any.
pub struct OverlayState {
    pub active: Option<u64>,
}

impl OverlayState {
    /// No callout shown.
    pub fn new() -> (s: Self)
        ensures
            s.active is None,
    {
        OverlayState { active: None }
    }

    /// Reacts to `event`. A new callout replaces the one shown at once, with
    /// no queuing: the old window is closed, the new one presented and its
    /// dismiss timer armed. A dismiss timer closes its window; the overlay
    /// shows nothing afterwards only when that window was the one shown (the
    /// timer of a window that was already replaced leaves the newer callout
    /// in place). A closed channel stops the overlay. Whatever the event, the
    /// windows left open by the actions are exactly the one recorded as shown.
    pub fn step(&mut self, event: OverlayEvent) -> (actions: Vec<OverlayAction>)
        ensures
            match event {
                OverlayEvent::Callout { window, duration_ms } => {
                    &&& final(self).active == Some(window)
                    &&& actions@ == match old(self).active {
                        Some(old_w) => seq![
                            OverlayAction::Close(old_w),
                            OverlayAction::Present(window),
                            OverlayAction::ScheduleDismiss { window, after_ms: duration_ms },
                        ],
                        None => seq![
                            OverlayAction::Present(window),
                            OverlayAction::ScheduleDismiss { window, after_ms: duration_ms },
                        ],
                    }
                },
                OverlayEvent::DismissTimer { window } => {
                    &&& final(self).active == (if old(self).active == Some(window) {
                        None
                    } else {
                        old(self).active
                    })
                    &&& actions@ == seq![OverlayAction::Close(window)]
                },
                OverlayEvent::Disconnected => {
                    &&& final(self).active == old(self).active
                    &&& actions@ == seq![OverlayAction::Stop]
                },
            },
            open_after(shown(old(self).active), actions@) == shown(final(self).active),
    {
        let mut actions: Vec<OverlayAction> = Vec::new();
        match event {
            OverlayEvent::Callout { window, duration_ms } => {
                if let Some(old_w) = self.active {
                    actions.push(OverlayAction::Close(old_w));
                }
                actions.push(OverlayAction::Present(window));
                actions.push(OverlayAction::ScheduleDismiss { window, after_ms: duration_ms });
                self.active = Some(window);
            },
            OverlayEvent::DismissTimer { window } => {
                actions.push(OverlayAction::Close(window));
                if let Some(a) = self.active {
                    if a == window {
                        self.active = None;
                    }
                }
            },
            OverlayEvent::Disconnected => {
                actions.push(OverlayAction::Stop);
            },
        }
        assert(actions@ =~= match event {
            OverlayEvent::Callout { window, duration_ms } => match old(self).active {
                Some(old_w) => seq![
                    OverlayAction::Close(old_w),
                    OverlayAction::Present(window),
                    OverlayAction::ScheduleDismiss { window, after_ms: duration_ms },
                ],
                None => seq![
                    OverlayAction::Present(window),
                    OverlayAction::ScheduleDismiss { window, after_ms: duration_ms },
                ],
            },
            OverlayEvent::DismissTimer { window } => seq![OverlayAction::Close(window)],
            OverlayEvent::Disconnected => seq![OverlayAction::Stop],
        });
        proof {
            let a = actions@;
            let o = shown(old(self).active);
            reveal_with_fuel(open_after, 4);
            match event {
                OverlayEvent::Callout { window, duration_ms } => {
                    match old(self).active {
                        Some(old_w) => {
                            assert(a.drop_last().drop_last().drop_last() =~= Seq::<OverlayAction>::empty());
                            assert(o.remove(old_w).insert(window) =~= shown(self.active));
                        },
                        None => {
                            assert(a.drop_last().drop_last() =~= Seq::<OverlayAction>::empty());
                            assert(o.insert(window) =~= shown(self.active));
                        },
                    }
                },
                OverlayEvent::DismissTimer { window } => {
                    assert(a.drop_last() =~= Seq::<OverlayAction>::empty());
                    assert(o.remove(window) =~= shown(self.active));
                },
                OverlayEvent::Disconnected => {
                    assert(a.drop_last() =~= Seq::<OverlayAction>::empty());
                },
            }
        }
        actions
    }
}

} // verus!
