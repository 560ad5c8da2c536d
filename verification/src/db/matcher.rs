//! Maps an application identity (executable name and window title) to the
//! identifier of the application's entry in the shortcut database.

use vstd::prelude::*;
use crate::db::AppId;
use crate::text::{eq_ignore_ascii_case, str_eq_ignore_ascii_case, string_views};
use crate::types::{opt_view, AppIdentity};

verus! {

/// `regex::Regex`, held as an opaque compiled pattern.
#[verifier::external_type_specification]
#[verifier::external_body]
pub struct ExRegex(regex::Regex);

/// `regex::Error`, returned when a title pattern does not compile.
#[verifier::external_type_specification]
#[verifier::external_body]
pub struct ExRegexError(regex::Error);

/// Whether `regex::Regex::new` accepts `pattern` (it is valid syntax and the
/// compiled program stays within the default size limit).
pub uninterp spec fn regex_compiles(pattern: Seq<char>) -> bool;

/// What `regex::Regex::is_match` returns for the regex compiled from
/// `pattern` on `haystack`: whether the pattern matches anywhere in it.
pub uninterp spec fn regex_is_match(pattern: Seq<char>, haystack: Seq<char>) -> bool;

/// The number of the well-known ID reserved for global (non-app-specific)
/// shortcuts: `AppId(GLOBAL_APP_NUMBER)`.
pub const GLOBAL_APP_NUMBER: u32 = 0;

/// A window-title pattern together with its compiled regex.
pub struct TitlePattern {
    source: String,
    regex: regex::Regex,
}

impl View for TitlePattern {
    type V = Seq<char>;

    closed spec fn view(&self) -> Seq<char> {
        self.source@
    }
}

/// Compiles `pattern` with `regex::Regex::new`. The contract claims that the
/// call succeeds exactly when `regex_compiles(pattern)`, and that the result
/// keeps `pattern` as its source.
#[verifier::external_body]
fn compile_title_pattern(pattern: &str) -> (r: Result<TitlePattern, regex::Error>)
    ensures
        r is Ok <==> regex_compiles(pattern@),
        r matches Ok(t) ==> t@ == pattern@,
{
    match regex::Regex::new(pattern) {
        Ok(regex) => Ok(TitlePattern { source: pattern.to_string(), regex }),
        Err(e) => Err(e),
    }
}

/// Runs `regex::Regex::is_match` of the compiled pattern on `haystack`. The
/// contract claims the result is `regex_is_match` of the pattern's source and
/// the haystack.
#[verifier::external_body]
fn title_pattern_is_match(p: &TitlePattern, haystack: &str) -> (b: bool)
    ensures
        b == regex_is_match(p@, haystack@),
{
    p.regex.is_match(haystack)
}

/// One registered application.
pub struct AppMatchEntry {
    app_id: AppId,
    executables: Vec<String>,
    title_pattern: Option<TitlePattern>,
}

/// The abstract content of a registered application.
pub struct EntryView {
    pub app_id: AppId,
    pub executables: Seq<Seq<char>>,
    pub title_pattern: Option<Seq<char>>,
}

impl View for AppMatchEntry {
    type V = EntryView;

    closed spec fn view(&self) -> EntryView {
        EntryView {
            app_id: self.app_id,
            executables: string_views(self.executables@),
            title_pattern: match self.title_pattern {
                Some(p) => Some(p@),
                None => None,
            },
        }
    }
}

/// Ordered list of registered applications; the first match wins.
pub struct AppMatcher {
    entries: Vec<AppMatchEntry>,
}

impl View for AppMatcher {
    type V = Seq<EntryView>;

    closed spec fn view(&self) -> Seq<EntryView> {
        self.entries@.map_values(|e: AppMatchEntry| e@)
    }
}

/// One of `e`'s executable names equals `exe` up to ASCII case.
pub open spec fn exe_matches(e: EntryView, exe: Seq<char>) -> bool {
    exists|i: int| 0 <= i < e.executables.len() && eq_ignore_ascii_case(#[trigger] e.executables[i], exe)
}

/// `e`'s title pattern, if it has one, matches the window title, which must
/// then be present.
pub open spec fn title_matches(e: EntryView, title: Option<Seq<char>>) -> bool {
    match e.title_pattern {
        None => true,
        Some(p) => match title {
            Some(t) => regex_is_match(p, t),
            None => false,
        },
    }
}

/// `e` matches the identity (executable, title).
pub open spec fn entry_matches(e: EntryView, exe: Seq<char>, title: Option<Seq<char>>) -> bool {
    exe_matches(e, exe) && title_matches(e, title)
}

/// The application ID of the first entry that matches, if any.
pub open spec fn resolve_spec(entries: Seq<EntryView>, exe: Seq<char>, title: Option<Seq<char>>) -> Option<AppId>
    decreases entries.len(),
{
    if entries.len() == 0 {
        None
    } else if entry_matches(entries[0], exe, title) {
        Some(entries[0].app_id)
    } else {
        resolve_spec(entries.drop_first(), exe, title)
    }
}

/// The non-empty pattern given to `add`, if any.
pub open spec fn effective_pattern(title_pattern: Option<&str>) -> Option<Seq<char>> {
    match title_pattern {
        Some(p) => if p@.len() > 0 {
            Some(p@)
        } else {
            None
        },
        None => None,
    }
}

/// `add` refuses the entry: its pattern does not compile.
pub open spec fn add_fails(title_pattern: Option<&str>) -> bool {
    match effective_pattern(title_pattern) {
        Some(p) => !regex_compiles(p),
        None => false,
    }
}

impl AppMatcher {
    /// An empty matcher.
    pub fn new() -> (m: Self)
        ensures
            m@.len() == 0,
    {
        AppMatcher { entries: Vec::new() }
    }

    /// Register an app. Returns `Err` only if `title_pattern` is an invalid
    /// regex; an empty pattern means "any window title".
    pub fn add(
        &mut self,
        app_id: AppId,
        executables: Vec<String>,
        title_pattern: Option<&str>,
    ) -> (r: Result<(), regex::Error>)
        ensures
            r is Err <==> add_fails(title_pattern),
            r is Err ==> final(self)@ == old(self)@,
            r is Ok ==> final(self)@ == old(self)@.push(
                EntryView {
                    app_id,
                    executables: string_views(executables@),
                    title_pattern: effective_pattern(title_pattern),
                },
            ),
    {
        let re = match title_pattern {
            Some(p) => {
                if p.is_empty() {
                    None
                } else {
                    match compile_title_pattern(p) {
                        Ok(t) => Some(t),
                        Err(e) => {
                            return Err(e);
                        },
                    }
                }
            },
            None => None,
        };
        let entry = AppMatchEntry { app_id, executables, title_pattern: re };
        let ghost old_view = self@;
        self.entries.push(entry);
        assert(self@ =~= old_view.push(entry@));
        Ok(())
    }

    /// Returns the first `AppId` whose executable list (case-insensitive) and
    /// optional title pattern both match `identity`. Returns `None` when no
    /// app-specific entry matches; the caller should fall back to `GLOBAL_APP_ID`.
    pub fn resolve(&self, identity: &AppIdentity) -> (r: Option<AppId>)
        ensures
            r == resolve_spec(self@, identity.executable@, opt_view(identity.window_title)),
    {
        let exe = identity.executable.as_str();
        let ghost title = opt_view(identity.window_title);
        let mut i: usize = 0;
        assert(self@.skip(0) =~= self@);
        while i < self.entries.len()
            invariant
                i <= self.entries.len(),
                self@.len() == self.entries@.len(),
                title == opt_view(identity.window_title),
                exe@ == identity.executable@,
                resolve_spec(self@, exe@, title) == resolve_spec(self@.skip(i as int), exe@, title),
            decreases self.entries.len() - i,
        {
            let entry = &self.entries[i];
            let ghost ev = entry@;
            assert(self@[i as int] == ev);
            assert(self@.skip(i as int)[0] == ev);
            assert(self@.skip(i as int).drop_first() =~= self@.skip(i + 1));
            let mut exe_ok = false;
            let mut k: usize = 0;
            while k < entry.executables.len()
                invariant
                    k <= entry.executables.len(),
                    ev == entry@,
                    ev.executables.len() == entry.executables@.len(),
                    exe_ok <==> exists|j: int| 0 <= j < k && eq_ignore_ascii_case(#[trigger] ev.executables[j], exe@),
                decreases entry.executables.len() - k,
            {
                let b = str_eq_ignore_ascii_case(entry.executables[k].as_str(), exe);
                assert(ev.executables[k as int] == entry.executables@[k as int]@);
                if b {
                    exe_ok = true;
                }
                k += 1;
            }
            assert(exe_ok == exe_matches(ev, exe@));
            if exe_ok {
                match &entry.title_pattern {
                    Some(p) => {
                        match &identity.window_title {
                            Some(t) => {
                                assert(ev.title_pattern == Some(p@));
                                assert(title == Some(t@));
                                if title_pattern_is_match(p, t.as_str()) {
                                    return Some(entry.app_id);
                                }
                            },
                            None => {},
                        }
                    },
                    None => {
                        return Some(entry.app_id);
                    },
                }
            }
            i += 1;
        }
        None
    }
}

/// The first matching entry wins: `resolve_spec` gives the ID of an entry
/// that matches, with no matching entry before it; and it gives nothing
/// exactly when no entry matches.
pub proof fn lemma_resolve_first_match(entries: Seq<EntryView>, exe: Seq<char>, title: Option<Seq<char>>)
    ensures
        resolve_spec(entries, exe, title) is None <==> forall|i: int|
            0 <= i < entries.len() ==> !entry_matches(#[trigger] entries[i], exe, title),
        resolve_spec(entries, exe, title) matches Some(id) ==> exists|i: int|
            0 <= i < entries.len() && entries[i].app_id == id && entry_matches(#[trigger] entries[i], exe, title)
                && forall|j: int| 0 <= j < i ==> !entry_matches(#[trigger] entries[j], exe, title),
    decreases entries.len(),
{
    if entries.len() > 0 {
        let rest = entries.drop_first();
        lemma_resolve_first_match(rest, exe, title);
        if !entry_matches(entries[0], exe, title) {
            assert forall|i: int| 0 < i < entries.len() implies entries[i] == rest[i - 1] by {}
            if let Some(id) = resolve_spec(entries, exe, title) {
                let k = choose|k: int|
                    0 <= k < rest.len() && rest[k].app_id == id && entry_matches(#[trigger] rest[k], exe, title)
                        && forall|j: int| 0 <= j < k ==> !entry_matches(#[trigger] rest[j], exe, title);
                assert(entries[k + 1] == rest[k]);
                assert forall|j: int| 0 <= j < k + 1 implies !entry_matches(#[trigger] entries[j], exe, title) by {
                    if j > 0 {
                        assert(entries[j] == rest[j - 1]);
                    }
                }
            }
            if resolve_spec(entries, exe, title) is None {
                assert forall|i: int| 0 <= i < entries.len() implies !entry_matches(#[trigger] entries[i], exe, title) by {
                    if i > 0 {
                        assert(entries[i] == rest[i - 1]);
                    }
                }
            }
        }
    }
}

/// A newly registered application has the lowest priority: it is found
/// only when no application registered before it matches.
pub proof fn lemma_resolve_after_add(entries: Seq<EntryView>, e: EntryView, exe: Seq<char>, title: Option<Seq<char>>)
    ensures
        resolve_spec(entries.push(e), exe, title) == match resolve_spec(entries, exe, title) {
            Some(id) => Some(id),
            None => if entry_matches(e, exe, title) {
                Some(e.app_id)
            } else {
                None
            },
        },
    decreases entries.len(),
{
    if entries.len() == 0 {
        assert(entries.push(e).drop_first() =~= Seq::<EntryView>::empty());
        assert(resolve_spec(Seq::<EntryView>::empty(), exe, title) is None);
        assert(entries.push(e)[0] == e);
    } else {
        assert(entries.push(e)[0] == entries[0]);
        assert(entries.push(e).drop_first() =~= entries.drop_first().push(e));
        lemma_resolve_after_add(entries.drop_first(), e, exe, title);
    }
}

} // verus!
