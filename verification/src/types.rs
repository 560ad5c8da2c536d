//! Shared value types: platforms, application identities, activation events
//! and resolved shortcut matches.

use vstd::prelude::*;
use crate::config::ConfigError;
use crate::db::DatabaseError;
use crate::text::chars_eq_str;

verus! {

/// `std::time::Instant`, carried through activation events as an opaque value.
#[verifier::external_type_specification]
#[verifier::external_body]
pub struct ExInstant(std::time::Instant);

/// Target platform, used when resolving shortcuts from the database.
#[derive(Debug, Clone, Copy, PartialEq, Eq, Hash, Structural)]
pub enum Platform {
    Linux,
    Windows,
    MacOS,
}

/// Whether `os` names a platform this library supports (the values of
/// `std::env::consts::OS` for Linux, Windows and macOS).
pub open spec fn is_supported_os_spec(os: Seq<char>) -> bool {
    os == "linux"@ || os == "windows"@ || os == "macos"@
}

/// The platform an operating-system name stands for.
pub open spec fn platform_of_os(os: Seq<char>) -> Platform {
    if os == "windows"@ {
        Platform::Windows
    } else if os == "macos"@ {
        Platform::MacOS
    } else {
        Platform::Linux
    }
}

impl Platform {
    /// Whether `target_os` (a value of `std::env::consts::OS`) is a supported
    /// platform.
    pub fn is_supported_os(target_os: &str) -> (b: bool)
        ensures
            b == is_supported_os_spec(target_os@),
    {
        let v = crate::text::chars_of(target_os);
        chars_eq_str(&v, "linux") || chars_eq_str(&v, "windows") || chars_eq_str(&v, "macos")
    }

    /// The platform this binary was compiled for, given the compile target's
    /// operating-system name (`std::env::consts::OS`).
    pub fn current(target_os: &str) -> (p: Platform)
        requires
            is_supported_os_spec(target_os@),
        ensures
            p == platform_of_os(target_os@),
    {
        let v = crate::text::chars_of(target_os);
        if chars_eq_str(&v, "windows") {
            Platform::Windows
        } else if chars_eq_str(&v, "macos") {
            Platform::MacOS
        } else {
            Platform::Linux
        }
    }
}

/// Identifies the foreground application at event time.
#[derive(Debug, Clone)]
pub struct AppIdentity {
    /// Process executable name, e.g. "firefox" or "code.exe".
    pub executable: String,
    /// Window title, used for title-pattern disambiguation.
    pub window_title: Option<String>,
    /// Process ID — used only for deduplication, not for matching.
    pub pid: u32,
}

/// The view of an optional string.
pub open spec fn opt_view(o: Option<String>) -> Option<Seq<char>> {
    match o {
        Some(s) => Some(s@),
        None => None,
    }
}

/// The role of a UI element as reported by the accessibility API.
#[derive(Debug, Clone)]
pub enum ElementRole {
    MenuItem,
    ToolbarButton,
    ContextMenuItem,
    /// A non-menu element whose keyboard equivalent must be inferred from
    /// role + context rather than read from an accessibility attribute.
    SemanticElement {
        /// Accessibility role string, e.g. "tab", "button".
        role: String,
        /// Optional context that disambiguates the action, e.g. "tab-not-selected".
        context: Option<String>,
    },
}

/// A raw activation event from the OS accessibility layer.
#[derive(Debug)]
pub struct RawActivationEvent {
    /// Wall-clock time of the underlying OS event.
    pub timestamp: std::time::Instant,
    /// The foreground application at event time.
    pub app: AppIdentity,
    /// The activated element's role.
    pub role: ElementRole,
    /// Label path from menu root to the activated item, e.g. ["Edit", "Copy"].
    pub label_path: Vec<String>,
    /// Shortcut string read directly from the accessibility API (Tier 1).
    /// `None` means the API did not advertise one; resolver falls back to Tier 2.
    pub discovered_shortcut: Option<String>,
}

/// Records whether a `ShortcutMatch` came from Tier 1 (API) or Tier 2 (database).
#[derive(Debug, Clone, Copy, PartialEq, Eq, Structural)]
pub enum ResolutionSource {
    /// Read directly from the accessibility API attribute on the element.
    Dynamic,
    /// Looked up in the bundled shortcut database.
    Database,
}

/// A resolved shortcut, ready to be displayed by the renderer.
#[derive(Debug, Clone)]
pub struct ShortcutMatch {
    /// OS-formatted shortcut string, e.g. "Ctrl+C".
    pub shortcut_keys: String,
    /// The label of the activated action, e.g. "Copy".
    pub action_name: String,
    /// Full action description, e.g. "Copy selection to clipboard".
    pub description: String,
    /// Display-form menu path, e.g. "Edit › Copy".
    pub menu_path: String,
    /// Whether this came from Tier 1 or Tier 2.
    pub source: ResolutionSource,
}

/// The abstract content of a `ShortcutMatch`.
pub struct MatchView {
    pub shortcut_keys: Seq<char>,
    pub action_name: Seq<char>,
    pub description: Seq<char>,
    pub menu_path: Seq<char>,
    pub source: ResolutionSource,
}

impl View for ShortcutMatch {
    type V = MatchView;

    open spec fn view(&self) -> MatchView {
        MatchView {
            shortcut_keys: self.shortcut_keys@,
            action_name: self.action_name@,
            description: self.description@,
            menu_path: self.menu_path@,
            source: self.source,
        }
    }
}

/// The view of an optional match.
pub open spec fn opt_match_view(o: Option<ShortcutMatch>) -> Option<MatchView> {
    match o {
        Some(m) => Some(m@),
        None => None,
    }
}

/// Top-level errors that warrant a tray-icon warning or process exit.
#[derive(Debug)]
pub enum DaemonError {
    /// The platform accessibility API is unavailable.
    PlatformUnavailable(String),
    /// The config file is invalid.
    ConfigInvalid(ConfigError),
    /// The shortcut database failed to load.
    DatabaseError(DatabaseError),
    /// Another instance is already running.
    SingleInstanceConflict,
    /// Shutdown was requested.
    Shutdown,
}

impl From<ConfigError> for DaemonError {
    fn from(e: ConfigError) -> (r: Self) {
        DaemonError::ConfigInvalid(e)
    }
}

impl vstd::std_specs::convert::FromSpecImpl<ConfigError> for DaemonError {
    open spec fn obeys_from_spec() -> bool {
        true
    }

    open spec fn from_spec(e: ConfigError) -> Self {
        DaemonError::ConfigInvalid(e)
    }
}

impl From<DatabaseError> for DaemonError {
    fn from(e: DatabaseError) -> (r: Self) {
        DaemonError::DatabaseError(e)
    }
}

impl vstd::std_specs::convert::FromSpecImpl<DatabaseError> for DaemonError {
    open spec fn obeys_from_spec() -> bool {
        true
    }

    open spec fn from_spec(e: DatabaseError) -> Self {
        DaemonError::DatabaseError(e)
    }
}

} // verus!
