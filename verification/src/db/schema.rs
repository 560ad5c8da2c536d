//! The content of one shortcut file, as read from its TOML text.

use vstd::prelude::*;

verus! {

/// Top-level structure of every shortcut file.
#[derive(Debug, Clone)]
pub struct AppFile {
    pub schema_version: u32,
    /// Absent in global (non-app-specific) files.
    pub app: Option<AppDef>,
    pub shortcuts: Vec<ShortcutDef>,
    pub semantic_actions: Vec<SemanticActionDef>,
}

/// The application a file is about.
#[derive(Debug, Clone)]
pub struct AppDef {
    pub id: String,
    pub executables: Vec<String>,
    /// Empty string means "match any window title".
    pub title_pattern: String,
}

/// A menu or toolbar shortcut.
#[derive(Debug, Clone)]
pub struct ShortcutDef {
    pub menu_path: Vec<String>,
    /// The first element is the one indexed; the array form allows future
    /// multi-shortcut entries.
    pub keys: Vec<PlatformKeys>,
    pub description: String,
    pub category: String,
}

/// A semantic action: a non-menu element identified by role and context.
#[derive(Debug, Clone)]
pub struct SemanticActionDef {
    pub role: String,
    pub context: Option<String>,
    pub keys: Vec<PlatformKeys>,
    pub description: String,
    pub category: String,
}

/// The key combination of one action on each platform.
#[derive(Debug, Clone)]
pub struct PlatformKeys {
    pub linux: Option<String>,
    pub windows: Option<String>,
    pub macos: Option<String>,
}

} // verus!
