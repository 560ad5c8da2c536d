//! The shortcut files bundled into the library, in TOML.

use vstd::prelude::*;

verus! {

/// The TOML text of the global shortcuts, valid in almost any application.
pub const GLOBAL_COMMON: &'static str = r#"
schema_version = 1

[[shortcuts]]
menu_path   = ["Edit", "Undo"]
keys        = [{ linux = "Ctrl+Z", windows = "Ctrl+Z", macos = "⌘Z" }]
description = "Undo the last action"
category    = "editing"

[[shortcuts]]
menu_path   = ["Edit", "Redo"]
keys        = [{ linux = "Ctrl+Shift+Z", windows = "Ctrl+Y", macos = "⇧⌘Z" }]
description = "Redo the last undone action"
category    = "editing"

[[shortcuts]]
menu_path   = ["Edit", "Cut"]
keys        = [{ linux = "Ctrl+X", windows = "Ctrl+X", macos = "⌘X" }]
description = "Cut selection to clipboard"
category    = "editing"

[[shortcuts]]
menu_path   = ["Edit", "Copy"]
keys        = [{ linux = "Ctrl+C", windows = "Ctrl+C", macos = "⌘C" }]
description = "Copy selection to clipboard"
category    = "editing"

[[shortcuts]]
menu_path   = ["Edit", "Paste"]
keys        = [{ linux = "Ctrl+V", windows = "Ctrl+V", macos = "⌘V" }]
description = "Paste from clipboard"
category    = "editing"

[[shortcuts]]
menu_path   = ["Edit", "Select All"]
keys        = [{ linux = "Ctrl+A", windows = "Ctrl+A", macos = "⌘A" }]
description = "Select everything"
category    = "editing"

[[shortcuts]]
menu_path   = ["Edit", "Find"]
keys        = [{ linux = "Ctrl+F", windows = "Ctrl+F", macos = "⌘F" }]
description = "Find in the current document"
category    = "editing"

[[shortcuts]]
menu_path   = ["File", "New"]
keys        = [{ linux = "Ctrl+N", windows = "Ctrl+N", macos = "⌘N" }]
description = "Create a new document"
category    = "file"

[[shortcuts]]
menu_path   = ["File", "Open"]
keys        = [{ linux = "Ctrl+O", windows = "Ctrl+O", macos = "⌘O" }]
description = "Open a file"
category    = "file"

[[shortcuts]]
menu_path   = ["File", "Save"]
keys        = [{ linux = "Ctrl+S", windows = "Ctrl+S", macos = "⌘S" }]
description = "Save the current document"
category    = "file"

[[shortcuts]]
menu_path   = ["File", "Save As"]
keys        = [{ linux = "Ctrl+Shift+S", windows = "Ctrl+Shift+S", macos = "⇧⌘S" }]
description = "Save the current document under a new name"
category    = "file"

[[shortcuts]]
menu_path   = ["File", "Print"]
keys        = [{ linux = "Ctrl+P", windows = "Ctrl+P", macos = "⌘P" }]
description = "Print the current document"
category    = "file"

[[shortcuts]]
menu_path   = ["File", "Close"]
keys        = [{ linux = "Ctrl+W", windows = "Ctrl+W", macos = "⌘W" }]
description = "Close the current window or tab"
category    = "file"

[[shortcuts]]
menu_path   = ["File", "Quit"]
keys        = [{ linux = "Ctrl+Q", windows = "Alt+F4", macos = "⌘Q" }]
description = "Quit the application"
category    = "file"
"#;

/// The TOML text of Firefox's shortcuts.
pub const APP_FIREFOX: &'static str = r#"
schema_version = 1

[app]
id            = "firefox"
executables   = ["firefox", "firefox-esr", "firefox-bin"]
title_pattern = ""

[[shortcuts]]
menu_path   = ["File", "New Tab"]
keys        = [{ linux = "Ctrl+T", windows = "Ctrl+T", macos = "⌘T" }]
description = "Open a new tab"
category    = "navigation"

[[shortcuts]]
menu_path   = ["File", "New Window"]
keys        = [{ linux = "Ctrl+N", windows = "Ctrl+N", macos = "⌘N" }]
description = "Open a new browser window"
category    = "navigation"

[[shortcuts]]
menu_path   = ["File", "New Private Window"]
keys        = [{ linux = "Ctrl+Shift+P", windows = "Ctrl+Shift+P", macos = "⇧⌘P" }]
description = "Open a new private browsing window"
category    = "navigation"

[[shortcuts]]
menu_path   = ["View", "Reload"]
keys        = [{ linux = "Ctrl+R", windows = "Ctrl+R", macos = "⌘R" }]
description = "Reload the current page"
category    = "navigation"

[[shortcuts]]
menu_path   = ["Bookmarks", "Bookmark Current Tab"]
keys        = [{ linux = "Ctrl+D", windows = "Ctrl+D", macos = "⌘D" }]
description = "Bookmark the current page"
category    = "navigation"

[[semantic_actions]]
role        = "tab"
context     = "tab-not-selected"
keys        = [{ linux = "Ctrl+Tab", windows = "Ctrl+Tab", macos = "⌃Tab" }]
description = "Switch to next/previous tab"
category    = "navigation"

[[semantic_actions]]
role        = "button"
context     = "navigation-back"
keys        = [{ linux = "Alt+Left", windows = "Alt+Left", macos = "⌘[" }]
description = "Navigate back"
category    = "navigation"

[[semantic_actions]]
role        = "button"
context     = "navigation-forward"
keys        = [{ linux = "Alt+Right", windows = "Alt+Right", macos = "⌘]" }]
description = "Navigate forward"
category    = "navigation"
"#;

/// The TOML text of Chromium's shortcuts.
pub const APP_CHROMIUM: &'static str = r#"
schema_version = 1

[app]
id            = "chromium"
executables   = ["chromium", "chromium-browser", "google-chrome", "chrome"]
title_pattern = ""

[[shortcuts]]
menu_path   = ["File", "New Tab"]
keys        = [{ linux = "Ctrl+T", windows = "Ctrl+T", macos = "⌘T" }]
description = "Open a new tab"
category    = "navigation"

[[shortcuts]]
menu_path   = ["File", "New Window"]
keys        = [{ linux = "Ctrl+N", windows = "Ctrl+N", macos = "⌘N" }]
description = "Open a new browser window"
category    = "navigation"

[[shortcuts]]
menu_path   = ["File", "New Incognito Window"]
keys        = [{ linux = "Ctrl+Shift+N", windows = "Ctrl+Shift+N", macos = "⇧⌘N" }]
description = "Open a new incognito window"
category    = "navigation"

[[shortcuts]]
menu_path   = ["History", "Show Full History"]
keys        = [{ linux = "Ctrl+H", windows = "Ctrl+H", macos = "⌘Y" }]
description = "Show the browsing history"
category    = "navigation"

[[semantic_actions]]
role        = "tab"
context     = "tab-not-selected"
keys        = [{ linux = "Ctrl+Tab", windows = "Ctrl+Tab", macos = "⌃Tab" }]
description = "Switch to next/previous tab"
category    = "navigation"

[[semantic_actions]]
role        = "button"
context     = "navigation-back"
keys        = [{ linux = "Alt+Left", windows = "Alt+Left", macos = "⌘[" }]
description = "Navigate back"
category    = "navigation"
"#;

/// The TOML text of Visual Studio Code's shortcuts.
pub const APP_VSCODE: &'static str = r#"
schema_version = 1

[app]
id            = "vscode"
executables   = ["code", "code-oss", "codium", "code.exe"]
title_pattern = ""

[[shortcuts]]
menu_path   = ["View", "Command Palette"]
keys        = [{ linux = "Ctrl+Shift+P", windows = "Ctrl+Shift+P", macos = "⇧⌘P" }]
description = "Show all commands"
category    = "navigation"

[[shortcuts]]
menu_path   = ["View", "Explorer"]
keys        = [{ linux = "Ctrl+Shift+E", windows = "Ctrl+Shift+E", macos = "⇧⌘E" }]
description = "Show the file explorer"
category    = "navigation"

[[shortcuts]]
menu_path   = ["Go", "Go to File"]
keys        = [{ linux = "Ctrl+P", windows = "Ctrl+P", macos = "⌘P" }]
description = "Quickly open a file by name"
category    = "navigation"

[[shortcuts]]
menu_path   = ["File", "Save All"]
keys        = [{ linux = "Ctrl+K S", windows = "Ctrl+K S", macos = "⌥⌘S" }]
description = "Save all open files"
category    = "file"

[[shortcuts]]
menu_path   = ["Terminal", "New Terminal"]
keys        = [{ linux = "Ctrl+Shift+`", windows = "Ctrl+Shift+`", macos = "⌃⇧`" }]
description = "Open a new integrated terminal"
category    = "navigation"
"#;

/// The TOML text of GNOME Text Editor's shortcuts.
pub const APP_GNOME_TEXT_EDITOR: &'static str = r#"
schema_version = 1

[app]
id            = "gnome-text-editor"
executables   = ["gnome-text-editor"]
title_pattern = ""

[[shortcuts]]
menu_path   = ["New Window"]
keys        = [{ linux = "Ctrl+Shift+N" }]
description = "Open a new window"
category    = "file"

[[shortcuts]]
menu_path   = ["Save As"]
keys        = [{ linux = "Ctrl+Shift+S" }]
description = "Save the document under a new name"
category    = "file"

[[shortcuts]]
menu_path   = ["Find and Replace"]
keys        = [{ linux = "Ctrl+H" }]
description = "Find and replace text"
category    = "editing"

[[shortcuts]]
menu_path   = ["Keyboard Shortcuts"]
keys        = [{ linux = "Ctrl+?" }]
description = "Show the keyboard shortcuts"
category    = "help"
"#;

/// The TOML text of Nautilus' (GNOME Files') shortcuts.
pub const APP_NAUTILUS: &'static str = r#"
schema_version = 1

[app]
id            = "nautilus"
executables   = ["nautilus", "org.gnome.nautilus"]
title_pattern = ""

[[shortcuts]]
menu_path   = ["File", "New Folder"]
keys        = [{ linux = "Ctrl+Shift+N" }]
description = "Create a new folder"
category    = "file"

[[shortcuts]]
menu_path   = ["Go", "Parent Folder"]
keys        = [{ linux = "Alt+Up" }]
description = "Open the parent folder"
category    = "navigation"

[[shortcuts]]
menu_path   = ["View", "Show Hidden Files"]
keys        = [{ linux = "Ctrl+H" }]
description = "Show or hide hidden files"
category    = "view"

[[shortcuts]]
menu_path   = ["Edit", "Rename"]
keys        = [{ linux = "F2" }]
description = "Rename the selected item"
category    = "editing"
"#;

/// All bundled shortcut files: (source name for error messages, TOML text),
/// global file first.
pub fn bundled_sources() -> (v: Vec<(&'static str, &'static str)>)
    ensures
        v@ == seq![
            ("global/common", GLOBAL_COMMON),
            ("apps/firefox", APP_FIREFOX),
            ("apps/chromium", APP_CHROMIUM),
            ("apps/vscode", APP_VSCODE),
            ("apps/gnome-text-editor", APP_GNOME_TEXT_EDITOR),
            ("apps/nautilus", APP_NAUTILUS),
        ],
{
    let mut v: Vec<(&'static str, &'static str)> = Vec::new();
    v.push(("global/common", GLOBAL_COMMON));
    v.push(("apps/firefox", APP_FIREFOX));
    v.push(("apps/chromium", APP_CHROMIUM));
    v.push(("apps/vscode", APP_VSCODE));
    v.push(("apps/gnome-text-editor", APP_GNOME_TEXT_EDITOR));
    v.push(("apps/nautilus", APP_NAUTILUS));
    assert(v@ =~= seq![
        ("global/common", GLOBAL_COMMON),
        ("apps/firefox", APP_FIREFOX),
        ("apps/chromium", APP_CHROMIUM),
        ("apps/vscode", APP_VSCODE),
        ("apps/gnome-text-editor", APP_GNOME_TEXT_EDITOR),
        ("apps/nautilus", APP_NAUTILUS),
    ]);
    v
}

} // verus!
