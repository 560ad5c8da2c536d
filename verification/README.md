# kbhero

KeyboardHero watches accessibility events and, when a menu or toolbar action
that has a keyboard shortcut is triggered with the mouse, shows a short
callout with that shortcut.

- `src/` is the verified library (Verus):
  - `config` — the configuration and its clamping rules;
  - `text` — trimming, ellipsis stripping, splitting, joining, ASCII
    case-insensitive comparison;
  - `db` — the bundled shortcut files, the application matcher, the lookup
    tables and the database built from them, with its lookups;
  - `resolver` — shortcut-string normalization and the two-tier resolution of
    an activation event;
  - `linux` — the decisions of the AT-SPI2 detection engine;
  - `overlay` — callout layout, placement and window life cycle;
  - `types` — shared value types.
- `app/` is the daemon around it: file and bus I/O, TOML parsing with serde,
  the tokio tasks, GTK4 and X11.
- `tests/` exercises the library.
