//! KeyboardHero core library: configuration, the shortcut database, the
//! shortcut resolver and the pure decisions of the detection and overlay
//! layers, with their contracts proved by Verus.

pub mod config;
pub mod text;
pub mod resolver;
pub mod types;
pub mod db;
pub mod linux;
pub mod overlay;
