//! A global-hotkey core: a registry of keybinds (sets of keys mapped to named
//! actions), a tracker for the set of currently pressed keys, a resolver from
//! canonical key names to key identifiers, a per-event dispatch step, and a
//! static compatibility table for platform visual effects.

pub mod commands;
pub mod dispatch;
pub mod effects;
pub mod errors;
pub mod keys;
pub mod pressed;
pub mod registry;
pub mod text;
