//! Verified core of a Spotlight-style launcher: configuration, search
//! ranking, the built-in plugins and the launcher window's selection state.
pub mod text;
pub mod config;
pub mod i18n;
pub mod desktop_entry;
pub mod autostart;
pub mod ipc;
pub mod theme;
pub mod shortcut;
pub mod plugin;
pub mod spotlight;
