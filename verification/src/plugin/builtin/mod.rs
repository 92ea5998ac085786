//! The plugins that ship with the launcher.
pub mod system_actions;
pub mod web_search;
pub mod app_launcher;
pub mod calculator;
