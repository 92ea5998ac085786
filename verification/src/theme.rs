//! The light and dark styling of the launcher windows.
use vstd::prelude::*;

verus! {

/// The colour scheme the desktop is using.
#[derive(Debug, Clone, Copy, PartialEq, Eq, Structural)]
pub enum SystemTheme {
    Light,
    Dark,
}

impl SystemTheme {
    /// The theme for a desktop that is dark or not.
    pub fn from_dark(is_dark: bool) -> (t: SystemTheme)
        ensures
            t == (if is_dark {
                SystemTheme::Dark
            } else {
                SystemTheme::Light
            }),
    {
        if is_dark {
            SystemTheme::Dark
        } else {
            SystemTheme::Light
        }
    }

    /// The CSS class a window carries under this theme.
    pub fn css_class(&self) -> (r: &'static str)
        ensures
            r@ == (match self {
                SystemTheme::Light => "system-light"@,
                SystemTheme::Dark => "system-dark"@,
            }),
    {
        match self {
            SystemTheme::Light => "system-light",
            SystemTheme::Dark => "system-dark",
        }
    }
}

} // verus!
