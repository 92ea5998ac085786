//! The desktop entry that starts the launcher with the session.
use vstd::prelude::*;

verus! {

/// The autostart desktop entry.
pub open spec fn autostart_entry_seq() -> Seq<char> {
    "[Desktop Entry]\nType=Application\nName=Gpotlight\nComment=Spotlight-style launcher for GNOME\nExec=sh -c 'setsid gpotlight >/dev/null 2>&1 &'\nIcon=io.github.gpotlight.Gpotlight\nCategories=Utility;GTK;\nStartupNotify=false\nNoDisplay=true\nX-GNOME-Autostart-enabled=true\n"@
}

/// The text of the autostart desktop entry.
pub fn desktop_entry() -> (r: &'static str)
    ensures
        r@ == autostart_entry_seq(),
{
    "[Desktop Entry]\nType=Application\nName=Gpotlight\nComment=Spotlight-style launcher for GNOME\nExec=sh -c 'setsid gpotlight >/dev/null 2>&1 &'\nIcon=io.github.gpotlight.Gpotlight\nCategories=Utility;GTK;\nStartupNotify=false\nNoDisplay=true\nX-GNOME-Autostart-enabled=true\n"
}

} // verus!
