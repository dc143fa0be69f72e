//! Session autostart entry.

use vstd::prelude::*;
use vstd::string::StringExecFns;

verus! {

/// Text of the XDG autostart entry before the executable path.
pub open spec fn desktop_entry_head() -> Seq<char> {
    "[Desktop Entry]\nType=Application\nName=NextTabletDriver\nComment=Tablet Driver for Osu! and Drawing\nExec="@
}

/// Text of the XDG autostart entry after the executable path.
pub open spec fn desktop_entry_tail() -> Seq<char> {
    "\nTerminal=false\nX-GNOME-Autostart-enabled=true\nStartupNotify=false\n"@
}

/// Contents of the `.desktop` file that starts the driver with the session,
/// launching the executable at `exe_path`.
pub fn desktop_entry_contents(exe_path: &str) -> (contents: String)
    ensures
        contents@ == desktop_entry_head() + exe_path@ + desktop_entry_tail(),
{
    let mut contents = String::from_str(
        "[Desktop Entry]\nType=Application\nName=NextTabletDriver\nComment=Tablet Driver for Osu! and Drawing\nExec=",
    );
    contents.append(exe_path);
    contents.append("\nTerminal=false\nX-GNOME-Autostart-enabled=true\nStartupNotify=false\n");
    contents
}

} // verus!
