//! What the tray menu's entries do.

use vstd::prelude::*;

use crate::text::str_equals;

verus! {

broadcast use vstd::string::group_string_axioms;

/// The effect of choosing a tray menu entry.
#[derive(PartialEq, Eq, Structural, Clone, Copy, Debug)]
pub enum TrayAction {
    /// Bring the main window back into view.
    ShowWindow,
    /// Resume everything stashed, then exit.
    RestoreAndQuit,
    /// Not an entry of this menu: nothing happens.
    Ignore,
}

/// The action for the menu entry `id`: "show" shows the window, "quit"
/// restores every stashed window before exiting (so quitting never strands
/// suspended processes), and any other id does nothing.
pub fn tray_menu_action(id: &str) -> (a: TrayAction)
    ensures
        a == (if id@ == "show"@ {
            TrayAction::ShowWindow
        } else if id@ == "quit"@ {
            TrayAction::RestoreAndQuit
        } else {
            TrayAction::Ignore
        }),
{
    if str_equals(id, "show") {
        TrayAction::ShowWindow
    } else if str_equals(id, "quit") {
        TrayAction::RestoreAndQuit
    } else {
        TrayAction::Ignore
    }
}

} // verus!
