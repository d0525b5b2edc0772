//! The decisions of the tray icon's menu: showing and hiding the console
//! window, and asking the program to exit.
use vstd::prelude::*;

verus! {

/// A click on the tray menu.
#[derive(Clone, Copy, Debug, PartialEq, Eq, Structural)]
pub enum TrayEvent {
    /// The "Show console" / "Hide console" item.
    ToggleConsole,
    /// The "Exit" item.
    Exit,
    /// Any other menu event.
    Other,
}

/// What the tray loop does in answer to a click.
#[derive(Clone, Copy, Debug, PartialEq, Eq, Structural)]
pub enum TrayAction {
    /// Show the console window and bring it to the front.
    ShowConsole,
    /// Hide the console window.
    HideConsole,
    /// Signal the exit and leave the loop.
    Exit,
    /// Nothing.
    Nothing,
}

/// The console's visibility after `event`, and what to do: the toggle item
/// hides a visible console and shows a hidden one, the exit item ends the
/// loop, and anything else changes nothing.
pub open spec fn tray_transition(console_visible: bool, event: TrayEvent) -> (bool, TrayAction) {
    match event {
        TrayEvent::ToggleConsole => if console_visible {
            (false, TrayAction::HideConsole)
        } else {
            (true, TrayAction::ShowConsole)
        },
        TrayEvent::Exit => (console_visible, TrayAction::Exit),
        TrayEvent::Other => (console_visible, TrayAction::Nothing),
    }
}

/// Computes `tray_transition(console_visible, event)`.
pub fn tray_step(console_visible: bool, event: TrayEvent) -> (r: (bool, TrayAction))
    ensures
        r == tray_transition(console_visible, event),
{
    match event {
        TrayEvent::ToggleConsole => if console_visible {
            (false, TrayAction::HideConsole)
        } else {
            (true, TrayAction::ShowConsole)
        },
        TrayEvent::Exit => (console_visible, TrayAction::Exit),
        TrayEvent::Other => (console_visible, TrayAction::Nothing),
    }
}

/// The text of the toggle item: it offers to hide a visible console and to
/// show a hidden one.
pub fn console_item_label(console_visible: bool) -> (r: &'static str)
    ensures
        r@ == (if console_visible { "Hide console"@ } else { "Show console"@ }),
{
    if console_visible {
        "Hide console"
    } else {
        "Show console"
    }
}

/// Toggling the console twice gives back the visibility it had.
pub proof fn law_toggle_twice_restores(console_visible: bool)
    ensures
        tray_transition(tray_transition(console_visible, TrayEvent::ToggleConsole).0, TrayEvent::ToggleConsole).0
            == console_visible,
{
}

/// Exiting and other events leave the console as it is.
pub proof fn law_non_toggle_keeps_console(console_visible: bool, event: TrayEvent)
    requires
        event != TrayEvent::ToggleConsole,
    ensures
        tray_transition(console_visible, event).0 == console_visible,
{
}

} // verus!
