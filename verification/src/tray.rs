//! The tray: its tooltip, its menu, and the busy indicator's state.

use vstd::prelude::*;

use crate::text::{chars_eq_str, chars_of, owned};
use crate::{spec_version, version};

verus! {

/// The tray tooltip, which tells whether a conversion is running.
pub open spec fn spec_tooltip(busy: bool) -> Seq<char> {
    if busy {
        "Boinc v"@ + spec_version() + " — converting…"@
    } else {
        "Boinc file converter v"@ + spec_version()
    }
}

/// The tray tooltip.
pub fn tooltip(busy: bool) -> (s: String)
    ensures
        s@ == spec_tooltip(busy),
{
    if busy {
        let mut s = owned("Boinc v");
        s.append(version());
        s.append(" — converting…");
        s
    } else {
        let mut s = owned("Boinc file converter v");
        s.append(version());
        s
    }
}

/// What a tray menu click asks for.
#[derive(Debug, Clone, Copy, PartialEq, Eq, Structural)]
pub enum MenuAction {
    OpenWindow,
    TogglePause,
    Quit,
    /// An item this menu did not create.
    Ignore,
}

/// The action of the menu item with id `id` (`open`, `pause`, `quit`).
pub fn menu_action(id: &str) -> (a: MenuAction)
    ensures
        a == (if id@ == "open"@ {
            MenuAction::OpenWindow
        } else if id@ == "pause"@ {
            MenuAction::TogglePause
        } else if id@ == "quit"@ {
            MenuAction::Quit
        } else {
            MenuAction::Ignore
        }),
{
    let v = chars_of(id);
    if chars_eq_str(v.as_slice(), "open") {
        MenuAction::OpenWindow
    } else if chars_eq_str(v.as_slice(), "pause") {
        MenuAction::TogglePause
    } else if chars_eq_str(v.as_slice(), "quit") {
        MenuAction::Quit
    } else {
        MenuAction::Ignore
    }
}

/// Spinner frames per revolution.
pub const SPINNER_STEPS: u8 = 8;

/// The next spinner frame.
pub fn next_phase(phase: u8) -> (p: u8)
    ensures
        p == (phase + 1) % (SPINNER_STEPS as int),
        p < SPINNER_STEPS,
{
    ((phase as u16 + 1) % (SPINNER_STEPS as u16)) as u8
}

/// The busy state last pushed to the tray, so repeated states are not
/// pushed again.
#[derive(Debug, Clone, Copy, PartialEq, Eq)]
pub struct TrayState {
    pub last: Option<bool>,
}

impl TrayState {
    /// Nothing pushed yet.
    pub fn new() -> (s: Self)
        ensures
            s.last is None,
    {
        TrayState { last: None }
    }

    /// Record the busy state; returns whether it changed (and so must be
    /// pushed to the icon).
    pub fn set_busy(&mut self, busy: bool) -> (changed: bool)
        ensures
            changed == (old(self).last != Some(busy)),
            final(self).last == Some(busy),
    {
        if self.last == Some(busy) {
            return false;
        }
        self.last = Some(busy);
        true
    }
}

} // verus!
