//! The start menu: its state and message handling. Rendering the menu and
//! its popup live outside the library.

use vstd::prelude::*;

use std::rc::Rc;

use crate::desktop_entry::DesktopEntryCache;

verus! {

/// A message for the start menu: toggle the popup, or launch the
/// application with the given id.
pub enum StartMenuMessage {
    MenuToggle,
    Launch(String),
}

/// The start menu's state: the shared desktop-entry cache it lists.
pub struct StartMenu {
    pub de_cache: Rc<DesktopEntryCache>,
}

impl StartMenu {
    pub fn new(de_cache: Rc<DesktopEntryCache>) -> (r: StartMenu)
        ensures
            r.de_cache == de_cache,
    {
        StartMenu { de_cache }
    }

    /// Handle a launch request; launching itself is dispatched elsewhere, so
    /// the menu's state does not change. A toggle never reaches the menu —
    /// the panel resolves it into opening the popup — so it is left out
    /// here.
    pub fn handle_message(&mut self, message: StartMenuMessage)
        requires
            message matches StartMenuMessage::Launch(_),
        ensures
            *final(self) == *old(self),
    {
        match message {
            StartMenuMessage::MenuToggle => {},
            StartMenuMessage::Launch(_) => {},
        }
    }
}

} // verus!
