//! The panel's window bookkeeping: which popup window, if any, is open
//! beside the main panel window, and what to close when a new one opens.
//! Window creation and rendering live outside the library.

use vstd::prelude::*;

use vstd::string::StringExecFns;

verus! {

/// What kind of popup a window shows.
pub enum PopupType {
    AppTrayContextMenu { app_id: String },
    StartMenu,
}

/// What the view layer must do about the previously open popup when a new
/// one is registered: close its window, destroy the popup surface with the
/// given id, or nothing when none was open.
pub enum PopupCloseAction {
    CloseWindow(u64),
    DestroyPopup(u64),
    NoAction,
}

/// The panel's window state: the main window's id and the open popup, if
/// any.
pub struct Panel {
    pub main_window: u64,
    pub popup_window: Option<(u64, PopupType)>,
}

impl Panel {
    /// A panel with its main window and no popup.
    pub fn new(main_window: u64) -> (r: Panel)
        ensures
            r.main_window == main_window,
            r.popup_window is None,
    {
        Panel { main_window, popup_window: None }
    }

    /// Every window of the panel carries the same title.
    pub fn title(&self) -> (r: String)
        ensures
            r@ == "Window"@,
    {
        String::from_str("Window")
    }

    /// Register a newly opened popup window: it replaces the previous one,
    /// whose context menu window is closed — while a previous start-menu
    /// popup has the incoming surface destroyed instead.
    pub fn open_popup(&mut self, id: u64, popup: PopupType) -> (r: PopupCloseAction)
        ensures
            final(self).main_window == old(self).main_window,
            final(self).popup_window == Some((id, popup)),
            r == (match old(self).popup_window {
                Some(p) => match p.1 {
                    PopupType::AppTrayContextMenu { .. } => PopupCloseAction::CloseWindow(p.0),
                    PopupType::StartMenu => PopupCloseAction::DestroyPopup(id),
                },
                None => PopupCloseAction::NoAction,
            }),
    {
        let action = match self.popup_window.take() {
            Some((previous, popup_type)) => match popup_type {
                PopupType::AppTrayContextMenu { .. } => PopupCloseAction::CloseWindow(previous),
                PopupType::StartMenu => PopupCloseAction::DestroyPopup(id),
            },
            None => PopupCloseAction::NoAction,
        };
        self.popup_window = Some((id, popup));
        action
    }
}

} // verus!
