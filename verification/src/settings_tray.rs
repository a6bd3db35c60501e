//! The settings tray at the panel's right edge: the clock and the status
//! icons. Rendering lives outside the library; the tray's state and message
//! routing are verified here.

use vstd::prelude::*;

use crate::clock::{Clock, ClockMessage};

verus! {

/// The status-icon strip. It holds no state of its own; which icons it
/// shows is decided at render time.
pub struct StatusIcons {}

impl StatusIcons {
    pub fn new() -> (r: StatusIcons)
        ensures
            r == (StatusIcons {  }),
    {
        StatusIcons {  }
    }
}

/// A message for the settings tray, routed to the widget it concerns.
pub enum SettingsTrayMessage {
    Clock(ClockMessage),
}

/// The settings tray's state: its clock and its status icons.
pub struct SettingsTray {
    pub clock: Clock,
    pub status_icons: StatusIcons,
}

impl SettingsTray {
    /// A fresh tray: the clock shows nothing yet.
    pub fn new() -> (r: SettingsTray)
        ensures
            r.clock.time@ == Seq::<char>::empty(),
            r.clock.date@ == Seq::<char>::empty(),
    {
        SettingsTray { clock: Clock::new(), status_icons: StatusIcons::new() }
    }

    /// Route one message: a clock refresh reaches the clock, which then
    /// shows exactly the received strings.
    pub fn handle_message(&mut self, message: SettingsTrayMessage)
        ensures
            match message {
                SettingsTrayMessage::Clock(cm) => match cm {
                    ClockMessage::UpdateClock(t, d) => {
                        &&& final(self).clock.time == t
                        &&& final(self).clock.date == d
                    },
                },
            },
    {
        match message {
            SettingsTrayMessage::Clock(clock_msg) => {
                self.clock.handle_message(clock_msg);
            },
        }
    }
}

} // verus!
