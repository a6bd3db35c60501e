//! A desktop shell panel library for Wayland compositors.
//!
//! The heart of the crate is the toplevel-tracking state machine: a registry
//! of compositor window handles with a double-buffered commit protocol, an
//! application-side index that folds add/update/remove notifications into a
//! per-application view, and the small decision functions that surround them
//! (event normalization, command resolution, the subscription bridge, and the
//! panel's auxiliary widgets).

pub mod app_tray;
pub mod backend;
pub mod bridge;
pub mod clock;
pub mod config;
pub mod desktop_entry;
pub mod events;
pub mod icons;
pub mod normalizer;
pub mod panel;
pub mod registry;
pub mod settings_tray;
pub mod start_menu;
pub mod text;
pub mod toplevel;
