use std::rc::Rc;

use rbshell::app_tray::{AppTray, AppTrayMessage};
use rbshell::backend::{select_backend, BackendKind};
use rbshell::bridge::{listen_step, State};
use rbshell::config::{AppTrayConfig, InnerConfig, PanelConfig};
use rbshell::desktop_entry::{DesktopEntryCache, DesktopEntryMeta, EntryInfo};
use rbshell::events::{
    OutputInfo, OutputUpdate, ToplevelUpdate, WaylandIncoming, WaylandOutgoing, WaylandRequest,
    WaylandToplevelRequest,
};
use rbshell::icons::IconTheme;
use rbshell::normalizer::{state_flag_from_u32, toplevel_state_set_from_bytes};
use rbshell::panel::{Panel, PopupCloseAction, PopupType};
use rbshell::start_menu::{StartMenu, StartMenuMessage};
use rbshell::toplevel::{
    CompositorToplevelInfo, OutputSet, ToplevelHandle, ToplevelState, ToplevelStateSet,
};

#[test]
fn state_flags_decode_by_wire_value() {
    assert_eq!(state_flag_from_u32(0), Some(ToplevelState::Maximized));
    assert_eq!(state_flag_from_u32(1), Some(ToplevelState::Minimized));
    assert_eq!(state_flag_from_u32(2), Some(ToplevelState::Activated));
    assert_eq!(state_flag_from_u32(3), Some(ToplevelState::Fullscreen));
    assert_eq!(state_flag_from_u32(4), None);
    assert_eq!(state_flag_from_u32(u32::MAX), None);
}

/// An unrecognized flag among valid ones is dropped, never aborting the
/// decoding of the rest.
#[test]
fn bitset_with_unknown_flag_keeps_the_valid_flags() {
    // activated (2), maximized (0), and an unrecognized value (99)
    let bytes: Vec<u8> = vec![2, 0, 0, 0, 0, 0, 0, 0, 99, 0, 0, 0];
    let set = toplevel_state_set_from_bytes(&bytes);
    assert!(set.activated);
    assert!(set.maximized);
    assert!(!set.minimized);
    assert!(!set.fullscreen);
}

#[test]
fn bitset_trailing_fragment_is_ignored() {
    // one whole word (minimized) plus three leftover bytes
    let bytes: Vec<u8> = vec![1, 0, 0, 0, 3, 0, 0];
    let set = toplevel_state_set_from_bytes(&bytes);
    assert!(set.minimized);
    assert!(!set.fullscreen);
    let empty = toplevel_state_set_from_bytes(&Vec::new());
    assert_eq!(empty, ToplevelStateSet::new());
}

#[test]
fn bridge_forwards_then_finishes_then_stays_inert() {
    // a received item is forwarded unchanged, the stream stays live
    let (state, emitted) = listen_step(State::Waiting, Some(WaylandIncoming::Init));
    assert_eq!(state, State::Waiting);
    assert!(matches!(emitted, Some(WaylandIncoming::Init)));

    // the stream's end forwards the terminal marker once
    let (state, emitted) = listen_step(State::Waiting, None);
    assert_eq!(state, State::Finished);
    assert!(matches!(emitted, Some(WaylandIncoming::Finished)));

    // afterwards the subscription never resolves anything again
    let (state, emitted) = listen_step(State::Finished, Some(WaylandIncoming::Init));
    assert_eq!(state, State::Finished);
    assert!(emitted.is_none());
}

#[test]
fn popup_bookkeeping_closes_the_right_window() {
    let mut panel = Panel::new(100);
    assert_eq!(panel.title(), "Window");
    assert!(panel.popup_window.is_none());

    // nothing was open: nothing to close
    let action = panel.open_popup(7, PopupType::StartMenu);
    assert!(matches!(action, PopupCloseAction::NoAction));

    // a start-menu popup was open: the incoming surface is destroyed
    let action = panel.open_popup(8, PopupType::AppTrayContextMenu { app_id: "x".to_string() });
    assert!(matches!(action, PopupCloseAction::DestroyPopup(8)));

    // a context menu was open: its window is closed
    let action = panel.open_popup(9, PopupType::StartMenu);
    assert!(matches!(action, PopupCloseAction::CloseWindow(8)));
    match &panel.popup_window {
        Some((id, PopupType::StartMenu)) => assert_eq!(*id, 9),
        _ => panic!("the new popup must be registered"),
    }
}

#[test]
fn config_defaults_pin_firefox() {
    let tray = AppTrayConfig::default();
    assert_eq!(tray.favorites, vec!["org.mozilla.firefox".to_string()]);
    let inner = InnerConfig::default();
    assert_eq!(inner.app_tray.favorites.len(), 1);
    assert!(inner.icon_theme.is_none());
    assert!(inner.use_winit.is_none());
    let config = PanelConfig::new(inner, "/tmp/config.json".to_string());
    assert_eq!(config.file_path, "/tmp/config.json");
}

#[test]
fn start_menu_takes_launch_requests() {
    let cache = Rc::new(DesktopEntryCache::build(Vec::new(), &IconTheme::NoTheme));
    let mut menu = StartMenu::new(cache);
    menu.handle_message(StartMenuMessage::Launch("firefox".to_string()));
}

fn empty_tray() -> AppTray {
    let cache = Rc::new(DesktopEntryCache::build(Vec::new(), &IconTheme::NoTheme));
    AppTray::new(AppTrayConfig::default(), cache)
}

fn window(app_id: &str, output: u64) -> CompositorToplevelInfo {
    let mut state = ToplevelStateSet::new();
    state.insert(ToplevelState::Activated);
    let mut outputs = OutputSet::new();
    outputs.insert(output);
    CompositorToplevelInfo {
        title: app_id.to_string(),
        app_id: app_id.to_string(),
        state,
        output: outputs,
    }
}

#[test]
fn tray_routes_messages_and_resolves_commands() {
    let h1 = ToplevelHandle::Zwlr(1);
    let mut tray = empty_tray();
    assert!(tray
        .handle_message(AppTrayMessage::WaylandIn(WaylandIncoming::Output(OutputUpdate::Add(
            1,
            OutputInfo { name: None, location_x: 0, location_y: 0, width: 1, height: 1 },
        ))))
        .is_none());
    assert!(tray
        .handle_message(AppTrayMessage::WaylandIn(WaylandIncoming::Toplevel(ToplevelUpdate::Add(
            h1,
            window("kitty", 1),
        ))))
        .is_none());
    assert!(tray.handle_message(AppTrayMessage::NewSeat(1)).is_none());
    assert!(tray.handle_message(AppTrayMessage::RemovedSeat(1)).is_none());

    // the focused window's toggle resolves to minimize, through the tray
    match tray.handle_message(AppTrayMessage::WaylandOut(WaylandOutgoing::Toggle(h1))) {
        Some(WaylandRequest::Toplevel(WaylandToplevelRequest::Minimize(h))) => assert_eq!(h, h1),
        _ => panic!("toggle of the focused window must minimize"),
    }
}

#[test]
fn tray_order_lists_favorites_first_without_duplicates() {
    let h1 = ToplevelHandle::Zwlr(1);
    let h2 = ToplevelHandle::Zwlr(2);
    let mut tray = empty_tray();
    tray.handle_message(AppTrayMessage::WaylandIn(WaylandIncoming::Toplevel(ToplevelUpdate::Add(
        h1,
        window("kitty", 1),
    ))));
    tray.handle_message(AppTrayMessage::WaylandIn(WaylandIncoming::Toplevel(ToplevelUpdate::Add(
        h2,
        window("org.mozilla.firefox", 1),
    ))));
    let order = tray.tray_order();
    assert_eq!(order, vec!["org.mozilla.firefox".to_string(), "kitty".to_string()]);
}

fn visible_entry(appid: &str, exec_string: Option<&str>) -> EntryInfo {
    EntryInfo::new(
        DesktopEntryMeta {
            appid: appid.to_string(),
            name: Some(appid.to_string()),
            name_default: Some(appid.to_string()),
            startup_wm_class: None,
            exec_string: exec_string.map(|e| e.to_string()),
            icon: None,
            no_display: false,
            terminal: false,
        },
        &IconTheme::NoTheme,
    )
}

#[test]
fn tray_button_actions() {
    let app_id = "kitty".to_string();
    let h1 = ToplevelHandle::Zwlr(1);
    let entry = visible_entry("kitty", Some("kitty"));

    // no cache entry: no button at all
    assert!(AppTray::tray_item_action(&app_id, None, 0, None).is_none());

    // no window: pressing launches the entry's command
    match AppTray::tray_item_action(&app_id, Some(&entry), 0, None) {
        Some(AppTrayMessage::WaylandOut(WaylandOutgoing::Exec(a, x))) => {
            assert_eq!(a, "kitty");
            assert_eq!(x, "kitty");
        }
        _ => panic!("a launchable entry without windows must launch"),
    }

    // no window and no command: nothing to do
    let no_exec = visible_entry("kitty", None);
    // such an entry is invisible, so no action either way
    assert!(AppTray::tray_item_action(&app_id, Some(&no_exec), 0, None).is_none());

    // one window: pressing toggles it
    match AppTray::tray_item_action(&app_id, Some(&entry), 1, Some(h1)) {
        Some(AppTrayMessage::WaylandOut(WaylandOutgoing::Toggle(h))) => assert_eq!(h, h1),
        _ => panic!("a single window must toggle"),
    }

    // several windows: no press action
    assert!(AppTray::tray_item_action(&app_id, Some(&entry), 2, Some(h1)).is_none());
}

#[test]
fn backend_selection_degrades_to_a_no_op() {
    assert_eq!(select_backend(Some("COSMIC")), BackendKind::Cosmic);
    assert_eq!(select_backend(Some("cosmic")), BackendKind::NotSupported);
    assert_eq!(select_backend(Some("KDE")), BackendKind::NotSupported);
    assert_eq!(select_backend(None), BackendKind::NotSupported);
}
