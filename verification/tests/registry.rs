use rbshell::events::{OutputUpdate, ToplevelHandleEvent, ToplevelManagerEvent, ToplevelUpdate, WaylandIncoming};
use rbshell::registry::ToplevelManager;
use rbshell::toplevel::{ToplevelHandle, ToplevelState, ToplevelStateSet};

fn activated_set() -> ToplevelStateSet {
    let mut s = ToplevelStateSet::new();
    s.insert(ToplevelState::Activated);
    s
}

#[test]
fn attribute_events_emit_nothing_and_commit_publishes_everything() {
    let h1 = ToplevelHandle::Zwlr(1);
    let mut registry = ToplevelManager::new();
    registry.handle_toplevel_manager_event(ToplevelManagerEvent::Toplevel(h1));

    let r = registry.handle_toplevel_handle_event(
        h1,
        ToplevelHandleEvent::Title { title: "Mozilla Firefox".to_string() },
    );
    assert!(r.is_none());
    let r = registry.handle_toplevel_handle_event(
        h1,
        ToplevelHandleEvent::AppId { app_id: "firefox".to_string() },
    );
    assert!(r.is_none());
    let r = registry.handle_toplevel_handle_event(
        h1,
        ToplevelHandleEvent::OutputEnter { output: 7 },
    );
    assert!(r.is_none());
    let r = registry.handle_toplevel_handle_event(
        h1,
        ToplevelHandleEvent::State { state: activated_set() },
    );
    assert!(r.is_none());

    // The one commit publishes the fully accumulated record, never a
    // partial one.
    let r = registry.handle_toplevel_handle_event(h1, ToplevelHandleEvent::Done);
    match r {
        Some(ToplevelUpdate::Add(handle, info)) => {
            assert_eq!(handle, h1);
            assert_eq!(info.title, "Mozilla Firefox");
            assert_eq!(info.app_id, "firefox");
            assert!(info.state.activated);
            assert!(!info.state.maximized);
            assert_eq!(info.output.ids, vec![7u64]);
        }
        _ => panic!("first commit must publish Add"),
    }
}

#[test]
fn first_commit_adds_later_commits_update() {
    let h1 = ToplevelHandle::Zcosmic(5);
    let mut registry = ToplevelManager::new();
    registry.handle_toplevel_manager_event(ToplevelManagerEvent::Toplevel(h1));
    registry.handle_toplevel_handle_event(
        h1,
        ToplevelHandleEvent::AppId { app_id: "kitty".to_string() },
    );

    let first = registry.handle_toplevel_handle_event(h1, ToplevelHandleEvent::Done);
    assert!(matches!(first, Some(ToplevelUpdate::Add(_, _))));

    let second = registry.handle_toplevel_handle_event(h1, ToplevelHandleEvent::Done);
    assert!(matches!(second, Some(ToplevelUpdate::Update(_, _))));

    registry.handle_toplevel_handle_event(
        h1,
        ToplevelHandleEvent::Title { title: "htop".to_string() },
    );
    let third = registry.handle_toplevel_handle_event(h1, ToplevelHandleEvent::Done);
    match third {
        Some(ToplevelUpdate::Update(handle, info)) => {
            assert_eq!(handle, h1);
            assert_eq!(info.title, "htop");
        }
        _ => panic!("a commit after the first must publish Update"),
    }
}

#[test]
fn closed_removes_even_before_any_commit() {
    let h1 = ToplevelHandle::Zwlr(9);
    let mut registry = ToplevelManager::new();
    registry.handle_toplevel_manager_event(ToplevelManagerEvent::Toplevel(h1));
    let r = registry.handle_toplevel_handle_event(h1, ToplevelHandleEvent::Closed);
    assert!(matches!(r, Some(ToplevelUpdate::Remove(h)) if h == h1));
    assert!(!registry.contains_handle(h1));
}

#[test]
fn noop_events_change_nothing() {
    let h1 = ToplevelHandle::Zwlr(2);
    let mut registry = ToplevelManager::new();
    registry.handle_toplevel_manager_event(ToplevelManagerEvent::Toplevel(h1));
    let r = registry.handle_toplevel_handle_event(h1, ToplevelHandleEvent::NoOp);
    assert!(r.is_none());
    assert!(registry.contains_handle(h1));
    registry.handle_toplevel_manager_event(ToplevelManagerEvent::Finished);
    assert!(registry.contains_handle(h1));
}

#[test]
fn output_enter_and_leave_edit_pending_outputs() {
    let h1 = ToplevelHandle::Zwlr(3);
    let mut registry = ToplevelManager::new();
    registry.handle_toplevel_manager_event(ToplevelManagerEvent::Toplevel(h1));
    registry.handle_toplevel_handle_event(h1, ToplevelHandleEvent::OutputEnter { output: 1 });
    registry.handle_toplevel_handle_event(h1, ToplevelHandleEvent::OutputEnter { output: 2 });
    // a second enter of the same output is not duplicated
    registry.handle_toplevel_handle_event(h1, ToplevelHandleEvent::OutputEnter { output: 1 });
    registry.handle_toplevel_handle_event(h1, ToplevelHandleEvent::OutputLeave { output: 1 });
    let r = registry.handle_toplevel_handle_event(h1, ToplevelHandleEvent::Done);
    match r {
        Some(ToplevelUpdate::Add(_, info)) => {
            assert_eq!(info.output.ids, vec![2u64]);
        }
        _ => panic!("commit expected"),
    }
}

/// The end-to-end scenario of a window appearing with title, app id and
/// activated state, then committing: the index lists it under its
/// application and reports it focused.
#[test]
fn end_to_end_announce_commit_focus() {
    let h1 = ToplevelHandle::Zcosmic(11);
    let mut registry = ToplevelManager::new();
    let mut backend = rbshell::backend::CompositorBackend::new();

    // the compositor advertises an output, and the window intersects it
    backend.handle_incoming(WaylandIncoming::Output(OutputUpdate::Add(
        1,
        rbshell::events::OutputInfo {
            name: Some("eDP-1".to_string()),
            location_x: 0,
            location_y: 0,
            width: 1920,
            height: 1080,
        },
    )));

    registry.handle_toplevel_manager_event(ToplevelManagerEvent::Toplevel(h1));
    registry.handle_toplevel_handle_event(
        h1,
        ToplevelHandleEvent::Title { title: "Mozilla Firefox".to_string() },
    );
    registry.handle_toplevel_handle_event(
        h1,
        ToplevelHandleEvent::AppId { app_id: "firefox".to_string() },
    );
    registry.handle_toplevel_handle_event(h1, ToplevelHandleEvent::OutputEnter { output: 1 });
    registry.handle_toplevel_handle_event(
        h1,
        ToplevelHandleEvent::State { state: activated_set() },
    );
    let update = registry
        .handle_toplevel_handle_event(h1, ToplevelHandleEvent::Done)
        .expect("commit publishes");
    backend.handle_incoming(WaylandIncoming::Toplevel(update));

    assert_eq!(backend.active_toplevels.len(), 1);
    let (app_id, group) = &backend.active_toplevels[0];
    assert_eq!(app_id, "firefox");
    assert_eq!(group.len(), 1);
    assert_eq!(group[0].0, h1);
    assert_eq!(group[0].1.title, "Mozilla Firefox");
    assert_eq!(group[0].1.app_id, "firefox");
    assert!(group[0].1.state.activated);
    assert_eq!(backend.active_window(), Some(h1));
}

/// The follow-up scenario: the window deactivates and commits, then closes.
/// After the second commit nothing is focused; after the closure the
/// application is absent from the index entirely.
#[test]
fn end_to_end_deactivate_then_close() {
    let h1 = ToplevelHandle::Zcosmic(11);
    let mut registry = ToplevelManager::new();
    let mut backend = rbshell::backend::CompositorBackend::new();

    backend.handle_incoming(WaylandIncoming::Output(OutputUpdate::Add(
        1,
        rbshell::events::OutputInfo {
            name: None,
            location_x: 0,
            location_y: 0,
            width: 800,
            height: 600,
        },
    )));

    registry.handle_toplevel_manager_event(ToplevelManagerEvent::Toplevel(h1));
    registry.handle_toplevel_handle_event(
        h1,
        ToplevelHandleEvent::Title { title: "Mozilla Firefox".to_string() },
    );
    registry.handle_toplevel_handle_event(
        h1,
        ToplevelHandleEvent::AppId { app_id: "firefox".to_string() },
    );
    registry.handle_toplevel_handle_event(h1, ToplevelHandleEvent::OutputEnter { output: 1 });
    registry.handle_toplevel_handle_event(
        h1,
        ToplevelHandleEvent::State { state: activated_set() },
    );
    let update = registry
        .handle_toplevel_handle_event(h1, ToplevelHandleEvent::Done)
        .expect("commit publishes");
    backend.handle_incoming(WaylandIncoming::Toplevel(update));
    assert_eq!(backend.active_window(), Some(h1));

    // deactivated: an empty state set arrives, then a commit
    registry.handle_toplevel_handle_event(
        h1,
        ToplevelHandleEvent::State { state: ToplevelStateSet::new() },
    );
    let update = registry
        .handle_toplevel_handle_event(h1, ToplevelHandleEvent::Done)
        .expect("commit publishes");
    assert!(matches!(update, ToplevelUpdate::Update(_, _)));
    backend.handle_incoming(WaylandIncoming::Toplevel(update));

    let (_, group) = &backend.active_toplevels[0];
    assert!(!group[0].1.state.activated);
    assert_eq!(backend.active_window(), None);

    // closed: the application disappears from the index, not merely empties
    let update = registry
        .handle_toplevel_handle_event(h1, ToplevelHandleEvent::Closed)
        .expect("closure publishes");
    backend.handle_incoming(WaylandIncoming::Toplevel(update));
    assert!(backend.active_toplevels.is_empty());
    assert_eq!(backend.active_window(), None);
}
