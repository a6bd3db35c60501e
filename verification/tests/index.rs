use rbshell::backend::CompositorBackend;
use rbshell::events::{
    OutputInfo, OutputUpdate, ToplevelUpdate, WaylandIncoming, WaylandOutgoing, WaylandRequest,
    WaylandToplevelRequest,
};
use rbshell::toplevel::{
    CompositorToplevelInfo, OutputSet, ToplevelHandle, ToplevelState, ToplevelStateSet,
};

fn info(app_id: &str, title: &str, activated: bool, output: u64) -> CompositorToplevelInfo {
    let mut state = ToplevelStateSet::new();
    if activated {
        state.insert(ToplevelState::Activated);
    }
    let mut outputs = OutputSet::new();
    outputs.insert(output);
    CompositorToplevelInfo {
        title: title.to_string(),
        app_id: app_id.to_string(),
        state,
        output: outputs,
    }
}

fn an_output() -> OutputInfo {
    OutputInfo { name: None, location_x: 0, location_y: 0, width: 1024, height: 768 }
}

fn backend_with_output() -> CompositorBackend {
    let mut b = CompositorBackend::new();
    b.handle_incoming(WaylandIncoming::Output(OutputUpdate::Add(1, an_output())));
    b
}

#[test]
fn removal_leaves_no_trace_of_the_handle() {
    let h1 = ToplevelHandle::Zwlr(1);
    let h2 = ToplevelHandle::Zwlr(2);
    let mut b = backend_with_output();
    b.handle_incoming(WaylandIncoming::Toplevel(ToplevelUpdate::Add(h1, info("term", "a", false, 1))));
    b.handle_incoming(WaylandIncoming::Toplevel(ToplevelUpdate::Add(h2, info("term", "b", false, 1))));
    assert_eq!(b.active_toplevels.len(), 1);
    assert_eq!(b.active_toplevels[0].1.len(), 2);

    b.handle_incoming(WaylandIncoming::Toplevel(ToplevelUpdate::Remove(h1)));
    assert_eq!(b.active_toplevels.len(), 1);
    assert_eq!(b.active_toplevels[0].1.len(), 1);
    assert_eq!(b.active_toplevels[0].1[0].0, h2);

    // removing the last window deletes the group: absent, not empty
    b.handle_incoming(WaylandIncoming::Toplevel(ToplevelUpdate::Remove(h2)));
    assert!(b.active_toplevels.is_empty());
}

#[test]
fn group_cleanup_does_not_resurrect_related_apps() {
    let h1 = ToplevelHandle::Zwlr(1);
    let h2 = ToplevelHandle::Zwlr(2);
    let mut b = backend_with_output();
    b.handle_incoming(WaylandIncoming::Toplevel(ToplevelUpdate::Add(
        h1,
        info("firefox", "a", false, 1),
    )));
    b.handle_incoming(WaylandIncoming::Toplevel(ToplevelUpdate::Remove(h1)));
    b.handle_incoming(WaylandIncoming::Toplevel(ToplevelUpdate::Add(
        h2,
        info("firefox-nightly", "b", false, 1),
    )));
    assert_eq!(b.active_toplevels.len(), 1);
    assert_eq!(b.active_toplevels[0].0, "firefox-nightly");
    assert_eq!(b.active_toplevels[0].1.len(), 1);
    assert_eq!(b.active_toplevels[0].1[0].0, h2);
}

#[test]
fn update_replaces_in_place_and_defends_against_unknown_records() {
    let h1 = ToplevelHandle::Zwlr(1);
    let mut b = backend_with_output();
    b.handle_incoming(WaylandIncoming::Toplevel(ToplevelUpdate::Add(h1, info("edit", "a", false, 1))));

    // a normal update replaces the record in place
    b.handle_incoming(WaylandIncoming::Toplevel(ToplevelUpdate::Update(
        h1,
        info("edit", "b", true, 1),
    )));
    assert_eq!(b.active_toplevels[0].1[0].1.title, "b");

    // an update with an empty application id is a no-op
    b.handle_incoming(WaylandIncoming::Toplevel(ToplevelUpdate::Update(h1, info("", "c", false, 1))));
    assert_eq!(b.active_toplevels[0].1[0].1.title, "b");

    // an update for an application with no group is a no-op
    b.handle_incoming(WaylandIncoming::Toplevel(ToplevelUpdate::Update(
        h1,
        info("elsewhere", "d", false, 1),
    )));
    assert_eq!(b.active_toplevels.len(), 1);
    assert_eq!(b.active_toplevels[0].1[0].1.title, "b");
}

#[test]
fn focus_needs_activation_and_a_known_output() {
    let h1 = ToplevelHandle::Zwlr(1);
    let h2 = ToplevelHandle::Zwlr(2);
    let mut b = backend_with_output();
    // not activated: not focused
    b.handle_incoming(WaylandIncoming::Toplevel(ToplevelUpdate::Add(h1, info("a", "a", false, 1))));
    assert_eq!(b.active_window(), None);
    // activated but on an unknown output: not focused
    b.handle_incoming(WaylandIncoming::Toplevel(ToplevelUpdate::Add(h2, info("b", "b", true, 9))));
    assert_eq!(b.active_window(), None);
    // the exactly-one activated-and-on-a-known-output window is returned
    b.handle_incoming(WaylandIncoming::Toplevel(ToplevelUpdate::Update(h2, info("b", "b", true, 1))));
    assert_eq!(b.active_window(), Some(h2));
}

#[test]
fn outputs_update_and_leave() {
    let mut b = CompositorBackend::new();
    b.handle_incoming(WaylandIncoming::Output(OutputUpdate::Add(1, an_output())));
    b.handle_incoming(WaylandIncoming::Output(OutputUpdate::Update(
        1,
        OutputInfo { name: Some("DP-1".to_string()), location_x: 0, location_y: 0, width: 1, height: 1 },
    )));
    assert_eq!(b.output_list.len(), 1);
    assert_eq!(b.output_list[0].1.name.as_deref(), Some("DP-1"));
    b.handle_incoming(WaylandIncoming::Output(OutputUpdate::Remove(1)));
    assert!(b.output_list.is_empty());

    let h1 = ToplevelHandle::Zwlr(1);
    b.handle_incoming(WaylandIncoming::Toplevel(ToplevelUpdate::Add(h1, info("a", "a", true, 1))));
    // with the output gone, nothing is focused
    assert_eq!(b.active_window(), None);
}

#[test]
fn toggle_resolves_against_current_focus() {
    let h1 = ToplevelHandle::Zwlr(1);
    let mut b = backend_with_output();
    b.handle_incoming(WaylandIncoming::Toplevel(ToplevelUpdate::Add(h1, info("a", "a", true, 1))));
    assert_eq!(b.active_window(), Some(h1));

    // toggling the focused window minimizes it
    match b.handle_outgoing(WaylandOutgoing::Toggle(h1)) {
        WaylandRequest::Toplevel(WaylandToplevelRequest::Minimize(h)) => assert_eq!(h, h1),
        _ => panic!("toggle of the active window must minimize"),
    }

    // toggling an unfocused window activates it
    b.handle_incoming(WaylandIncoming::Toplevel(ToplevelUpdate::Update(h1, info("a", "a", false, 1))));
    match b.handle_outgoing(WaylandOutgoing::Toggle(h1)) {
        WaylandRequest::Toplevel(WaylandToplevelRequest::Activate(h)) => assert_eq!(h, h1),
        _ => panic!("toggle of an inactive window must activate"),
    }
}

#[test]
fn exec_resolves_to_a_token_request() {
    let b = CompositorBackend::new();
    match b.handle_outgoing(WaylandOutgoing::Exec("firefox".to_string(), "firefox %u".to_string())) {
        WaylandRequest::TokenRequest { app_id, exec_string, gpu_idx } => {
            assert_eq!(app_id, "firefox");
            assert_eq!(exec_string, "firefox %u");
            assert!(gpu_idx.is_none());
        }
        _ => panic!("exec must request an activation token"),
    }
}

#[test]
fn activate_resolves_directly() {
    let h1 = ToplevelHandle::Zcosmic(4);
    let b = CompositorBackend::new();
    match b.handle_outgoing(WaylandOutgoing::Activate(h1)) {
        WaylandRequest::Toplevel(WaylandToplevelRequest::Activate(h)) => assert_eq!(h, h1),
        _ => panic!("activate must resolve to an activate request"),
    }
}

#[test]
fn init_and_finished_leave_the_index_alone() {
    let h1 = ToplevelHandle::Zwlr(1);
    let mut b = backend_with_output();
    b.handle_incoming(WaylandIncoming::Toplevel(ToplevelUpdate::Add(h1, info("a", "a", false, 1))));
    b.handle_incoming(WaylandIncoming::Init);
    b.handle_incoming(WaylandIncoming::Finished);
    assert_eq!(b.active_toplevels.len(), 1);
    assert_eq!(b.output_list.len(), 1);
}
