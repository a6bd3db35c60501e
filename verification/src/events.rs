//! The internal event vocabulary: normalized per-window protocol events,
//! registry-level updates published to the application thread, and outgoing
//! command requests handed back to the compositor worker.

use vstd::prelude::*;

use crate::toplevel::{
    CompositorToplevelInfo, ToplevelHandle, ToplevelInfoModel, ToplevelStateSet,
};

verus! {

/// A normalized event about one toplevel window, as any backend reports it.
/// Attribute events mutate only the window's pending record; `Done` commits
/// the pending record; `Closed` removes the window. `NoOp` stands for wire
/// events that are documented no-ops (for instance parent or workspace
/// notifications that this model does not track).
#[derive(Clone, Debug)]
pub enum ToplevelHandleEvent {
    Title { title: String },
    AppId { app_id: String },
    OutputEnter { output: u64 },
    OutputLeave { output: u64 },
    State { state: ToplevelStateSet },
    Done,
    Closed,
    NoOp,
}

/// A normalized event from a toplevel manager: a new window was announced,
/// or the manager finished and will send nothing more.
#[derive(Clone, Debug)]
pub enum ToplevelManagerEvent {
    Toplevel(ToplevelHandle),
    Finished,
}

/// The ghost model of a registry-level update.
pub ghost enum ToplevelUpdateModel {
    Add(ToplevelHandle, ToplevelInfoModel),
    Update(ToplevelHandle, ToplevelInfoModel),
    Remove(ToplevelHandle),
}

/// One update published by the registry to the application thread: the first
/// commit of a window appears as `Add`, every later commit as `Update`, and
/// its closure as `Remove`.
#[derive(Clone, Debug)]
pub enum ToplevelUpdate {
    Add(ToplevelHandle, CompositorToplevelInfo),
    Update(ToplevelHandle, CompositorToplevelInfo),
    Remove(ToplevelHandle),
}

impl View for ToplevelUpdate {
    type V = ToplevelUpdateModel;

    open spec fn view(&self) -> ToplevelUpdateModel {
        match self {
            ToplevelUpdate::Add(h, info) => ToplevelUpdateModel::Add(*h, info@),
            ToplevelUpdate::Update(h, info) => ToplevelUpdateModel::Update(*h, info@),
            ToplevelUpdate::Remove(h) => ToplevelUpdateModel::Remove(*h),
        }
    }
}

/// The model of an optional update, for contracts over emitted updates.
pub open spec fn opt_update_view(r: Option<ToplevelUpdate>) -> Option<ToplevelUpdateModel> {
    match r {
        Some(u) => Some(u@),
        None => None,
    }
}

/// The ghost model of per-output metadata.
pub ghost struct OutputInfoModel {
    pub name: Option<Seq<char>>,
    pub location_x: i32,
    pub location_y: i32,
    pub width: i32,
    pub height: i32,
}

/// Metadata of one output (monitor): its advertised name and geometry.
#[derive(Clone, Debug)]
pub struct OutputInfo {
    pub name: Option<String>,
    pub location_x: i32,
    pub location_y: i32,
    pub width: i32,
    pub height: i32,
}

impl View for OutputInfo {
    type V = OutputInfoModel;

    open spec fn view(&self) -> OutputInfoModel {
        OutputInfoModel {
            name: match self.name {
                Some(n) => Some(n@),
                None => None,
            },
            location_x: self.location_x,
            location_y: self.location_y,
            width: self.width,
            height: self.height,
        }
    }
}

/// One update about an output: announced, changed, or gone.
#[derive(Clone, Debug)]
pub enum OutputUpdate {
    Add(u64, OutputInfo),
    Update(u64, OutputInfo),
    Remove(u64),
}

/// A message arriving on the application thread from the compositor worker.
/// `Init` signals that the worker is ready to accept requests; `Finished`
/// is the terminal marker after the worker's stream ended.
#[derive(Clone, Debug)]
pub enum WaylandIncoming {
    Init,
    Finished,
    Toplevel(ToplevelUpdate),
    Output(OutputUpdate),
}

/// A command issued by the view layer. `Toggle` resolves to activate or
/// minimize depending on whether the window is currently focused.
#[derive(Clone, Debug)]
pub enum WaylandOutgoing {
    Exec(String, String),
    Toggle(ToplevelHandle),
    Activate(ToplevelHandle),
}

/// A request for one protocol operation on a toplevel window.
#[derive(Clone, Debug)]
pub enum WaylandToplevelRequest {
    Activate(ToplevelHandle),
    Minimize(ToplevelHandle),
    Quit(ToplevelHandle),
}

/// A request sent to the compositor worker thread.
#[derive(Clone, Debug)]
pub enum WaylandRequest {
    Toplevel(WaylandToplevelRequest),
    TokenRequest { app_id: String, exec_string: String, gpu_idx: Option<usize> },
}

} // verus!
