//! The application-side index of live windows: folds registry updates into a
//! per-application grouping and answers focus queries.
//!
//! Groups are kept in first-seen order, one per application id; a group
//! exists exactly while it has at least one window, and disappears — rather
//! than staying behind empty — when its last window is removed.

use vstd::prelude::*;

use crate::events::{
    OutputInfo, OutputInfoModel, OutputUpdate, ToplevelUpdate, WaylandIncoming, WaylandOutgoing,
    WaylandRequest, WaylandToplevelRequest,
};
use crate::toplevel::{CompositorToplevelInfo, ToplevelHandle, ToplevelInfoModel, ToplevelState};

verus! {

/// The ghost model of the grouping: application ids with their windows, in
/// first-seen order.
pub type GroupsModel = Seq<(Seq<char>, Seq<(ToplevelHandle, ToplevelInfoModel)>)>;

/// The ghost model of the known outputs.
pub type OutputsModel = Seq<(u64, OutputInfoModel)>;

/// The application-side reducer over the update stream coming from the
/// compositor worker, and the focus ("active window") query over it.
pub struct CompositorBackend {
    /// Live windows with their committed records, grouped by application id.
    pub active_toplevels: Vec<(String, Vec<(ToplevelHandle, CompositorToplevelInfo)>)>,
    /// The outputs the compositor has advertised.
    pub output_list: Vec<(u64, OutputInfo)>,
}

/// A group holds the key's application id in every member record.
pub open spec fn spec_groups_keys_match(groups: GroupsModel) -> bool {
    forall|j: int, k: int|
        0 <= j < groups.len() && 0 <= k < groups[j].1.len() ==> (#[trigger] groups[j].1[k]).1.app_id
            == groups[j].0
}

/// Group keys are distinct, groups are never empty, no window handle occurs
/// twice, and members carry their group's application id.
pub open spec fn spec_groups_wf(groups: GroupsModel) -> bool {
    &&& forall|i: int, j: int| 0 <= i < j < groups.len() ==> groups[i].0 != groups[j].0
    &&& forall|i: int| 0 <= i < groups.len() ==> (#[trigger] groups[i].1).len() > 0
    &&& forall|i: int, j: int, x: int, y: int|
        0 <= i < groups.len() && 0 <= j < groups.len() && 0 <= x < groups[i].1.len() && 0 <= y
            < groups[j].1.len() && (i != j || x != y) ==> (#[trigger] groups[i].1[x]).0 != (
        #[trigger] groups[j].1[y]).0
    &&& spec_groups_keys_match(groups)
}

/// Output ids are distinct.
pub open spec fn spec_outputs_wf(outputs: OutputsModel) -> bool {
    forall|i: int, j: int| 0 <= i < j < outputs.len() ==> outputs[i].0 != outputs[j].0
}

/// Some group is keyed by this application id.
pub open spec fn spec_groups_contains_key(groups: GroupsModel, key: Seq<char>) -> bool {
    exists|i: int| 0 <= i < groups.len() && groups[i].0 == key
}

/// The position of the group keyed by this application id.
pub open spec fn spec_group_index_of(groups: GroupsModel, key: Seq<char>) -> int {
    choose|i: int| 0 <= i < groups.len() && groups[i].0 == key
}

/// Some group holds a window with this handle.
pub open spec fn spec_groups_contains_handle(groups: GroupsModel, h: ToplevelHandle) -> bool {
    exists|i: int, k: int|
        0 <= i < groups.len() && 0 <= k < groups[i].1.len() && (#[trigger] groups[i].1[k]).0 == h
}

/// The compositor has advertised an output with this id.
pub open spec fn spec_outputs_contains(outputs: OutputsModel, id: u64) -> bool {
    exists|i: int| 0 <= i < outputs.len() && outputs[i].0 == id
}

/// A window counts as focused when its committed state holds `Activated` and
/// it intersects at least one known output.
pub open spec fn spec_is_focused(info: ToplevelInfoModel, outputs: OutputsModel) -> bool {
    &&& info.state.spec_contains(ToplevelState::Activated)
    &&& exists|k: int| 0 <= k < info.output.len() && spec_outputs_contains(outputs, info.output[k])
}

/// The first focused window of one group, in member order.
pub open spec fn spec_group_first_focused(
    members: Seq<(ToplevelHandle, ToplevelInfoModel)>,
    outputs: OutputsModel,
) -> Option<ToplevelHandle>
    decreases members.len(),
{
    if members.len() == 0 {
        None
    } else if spec_is_focused(members[0].1, outputs) {
        Some(members[0].0)
    } else {
        spec_group_first_focused(members.drop_first(), outputs)
    }
}

/// The first focused window over all groups, in group then member order.
pub open spec fn spec_first_focused(groups: GroupsModel, outputs: OutputsModel) -> Option<
    ToplevelHandle,
>
    decreases groups.len(),
{
    if groups.len() == 0 {
        None
    } else {
        match spec_group_first_focused(groups[0].1, outputs) {
            Some(h) => Some(h),
            None => spec_first_focused(groups.drop_first(), outputs),
        }
    }
}

/// One group holds a window with this handle.
pub open spec fn spec_group_contains_handle(
    members: Seq<(ToplevelHandle, ToplevelInfoModel)>,
    h: ToplevelHandle,
) -> bool {
    exists|k: int| 0 <= k < members.len() && members[k].0 == h
}

/// The position of a handle's window within one group.
pub open spec fn spec_group_member_index(
    members: Seq<(ToplevelHandle, ToplevelInfoModel)>,
    h: ToplevelHandle,
) -> int {
    choose|k: int| 0 <= k < members.len() && members[k].0 == h
}

/// The position of the group holding a handle's window.
pub open spec fn spec_handle_group_of(groups: GroupsModel, h: ToplevelHandle) -> int {
    choose|j: int|
        0 <= j < groups.len() && spec_group_contains_handle(#[trigger] groups[j].1, h)
}

/// Filing a newly added window: appended to its application id's group,
/// which is created when absent.
pub open spec fn spec_index_add(
    groups: GroupsModel,
    h: ToplevelHandle,
    info: ToplevelInfoModel,
) -> GroupsModel {
    if spec_groups_contains_key(groups, info.app_id) {
        let j = spec_group_index_of(groups, info.app_id);
        groups.update(j, (groups[j].0, groups[j].1.push((h, info))))
    } else {
        groups.push((info.app_id, seq![(h, info)]))
    }
}

/// Replacing an updated window's record in place. A record with an empty
/// application id, an application id with no group, or a handle absent from
/// that group leaves the grouping unchanged (defensive no-ops).
pub open spec fn spec_index_update(
    groups: GroupsModel,
    h: ToplevelHandle,
    info: ToplevelInfoModel,
) -> GroupsModel {
    if info.app_id.len() == 0 {
        groups
    } else if !spec_groups_contains_key(groups, info.app_id) {
        groups
    } else {
        let j = spec_group_index_of(groups, info.app_id);
        if spec_group_contains_handle(groups[j].1, h) {
            let k = spec_group_member_index(groups[j].1, h);
            groups.update(j, (groups[j].0, groups[j].1.update(k, (h, info))))
        } else {
            groups
        }
    }
}

/// Removing a closed window: taken out of its group, and the group is
/// deleted entirely when that leaves it empty. A handle found in no group
/// leaves the grouping unchanged.
pub open spec fn spec_index_remove(groups: GroupsModel, h: ToplevelHandle) -> GroupsModel {
    if spec_groups_contains_handle(groups, h) {
        let j = spec_handle_group_of(groups, h);
        let k = spec_group_member_index(groups[j].1, h);
        let members1 = groups[j].1.remove(k);
        if members1.len() == 0 {
            groups.remove(j)
        } else {
            groups.update(j, (groups[j].0, members1))
        }
    } else {
        groups
    }
}

/// The position of a known output.
pub open spec fn spec_output_index_of(outputs: OutputsModel, id: u64) -> int {
    choose|i: int| 0 <= i < outputs.len() && outputs[i].0 == id
}

/// Recording an output announcement or change: the entry is replaced when
/// the id is known, appended otherwise.
pub open spec fn spec_outputs_insert(
    outputs: OutputsModel,
    id: u64,
    info: OutputInfoModel,
) -> OutputsModel {
    if spec_outputs_contains(outputs, id) {
        outputs.update(spec_output_index_of(outputs, id), (id, info))
    } else {
        outputs.push((id, info))
    }
}

/// Forgetting a destroyed output; an unknown id changes nothing.
pub open spec fn spec_outputs_remove(outputs: OutputsModel, id: u64) -> OutputsModel {
    if spec_outputs_contains(outputs, id) {
        outputs.remove(spec_output_index_of(outputs, id))
    } else {
        outputs
    }
}

/// The index transition for one incoming message. `Init` and `Finished`
/// change nothing here: readiness and termination concern the bridge, not
/// the grouping.
pub open spec fn spec_apply_incoming(
    groups: GroupsModel,
    outputs: OutputsModel,
    incoming: WaylandIncoming,
) -> (GroupsModel, OutputsModel) {
    match incoming {
        WaylandIncoming::Init => (groups, outputs),
        WaylandIncoming::Finished => (groups, outputs),
        WaylandIncoming::Toplevel(u) => (
            match u {
                ToplevelUpdate::Add(h, info) => spec_index_add(groups, h, info@),
                ToplevelUpdate::Update(h, info) => spec_index_update(groups, h, info@),
                ToplevelUpdate::Remove(h) => spec_index_remove(groups, h),
            },
            outputs,
        ),
        WaylandIncoming::Output(u) => (
            groups,
            match u {
                OutputUpdate::Add(id, info) => spec_outputs_insert(outputs, id, info@),
                OutputUpdate::Update(id, info) => spec_outputs_insert(outputs, id, info@),
                OutputUpdate::Remove(id) => spec_outputs_remove(outputs, id),
            },
        ),
    }
}


/// Which protocol backend the panel should instantiate, as selected by the
/// desktop's name.
#[derive(Clone, Copy, Debug, PartialEq, Eq, Structural)]
pub enum BackendKind {
    Cosmic,
    NotSupported,
}

/// Select the backend from the configured desktop name: `COSMIC` gets the
/// cosmic backend; any other value, or none at all, degrades to the no-op
/// backend rather than failing.
pub fn select_backend(current_compositor: Option<&str>) -> (r: BackendKind)
    ensures
        r == (match current_compositor {
            Some(d) => if d@ == "COSMIC"@ {
                BackendKind::Cosmic
            } else {
                BackendKind::NotSupported
            },
            None => BackendKind::NotSupported,
        }),
{
    match current_compositor {
        Some(d) => {
            if crate::text::str_eq(d, "COSMIC") {
                BackendKind::Cosmic
            } else {
                BackendKind::NotSupported
            }
        },
        None => BackendKind::NotSupported,
    }
}

/// Which protocol request a view-layer command resolves to. `Toggle` goes by
/// the focus state at the moment of resolution: minimize the window when it
/// is the active one, activate it otherwise.
pub open spec fn spec_resolve_outgoing(
    groups: GroupsModel,
    outputs: OutputsModel,
    outgoing: WaylandOutgoing,
) -> WaylandRequest {
    match outgoing {
        WaylandOutgoing::Exec(app_id, exec_string) => WaylandRequest::TokenRequest {
            app_id,
            exec_string,
            gpu_idx: None,
        },
        WaylandOutgoing::Toggle(window) => WaylandRequest::Toplevel(
            if spec_first_focused(groups, outputs) == Some(window) {
                WaylandToplevelRequest::Minimize(window)
            } else {
                WaylandToplevelRequest::Activate(window)
            },
        ),
        WaylandOutgoing::Activate(window) => WaylandRequest::Toplevel(
            WaylandToplevelRequest::Activate(window),
        ),
    }
}

impl CompositorBackend {
    /// The ghost model of the grouping.
    pub open spec fn groups(self) -> GroupsModel {
        self.active_toplevels@.map_values(
            |g: (String, Vec<(ToplevelHandle, CompositorToplevelInfo)>)|
                (g.0@, g.1@.map_values(|p: (ToplevelHandle, CompositorToplevelInfo)| (p.0, p.1@))),
        )
    }

    /// The ghost model of the known outputs.
    pub open spec fn outputs(self) -> OutputsModel {
        self.output_list@.map_values(|p: (u64, OutputInfo)| (p.0, p.1@))
    }

    pub open spec fn wf(self) -> bool {
        spec_groups_wf(self.groups()) && spec_outputs_wf(self.outputs())
    }

    /// An empty index: no windows, no outputs.
    pub fn new() -> (r: CompositorBackend)
        ensures
            r.groups() == GroupsModel::empty(),
            r.outputs() == OutputsModel::empty(),
            r.wf(),
    {
        let r = CompositorBackend { active_toplevels: Vec::new(), output_list: Vec::new() };
        proof {
            assert(r.groups() =~= GroupsModel::empty());
            assert(r.outputs() =~= OutputsModel::empty());
        }
        r
    }

    /// Whether an output with this id is known.
    fn outputs_contain(&self, id: u64) -> (r: bool)
        ensures
            r == spec_outputs_contains(self.outputs(), id),
    {
        let mut i: usize = 0;
        while i < self.output_list.len()
            invariant
                i <= self.output_list.len(),
                forall|j: int| 0 <= j < i ==> self.outputs()[j].0 != id,
            decreases self.output_list.len() - i,
        {
            if self.output_list[i].0 == id {
                proof {
                    assert(self.outputs()[i as int].0 == id);
                }
                return true;
            }
            i += 1;
        }
        false
    }

    /// Whether this committed record counts as focused.
    fn info_is_focused(&self, info: &CompositorToplevelInfo) -> (r: bool)
        ensures
            r == spec_is_focused(info@, self.outputs()),
    {
        if !info.state.contains(ToplevelState::Activated) {
            return false;
        }
        let mut k: usize = 0;
        while k < info.output.ids.len()
            invariant
                k <= info.output.ids.len(),
                forall|j: int|
                    0 <= j < k ==> !spec_outputs_contains(self.outputs(), info.output.ids@[j]),
                info@.state.spec_contains(ToplevelState::Activated),
            decreases info.output.ids.len() - k,
        {
            if self.outputs_contain(info.output.ids[k]) {
                proof {
                    assert(info@.output[k as int] == info.output.ids@[k as int]);
                }
                return true;
            }
            k += 1;
        }
        proof {
            assert(!spec_is_focused(info@, self.outputs())) by {
                if exists|k: int|
                    0 <= k < info@.output.len() && spec_outputs_contains(
                        self.outputs(),
                        info@.output[k],
                    ) {
                    let w = choose|k: int|
                        0 <= k < info@.output.len() && spec_outputs_contains(
                            self.outputs(),
                            info@.output[k],
                        );
                    assert(!spec_outputs_contains(self.outputs(), info.output.ids@[w]));
                }
            }
        }
        false
    }

    /// The focus query: the first window, in group then member order, whose
    /// committed state holds `Activated` and which intersects a known
    /// output; `None` when there is no such window.
    pub fn active_window(&self) -> (r: Option<ToplevelHandle>)
        ensures
            r == spec_first_focused(self.groups(), self.outputs()),
    {
        let ghost groups = self.groups();
        proof {
            assert(groups.skip(0) =~= groups);
        }
        let mut gi: usize = 0;
        while gi < self.active_toplevels.len()
            invariant
                groups == self.groups(),
                gi <= self.active_toplevels.len(),
                groups.len() == self.active_toplevels.len(),
                spec_first_focused(groups, self.outputs()) == spec_first_focused(
                    groups.skip(gi as int),
                    self.outputs(),
                ),
            decreases self.active_toplevels.len() - gi,
        {
            let members = &self.active_toplevels[gi].1;
            let ghost mmodel = groups[gi as int].1;
            proof {
                assert(mmodel == members@.map_values(
                    |p: (ToplevelHandle, CompositorToplevelInfo)| (p.0, p.1@),
                ));
            }
            proof {
                assert(mmodel.skip(0) =~= mmodel);
            }
            let mut wi: usize = 0;
            while wi < members.len()
                invariant
                    groups == self.groups(),
                    gi < self.active_toplevels.len(),
                    groups.len() == self.active_toplevels.len(),
                    members == &self.active_toplevels[gi as int].1,
                    mmodel == groups[gi as int].1,
                    mmodel.len() == members.len(),
                    wi <= members.len(),
                    spec_first_focused(groups, self.outputs()) == spec_first_focused(
                        groups.skip(gi as int),
                        self.outputs(),
                    ),
                    spec_group_first_focused(mmodel, self.outputs())
                        == spec_group_first_focused(mmodel.skip(wi as int), self.outputs()),
                decreases members.len() - wi,
            {
                let member = &members[wi];
                proof {
                    assert(mmodel[wi as int] == (member.0, member.1@));
                }
                if self.info_is_focused(&member.1) {
                    proof {
                        assert(mmodel.skip(wi as int).len() > 0);
                        assert(mmodel.skip(wi as int)[0] == mmodel[wi as int]);
                        assert(spec_group_first_focused(mmodel.skip(wi as int), self.outputs())
                            == Some(member.0));
                        assert(groups.skip(gi as int).len() > 0);
                        assert(groups.skip(gi as int)[0] == groups[gi as int]);
                        assert(spec_group_first_focused(groups.skip(gi as int)[0].1, self.outputs())
                            == Some(member.0));
                        assert(spec_first_focused(groups.skip(gi as int), self.outputs())
                            == Some(member.0));
                    }
                    return Some(member.0);
                }
                proof {
                    assert(mmodel.skip(wi as int)[0] == mmodel[wi as int]);
                    assert(!spec_is_focused(mmodel[wi as int].1, self.outputs()));
                    assert(mmodel.skip(wi as int).drop_first() =~= mmodel.skip(wi as int + 1));
                }
                wi += 1;
            }
            proof {
                assert(mmodel.skip(wi as int) =~= Seq::<(
                    ToplevelHandle,
                    ToplevelInfoModel,
                )>::empty());
                assert(spec_group_first_focused(mmodel, self.outputs()) is None);
                assert(groups.skip(gi as int).len() > 0);
                assert(groups.skip(gi as int)[0] == groups[gi as int]);
                assert(spec_group_first_focused(groups.skip(gi as int)[0].1, self.outputs())
                    is None);
                assert(groups.skip(gi as int).drop_first() =~= groups.skip(gi as int + 1));
            }
            gi += 1;
        }
        proof {
            assert(groups.skip(gi as int) =~= GroupsModel::empty());
        }
        None
    }

    /// The position of the group keyed by this application id, if any.
    fn find_group(&self, app_id: &String) -> (r: Option<usize>)
        requires
            spec_groups_wf(self.groups()),
        ensures
            match r {
                Some(j) => j < self.groups().len() && self.groups()[j as int].0 == app_id@ && j
                    as int == spec_group_index_of(self.groups(), app_id@)
                    && spec_groups_contains_key(self.groups(), app_id@),
                None => !spec_groups_contains_key(self.groups(), app_id@),
            },
    {
        let ghost groups = self.groups();
        let mut j: usize = 0;
        while j < self.active_toplevels.len()
            invariant
                groups == self.groups(),
                spec_groups_wf(groups),
                j <= self.active_toplevels.len(),
                groups.len() == self.active_toplevels.len(),
                forall|i: int| 0 <= i < j ==> groups[i].0 != app_id@,
            decreases self.active_toplevels.len() - j,
        {
            if self.active_toplevels[j].0 == *app_id {
                proof {
                    assert(groups[j as int].0 == app_id@);
                    let w = spec_group_index_of(groups, app_id@);
                    assert(0 <= w < groups.len() && groups[w].0 == app_id@);
                    assert(w == j as int) by {
                        if w < j as int {
                            assert(groups[w].0 != groups[j as int].0);
                        }
                        if (j as int) < w {
                            assert(groups[j as int].0 != groups[w].0);
                        }
                    }
                }
                return Some(j);
            }
            j += 1;
        }
        None
    }

    /// The position, as group and member indexes, of the window with this
    /// handle, if any group holds one.
    fn locate_handle(&self, h: ToplevelHandle) -> (r: Option<(usize, usize)>)
        requires
            spec_groups_wf(self.groups()),
        ensures
            match r {
                Some(jk) => {
                    &&& spec_groups_contains_handle(self.groups(), h)
                    &&& jk.0 as int == spec_handle_group_of(self.groups(), h)
                    &&& jk.0 < self.groups().len()
                    &&& jk.1 as int == spec_group_member_index(
                        self.groups()[jk.0 as int].1,
                        h,
                    )
                    &&& jk.1 < self.groups()[jk.0 as int].1.len()
                    &&& self.groups()[jk.0 as int].1[jk.1 as int].0 == h
                },
                None => !spec_groups_contains_handle(self.groups(), h),
            },
    {
        let ghost groups = self.groups();
        let mut j: usize = 0;
        while j < self.active_toplevels.len()
            invariant
                groups == self.groups(),
                spec_groups_wf(groups),
                j <= self.active_toplevels.len(),
                groups.len() == self.active_toplevels.len(),
                forall|i: int|
                    0 <= i < j ==> !spec_group_contains_handle(#[trigger] groups[i].1, h),
            decreases self.active_toplevels.len() - j,
        {
            let members = &self.active_toplevels[j].1;
            let ghost mmodel = groups[j as int].1;
            let mut k: usize = 0;
            while k < members.len()
                invariant
                    groups == self.groups(),
                    spec_groups_wf(groups),
                    j < self.active_toplevels.len(),
                    groups.len() == self.active_toplevels.len(),
                    members == &self.active_toplevels[j as int].1,
                    mmodel == groups[j as int].1,
                    mmodel.len() == members.len(),
                    k <= members.len(),
                    forall|i: int|
                        0 <= i < j ==> !spec_group_contains_handle(#[trigger] groups[i].1, h),
                    forall|x: int| 0 <= x < k ==> mmodel[x].0 != h,
                decreases members.len() - k,
            {
                if members[k].0 == h {
                    proof {
                        assert(mmodel[k as int] == (members@[k as int].0, members@[k as int].1@));
                        assert(mmodel[k as int].0 == h);
                        assert(spec_group_contains_handle(mmodel, h));
                        assert(spec_groups_contains_handle(groups, h)) by {
                            assert(0 <= (j as int) < groups.len() && 0 <= (k as int)
                                < groups[j as int].1.len() && groups[j as int].1[k as int].0 == h);
                        }
                        let wj = spec_handle_group_of(groups, h);
                        assert(0 <= wj < groups.len() && spec_group_contains_handle(
                            groups[wj].1,
                            h,
                        ));
                        assert(wj == j as int) by {
                            let wk = choose|x: int|
                                0 <= x < groups[wj].1.len() && groups[wj].1[x].0 == h;
                            if wj != j as int {
                                assert(groups[wj].1[wk].0 != groups[j as int].1[k as int].0);
                            }
                        }
                        let wk = spec_group_member_index(mmodel, h);
                        assert(0 <= wk < mmodel.len() && mmodel[wk].0 == h);
                        assert(wk == k as int) by {
                            if wk != k as int {
                                assert(groups[j as int].1[wk].0 != groups[j as int].1[k as int].0);
                            }
                        }
                    }
                    return Some((j, k));
                }
                k += 1;
            }
            proof {
                assert(!spec_group_contains_handle(mmodel, h)) by {
                    assert(forall|x: int| 0 <= x < mmodel.len() ==> mmodel[x].0 != h);
                }
            }
            j += 1;
        }
        proof {
            if spec_groups_contains_handle(groups, h) {
                let (wj, wk): (int, int) = choose|wj: int, wk: int|
                    0 <= wj < groups.len() && 0 <= wk < groups[wj].1.len() && (
                    #[trigger] groups[wj].1[wk]).0 == h;
                assert(spec_group_contains_handle(groups[wj].1, h));
            }
        }
        None
    }

    /// Fold one incoming message into the index: file an added window under
    /// its application id, replace an updated window's record in place,
    /// take a removed window out (deleting its group when it empties), and
    /// track output announcements. `Init` and `Finished` are no-ops here.
    ///
    /// An `Add` for a handle already on file is a protocol violation (the
    /// registry publishes `Add` only for a window's first commit); the
    /// caller must treat it as fatal before calling.
    pub fn handle_incoming(&mut self, incoming: WaylandIncoming)
        requires
            old(self).wf(),
            match incoming {
                WaylandIncoming::Toplevel(ToplevelUpdate::Add(h, _)) => !spec_groups_contains_handle(
                    old(self).groups(),
                    h,
                ),
                _ => true,
            },
        ensures
            final(self).wf(),
            final(self).groups() == spec_apply_incoming(
                old(self).groups(),
                old(self).outputs(),
                incoming,
            ).0,
            final(self).outputs() == spec_apply_incoming(
                old(self).groups(),
                old(self).outputs(),
                incoming,
            ).1,
    {
        let ghost groups0 = self.groups();
        let ghost outputs0 = self.outputs();
        match incoming {
            WaylandIncoming::Init => {},
            WaylandIncoming::Finished => {},
            WaylandIncoming::Toplevel(toplevel_update) => match toplevel_update {
                ToplevelUpdate::Add(handle, info) => {
                    proof {
                        lemma_index_add_wf(groups0, handle, info@);
                    }
                    match self.find_group(&info.app_id) {
                        Some(j) => {
                            let mut g = self.active_toplevels.remove(j);
                            g.1.push((handle, info));
                            self.active_toplevels.insert(j, g);
                            proof {
                                let expected = spec_index_add(groups0, handle, info@);
                                assert(self.groups()[j as int].1 =~= expected[j as int].1);
                                assert(self.groups() =~= expected);
                            }
                        },
                        None => {
                            let key = info.app_id.clone();
                            let mut v: Vec<(ToplevelHandle, CompositorToplevelInfo)> = Vec::new();
                            v.push((handle, info));
                            self.active_toplevels.push((key, v));
                            proof {
                                let expected = spec_index_add(groups0, handle, info@);
                                let last = groups0.len() as int;
                                assert(self.groups()[last].1 =~= expected[last].1);
                                assert(self.groups() =~= expected);
                            }
                        },
                    }
                },
                ToplevelUpdate::Update(handle, info) => {
                    if info.app_id.as_str().is_empty() {
                        proof {
                            assert(info@.app_id.len() == 0);
                        }
                        return ;
                    }
                    match self.find_group(&info.app_id) {
                        Some(j) => {
                            let members = &self.active_toplevels[j].1;
                            let mut k: usize = 0;
                            let mut found: Option<usize> = None;
                            let ghost mmodel = groups0[j as int].1;
                            while k < members.len()
                                invariant
                                    groups0 == self.groups(),
                                    j < self.active_toplevels.len(),
                                    members == &self.active_toplevels[j as int].1,
                                    mmodel == groups0[j as int].1,
                                    mmodel.len() == members.len(),
                                    k <= members.len(),
                                    match found {
                                        Some(f) => f < members.len() && mmodel[f as int].0
                                            == handle && f as int == spec_group_member_index(
                                            mmodel,
                                            handle,
                                        ),
                                        None => forall|x: int| 0 <= x < k ==> mmodel[x].0 != handle,
                                    },
                                    found is Some ==> spec_group_contains_handle(mmodel, handle),
                                    spec_groups_wf(groups0),
                                decreases members.len() - k,
                            {
                                if found.is_none() && members[k].0 == handle {
                                    proof {
                                        assert(mmodel[k as int].0 == handle);
                                        assert(spec_group_contains_handle(mmodel, handle));
                                        let wk = spec_group_member_index(mmodel, handle);
                                        assert(0 <= wk < mmodel.len() && mmodel[wk].0 == handle);
                                        assert(wk == k as int) by {
                                            if wk != k as int {
                                                assert(groups0[j as int].1[wk].0
                                                    != groups0[j as int].1[k as int].0);
                                            }
                                        }
                                    }
                                    found = Some(k);
                                }
                                k += 1;
                            }
                            match found {
                                Some(f) => {
                                    proof {
                                        lemma_index_update_wf(groups0, handle, info@);
                                    }
                                    let mut g = self.active_toplevels.remove(j);
                                    g.1.remove(f);
                                    g.1.insert(f, (handle, info));
                                    self.active_toplevels.insert(j, g);
                                    proof {
                                        let expected = spec_index_update(groups0, handle, info@);
                                        assert(self.groups()[j as int].1 =~= expected[j as int].1);
                                        assert(self.groups() =~= expected);
                                    }
                                },
                                None => {
                                    proof {
                                        assert(!spec_group_contains_handle(mmodel, handle)) by {
                                            assert(forall|x: int|
                                                0 <= x < mmodel.len() ==> mmodel[x].0 != handle);
                                        }
                                    }
                                },
                            }
                        },
                        None => {},
                    }
                },
                ToplevelUpdate::Remove(handle) => {
                    proof {
                        lemma_index_remove_wf(groups0, handle);
                    }
                    match self.locate_handle(handle) {
                        Some((j, k)) => {
                            let mut g = self.active_toplevels.remove(j);
                            g.1.remove(k);
                            if g.1.is_empty() {
                                proof {
                                    let expected = spec_index_remove(groups0, handle);
                                    assert(groups0[j as int].1.remove(k as int) =~= g.1@.map_values(
                                        |p: (ToplevelHandle, CompositorToplevelInfo)| (p.0, p.1@),
                                    ));
                                    assert(self.groups() =~= expected);
                                }
                            } else {
                                self.active_toplevels.insert(j, g);
                                proof {
                                    let expected = spec_index_remove(groups0, handle);
                                    assert(self.groups()[j as int].1 =~= expected[j as int].1);
                                    assert(self.groups() =~= expected);
                                }
                            }
                        },
                        None => {},
                    }
                },
            },
            WaylandIncoming::Output(output_update) => match output_update {
                OutputUpdate::Add(output, info) => {
                    self.outputs_insert(output, info);
                },
                OutputUpdate::Update(output, info) => {
                    self.outputs_insert(output, info);
                },
                OutputUpdate::Remove(output) => {
                    self.outputs_remove(output);
                },
            },
        }
    }

    /// Record an output announcement or change.
    fn outputs_insert(&mut self, id: u64, info: OutputInfo)
        requires
            spec_outputs_wf(old(self).outputs()),
            spec_groups_wf(old(self).groups()),
        ensures
            final(self).groups() == old(self).groups(),
            final(self).outputs() == spec_outputs_insert(old(self).outputs(), id, info@),
            final(self).wf(),
    {
        let ghost outputs0 = self.outputs();
        let mut i: usize = 0;
        while i < self.output_list.len()
            invariant
                outputs0 == self.outputs(),
                outputs0 == old(self).outputs(),
                self.groups() == old(self).groups(),
                spec_groups_wf(self.groups()),
                spec_outputs_wf(outputs0),
                i <= self.output_list.len(),
                forall|x: int| 0 <= x < i ==> outputs0[x].0 != id,
            decreases self.output_list.len() - i,
        {
            if self.output_list[i].0 == id {
                proof {
                    assert(outputs0[i as int].0 == id);
                    let w = spec_output_index_of(outputs0, id);
                    assert(0 <= w < outputs0.len() && outputs0[w].0 == id);
                    assert(w == i as int) by {
                        if w < i as int {
                            assert(outputs0[w].0 != outputs0[i as int].0);
                        }
                        if (i as int) < w {
                            assert(outputs0[i as int].0 != outputs0[w].0);
                        }
                    }
                }
                self.output_list.remove(i);
                self.output_list.insert(i, (id, info));
                proof {
                    assert(self.outputs() =~= spec_outputs_insert(outputs0, id, info@));
                    assert forall|a: int, b: int|
                        0 <= a < b < self.outputs().len() implies self.outputs()[a].0
                        != self.outputs()[b].0 by {
                        if a != i as int {
                            assert(self.outputs()[a] == outputs0[a]);
                        }
                        if b != i as int {
                            assert(self.outputs()[b] == outputs0[b]);
                        }
                    }
                }
                return ;
            }
            i += 1;
        }
        self.output_list.push((id, info));
        proof {
            assert(!spec_outputs_contains(outputs0, id)) by {
                assert(forall|x: int| 0 <= x < outputs0.len() ==> outputs0[x].0 != id);
            }
            assert(self.outputs() =~= spec_outputs_insert(outputs0, id, info@));
            assert forall|a: int, b: int|
                0 <= a < b < self.outputs().len() implies self.outputs()[a].0
                != self.outputs()[b].0 by {
                if b < self.outputs().len() - 1 {
                    assert(self.outputs()[a] == outputs0[a]);
                    assert(self.outputs()[b] == outputs0[b]);
                } else {
                    assert(self.outputs()[a] == outputs0[a]);
                }
            }
        }
    }

    /// Forget a destroyed output.
    fn outputs_remove(&mut self, id: u64)
        requires
            spec_outputs_wf(old(self).outputs()),
            spec_groups_wf(old(self).groups()),
        ensures
            final(self).groups() == old(self).groups(),
            final(self).outputs() == spec_outputs_remove(old(self).outputs(), id),
            final(self).wf(),
    {
        let ghost outputs0 = self.outputs();
        let mut i: usize = 0;
        while i < self.output_list.len()
            invariant
                outputs0 == self.outputs(),
                outputs0 == old(self).outputs(),
                self.groups() == old(self).groups(),
                spec_groups_wf(self.groups()),
                spec_outputs_wf(outputs0),
                i <= self.output_list.len(),
                forall|x: int| 0 <= x < i ==> outputs0[x].0 != id,
            decreases self.output_list.len() - i,
        {
            if self.output_list[i].0 == id {
                proof {
                    assert(outputs0[i as int].0 == id);
                    let w = spec_output_index_of(outputs0, id);
                    assert(0 <= w < outputs0.len() && outputs0[w].0 == id);
                    assert(w == i as int) by {
                        if w < i as int {
                            assert(outputs0[w].0 != outputs0[i as int].0);
                        }
                        if (i as int) < w {
                            assert(outputs0[i as int].0 != outputs0[w].0);
                        }
                    }
                }
                self.output_list.remove(i);
                proof {
                    assert(self.outputs() =~= spec_outputs_remove(outputs0, id));
                    assert forall|a: int, b: int|
                        0 <= a < b < self.outputs().len() implies self.outputs()[a].0
                        != self.outputs()[b].0 by {
                        if a < i as int {
                            assert(self.outputs()[a] == outputs0[a]);
                        } else {
                            assert(self.outputs()[a] == outputs0[a + 1]);
                        }
                        if b < i as int {
                            assert(self.outputs()[b] == outputs0[b]);
                        } else {
                            assert(self.outputs()[b] == outputs0[b + 1]);
                        }
                    }
                }
                return ;
            }
            i += 1;
        }
        proof {
            assert(!spec_outputs_contains(outputs0, id)) by {
                assert(forall|x: int| 0 <= x < outputs0.len() ==> outputs0[x].0 != id);
            }
        }
    }

    /// Resolve a view-layer command into the protocol request to send.
    /// `Toggle` resolves against the focus state at the moment of the call:
    /// minimize the window when it is the active one, activate it otherwise.
    pub fn handle_outgoing(&self, outgoing: WaylandOutgoing) -> (r: WaylandRequest)
        ensures
            r == spec_resolve_outgoing(self.groups(), self.outputs(), outgoing),
    {
        match outgoing {
            WaylandOutgoing::Exec(app_id, exec_string) => WaylandRequest::TokenRequest {
                app_id,
                exec_string,
                gpu_idx: None,
            },
            WaylandOutgoing::Toggle(window) => {
                let is_active = match self.active_window() {
                    Some(active) => active == window,
                    None => false,
                };
                WaylandRequest::Toplevel(
                    if is_active {
                        WaylandToplevelRequest::Minimize(window)
                    } else {
                        WaylandToplevelRequest::Activate(window)
                    },
                )
            },
            WaylandOutgoing::Activate(window) => WaylandRequest::Toplevel(
                WaylandToplevelRequest::Activate(window),
            ),
        }
    }
}


/// Filing a fresh window keeps the grouping well formed; it introduces no
/// key but the window's own application id and no handle but the window's
/// own.
pub proof fn lemma_index_add_wf(groups: GroupsModel, h: ToplevelHandle, info: ToplevelInfoModel)
    requires
        spec_groups_wf(groups),
        !spec_groups_contains_handle(groups, h),
    ensures
        spec_groups_wf(spec_index_add(groups, h, info)),
        forall|key: Seq<char>|
            #[trigger] spec_groups_contains_key(spec_index_add(groups, h, info), key)
                ==> spec_groups_contains_key(groups, key) || key == info.app_id,
        forall|g: ToplevelHandle|
            #[trigger] spec_groups_contains_handle(spec_index_add(groups, h, info), g)
                ==> spec_groups_contains_handle(groups, g) || g == h,
{
    let g1 = spec_index_add(groups, h, info);
    if spec_groups_contains_key(groups, info.app_id) {
        let j = spec_group_index_of(groups, info.app_id);
        assert(0 <= j < groups.len() && groups[j].0 == info.app_id);
        assert(g1 == groups.update(j, (groups[j].0, groups[j].1.push((h, info)))));
        assert forall|a: int, b: int, x: int, y: int|
            0 <= a < g1.len() && 0 <= b < g1.len() && 0 <= x < g1[a].1.len() && 0 <= y
                < g1[b].1.len() && (a != b || x != y) implies (#[trigger] g1[a].1[x]).0 != (
        #[trigger] g1[b].1[y]).0 by {
            if a == j && x == g1[a].1.len() - 1 {
                assert(g1[a].1[x].0 == h);
                assert(g1[b].1[y].0 != h) by {
                    if b == j && y == g1[b].1.len() - 1 {
                    } else {
                        assert(g1[b].1[y] == groups[b].1[y]);
                        assert(!(groups[b].1[y].0 == h)) by {
                            if groups[b].1[y].0 == h {
                                assert(spec_groups_contains_handle(groups, h));
                            }
                        }
                    }
                }
            } else if b == j && y == g1[b].1.len() - 1 {
                assert(g1[b].1[y].0 == h);
                assert(g1[a].1[x] == groups[a].1[x]);
                assert(!(groups[a].1[x].0 == h)) by {
                    if groups[a].1[x].0 == h {
                        assert(spec_groups_contains_handle(groups, h));
                    }
                }
            } else {
                assert(g1[a].1[x] == groups[a].1[x]);
                assert(g1[b].1[y] == groups[b].1[y]);
            }
        }
        assert forall|a: int, x: int|
            0 <= a < g1.len() && 0 <= x < g1[a].1.len() implies (#[trigger] g1[a].1[x]).1.app_id
            == g1[a].0 by {
            if a == j && x == g1[a].1.len() - 1 {
            } else {
                assert(g1[a].1[x] == groups[a].1[x]);
            }
        }
        assert forall|g: ToplevelHandle|
            #[trigger] spec_groups_contains_handle(g1, g) implies spec_groups_contains_handle(
            groups,
            g,
        ) || g == h by {
            let (wj, wk): (int, int) = choose|wj: int, wk: int|
                0 <= wj < g1.len() && 0 <= wk < g1[wj].1.len() && (#[trigger] g1[wj].1[wk]).0 == g;
            if wj == j && wk == g1[wj].1.len() - 1 {
            } else {
                assert(g1[wj].1[wk] == groups[wj].1[wk]);
                assert(spec_groups_contains_handle(groups, g));
            }
        }
        assert forall|key: Seq<char>|
            #[trigger] spec_groups_contains_key(g1, key) implies spec_groups_contains_key(
            groups,
            key,
        ) || key == info.app_id by {
            let wj = choose|wj: int| 0 <= wj < g1.len() && g1[wj].0 == key;
            assert(g1[wj].0 == groups[wj].0);
            assert(spec_groups_contains_key(groups, key));
        }
    } else {
        assert(g1 == groups.push((info.app_id, seq![(h, info)])));
        let last = groups.len();
        assert(forall|i: int| 0 <= i < groups.len() ==> groups[i].0 != info.app_id);
        assert forall|a: int, b: int, x: int, y: int|
            0 <= a < g1.len() && 0 <= b < g1.len() && 0 <= x < g1[a].1.len() && 0 <= y
                < g1[b].1.len() && (a != b || x != y) implies (#[trigger] g1[a].1[x]).0 != (
        #[trigger] g1[b].1[y]).0 by {
            if a == last {
                assert(x == 0 && g1[a].1[x].0 == h);
                assert(b != last || y == x);
                assert(b < last);
                assert(g1[b].1[y] == groups[b].1[y]);
                assert(!(groups[b].1[y].0 == h)) by {
                    if groups[b].1[y].0 == h {
                        assert(spec_groups_contains_handle(groups, h));
                    }
                }
            } else if b == last {
                assert(y == 0 && g1[b].1[y].0 == h);
                assert(a < last);
                assert(g1[a].1[x] == groups[a].1[x]);
                assert(!(groups[a].1[x].0 == h)) by {
                    if groups[a].1[x].0 == h {
                        assert(spec_groups_contains_handle(groups, h));
                    }
                }
            } else {
                assert(g1[a].1[x] == groups[a].1[x]);
                assert(g1[b].1[y] == groups[b].1[y]);
            }
        }
        assert forall|a: int, x: int|
            0 <= a < g1.len() && 0 <= x < g1[a].1.len() implies (#[trigger] g1[a].1[x]).1.app_id
            == g1[a].0 by {
            if a == last {
            } else {
                assert(g1[a].1[x] == groups[a].1[x]);
            }
        }
        assert forall|g: ToplevelHandle|
            #[trigger] spec_groups_contains_handle(g1, g) implies spec_groups_contains_handle(
            groups,
            g,
        ) || g == h by {
            let (wj, wk): (int, int) = choose|wj: int, wk: int|
                0 <= wj < g1.len() && 0 <= wk < g1[wj].1.len() && (#[trigger] g1[wj].1[wk]).0 == g;
            if wj == last {
            } else {
                assert(g1[wj].1[wk] == groups[wj].1[wk]);
                assert(spec_groups_contains_handle(groups, g));
            }
        }
        assert forall|key: Seq<char>|
            #[trigger] spec_groups_contains_key(g1, key) implies spec_groups_contains_key(
            groups,
            key,
        ) || key == info.app_id by {
            let wj = choose|wj: int| 0 <= wj < g1.len() && g1[wj].0 == key;
            if wj == last {
            } else {
                assert(g1[wj].0 == groups[wj].0);
                assert(spec_groups_contains_key(groups, key));
            }
        }
    }
}

/// Replacing an updated window's record keeps the grouping well formed; the
/// groups, their keys and their handles stay as they were.
pub proof fn lemma_index_update_wf(groups: GroupsModel, h: ToplevelHandle, info: ToplevelInfoModel)
    requires
        spec_groups_wf(groups),
    ensures
        spec_groups_wf(spec_index_update(groups, h, info)),
        spec_index_update(groups, h, info).len() == groups.len(),
        forall|i: int|
            0 <= i < groups.len() ==> (#[trigger] spec_index_update(groups, h, info)[i]).0
                == groups[i].0,
        forall|g: ToplevelHandle|
            #[trigger] spec_groups_contains_handle(spec_index_update(groups, h, info), g)
                ==> spec_groups_contains_handle(groups, g),
{
    let g1 = spec_index_update(groups, h, info);
    if info.app_id.len() == 0 {
    } else if !spec_groups_contains_key(groups, info.app_id) {
    } else {
        let j = spec_group_index_of(groups, info.app_id);
        assert(0 <= j < groups.len() && groups[j].0 == info.app_id);
        if spec_group_contains_handle(groups[j].1, h) {
            let k = spec_group_member_index(groups[j].1, h);
            assert(0 <= k < groups[j].1.len() && groups[j].1[k].0 == h);
            assert(g1 == groups.update(j, (groups[j].0, groups[j].1.update(k, (h, info)))));
            assert forall|g: ToplevelHandle|
                #[trigger] spec_groups_contains_handle(g1, g) implies spec_groups_contains_handle(
                groups,
                g,
            ) by {
                let (wj, wk): (int, int) = choose|wj: int, wk: int|
                    0 <= wj < g1.len() && 0 <= wk < g1[wj].1.len() && (#[trigger] g1[wj].1[wk]).0
                        == g;
                assert(groups[wj].1[wk].0 == g);
            }
            assert forall|a: int, b: int, x: int, y: int|
                0 <= a < g1.len() && 0 <= b < g1.len() && 0 <= x < g1[a].1.len() && 0 <= y
                    < g1[b].1.len() && (a != b || x != y) implies (#[trigger] g1[a].1[x]).0 != (
            #[trigger] g1[b].1[y]).0 by {
                assert(g1[a].1[x].0 == groups[a].1[x].0);
                assert(g1[b].1[y].0 == groups[b].1[y].0);
            }
            assert forall|a: int, x: int|
                0 <= a < g1.len() && 0 <= x < g1[a].1.len() implies (#[trigger] g1[a].1[x]).1.app_id
                == g1[a].0 by {
                if a == j && x == k {
                } else {
                    assert(g1[a].1[x] == groups[a].1[x]);
                }
            }
        }
    }
}

/// Removal completeness: after a window's removal its handle is on file in
/// no group; when it was its application's last window, the application's
/// key is gone too — the group is absent, not empty. No key and no handle
/// appears that was not there before, and the grouping stays well formed.
pub proof fn lemma_index_remove_wf(groups: GroupsModel, h: ToplevelHandle)
    requires
        spec_groups_wf(groups),
    ensures
        spec_groups_wf(spec_index_remove(groups, h)),
        !spec_groups_contains_handle(spec_index_remove(groups, h), h),
        ({
            let j = spec_handle_group_of(groups, h);
            spec_groups_contains_handle(groups, h) && groups[j].1.len() == 1
                ==> !spec_groups_contains_key(spec_index_remove(groups, h), groups[j].0)
        }),
        forall|key: Seq<char>|
            #[trigger] spec_groups_contains_key(spec_index_remove(groups, h), key)
                ==> spec_groups_contains_key(groups, key),
        forall|g: ToplevelHandle|
            #[trigger] spec_groups_contains_handle(spec_index_remove(groups, h), g)
                ==> spec_groups_contains_handle(groups, g),
{
    let g1 = spec_index_remove(groups, h);
    if spec_groups_contains_handle(groups, h) {
        let j = spec_handle_group_of(groups, h);
        assert(0 <= j < groups.len() && spec_group_contains_handle(groups[j].1, h)) by {
            let (aj, ak): (int, int) = choose|aj: int, ak: int|
                0 <= aj < groups.len() && 0 <= ak < groups[aj].1.len() && (
                #[trigger] groups[aj].1[ak]).0 == h;
            assert(spec_group_contains_handle(groups[aj].1, h));
        }
        let k = spec_group_member_index(groups[j].1, h);
        assert(0 <= k < groups[j].1.len() && groups[j].1[k].0 == h);
        let members1 = groups[j].1.remove(k);
        if members1.len() == 0 {
            assert(g1 == groups.remove(j));
            assert forall|a: int| 0 <= a < g1.len() implies g1[a] == (if a < j {
                groups[a]
            } else {
                groups[a + 1]
            }) by {}
            assert forall|a: int, b: int| 0 <= a < b < g1.len() implies g1[a].0 != g1[b].0 by {}
            assert forall|a: int, b: int, x: int, y: int|
                0 <= a < g1.len() && 0 <= b < g1.len() && 0 <= x < g1[a].1.len() && 0 <= y
                    < g1[b].1.len() && (a != b || x != y) implies (#[trigger] g1[a].1[x]).0 != (
            #[trigger] g1[b].1[y]).0 by {
                let a0 = if a < j { a } else { a + 1 };
                let b0 = if b < j { b } else { b + 1 };
                assert(g1[a].1[x].0 == groups[a0].1[x].0);
                assert(g1[b].1[y].0 == groups[b0].1[y].0);
            }
            assert forall|g: ToplevelHandle|
                #[trigger] spec_groups_contains_handle(g1, g) implies spec_groups_contains_handle(
                groups,
                g,
            ) by {
                let (wj, wk): (int, int) = choose|wj: int, wk: int|
                    0 <= wj < g1.len() && 0 <= wk < g1[wj].1.len() && (#[trigger] g1[wj].1[wk]).0
                        == g;
                let w0 = if wj < j { wj } else { wj + 1 };
                assert(groups[w0].1[wk].0 == g);
            }
            assert(!spec_groups_contains_handle(g1, h)) by {
                if spec_groups_contains_handle(g1, h) {
                    let (wj, wk): (int, int) = choose|wj: int, wk: int|
                        0 <= wj < g1.len() && 0 <= wk < g1[wj].1.len() && (
                        #[trigger] g1[wj].1[wk]).0 == h;
                    let w0 = if wj < j { wj } else { wj + 1 };
                    assert(groups[w0].1[wk].0 == h);
                    assert(w0 != j || wk != k) by {
                        if w0 == j {
                            assert(groups[j].1.len() == 1);
                            assert(wk < g1[wj].1.len());
                        }
                    }
                    assert(groups[w0].1[wk].0 != groups[j].1[k].0);
                }
            }
            assert forall|key: Seq<char>|
                #[trigger] spec_groups_contains_key(g1, key) implies spec_groups_contains_key(
                groups,
                key,
            ) by {
                let wj = choose|wj: int| 0 <= wj < g1.len() && g1[wj].0 == key;
                let w0 = if wj < j { wj } else { wj + 1 };
                assert(groups[w0].0 == key);
            }
            if groups[j].1.len() == 1 {
                assert(!spec_groups_contains_key(g1, groups[j].0)) by {
                    if spec_groups_contains_key(g1, groups[j].0) {
                        let wj = choose|wj: int| 0 <= wj < g1.len() && g1[wj].0 == groups[j].0;
                        let w0 = if wj < j { wj } else { wj + 1 };
                        assert(groups[w0].0 == groups[j].0);
                        assert(w0 != j);
                        assert(groups[w0].0 != groups[j].0);
                    }
                }
            }
        } else {
            assert(g1 == groups.update(j, (groups[j].0, members1)));
            assert(groups[j].1.len() > 1);
            assert forall|a: int, b: int, x: int, y: int|
                0 <= a < g1.len() && 0 <= b < g1.len() && 0 <= x < g1[a].1.len() && 0 <= y
                    < g1[b].1.len() && (a != b || x != y) implies (#[trigger] g1[a].1[x]).0 != (
            #[trigger] g1[b].1[y]).0 by {
                let x0 = if a == j && x >= k { x + 1 } else { x };
                let y0 = if b == j && y >= k { y + 1 } else { y };
                assert(g1[a].1[x].0 == groups[a].1[x0].0);
                assert(g1[b].1[y].0 == groups[b].1[y0].0);
                assert(a != b || x0 != y0);
            }
            assert forall|a: int, x: int|
                0 <= a < g1.len() && 0 <= x < g1[a].1.len() implies (#[trigger] g1[a].1[x]).1.app_id
                == g1[a].0 by {
                let x0 = if a == j && x >= k { x + 1 } else { x };
                assert(g1[a].1[x] == groups[a].1[x0]);
            }
            assert(!spec_groups_contains_handle(g1, h)) by {
                if spec_groups_contains_handle(g1, h) {
                    let (wj, wk): (int, int) = choose|wj: int, wk: int|
                        0 <= wj < g1.len() && 0 <= wk < g1[wj].1.len() && (
                        #[trigger] g1[wj].1[wk]).0 == h;
                    let wk0 = if wj == j && wk >= k { wk + 1 } else { wk };
                    assert(groups[wj].1[wk0].0 == h);
                    assert(wj != j || wk0 != k);
                    assert(groups[wj].1[wk0].0 != groups[j].1[k].0);
                }
            }
            assert forall|g: ToplevelHandle|
                #[trigger] spec_groups_contains_handle(g1, g) implies spec_groups_contains_handle(
                groups,
                g,
            ) by {
                let (wj, wk): (int, int) = choose|wj: int, wk: int|
                    0 <= wj < g1.len() && 0 <= wk < g1[wj].1.len() && (#[trigger] g1[wj].1[wk]).0
                        == g;
                let wk0 = if wj == j && wk >= k { wk + 1 } else { wk };
                assert(groups[wj].1[wk0].0 == g);
            }
            assert forall|key: Seq<char>|
                #[trigger] spec_groups_contains_key(g1, key) implies spec_groups_contains_key(
                groups,
                key,
            ) by {
                let wj = choose|wj: int| 0 <= wj < g1.len() && g1[wj].0 == key;
                assert(groups[wj].0 == key);
            }
        }
    } else {
        assert(!spec_groups_contains_handle(g1, h));
    }
}


/// Idempotent group cleanup: removing the last window of an application and
/// then adding a window of a different application resurrects nothing — the
/// removed application's key stays absent, and the removed handle stays off
/// file.
pub proof fn lemma_group_cleanup_idempotent(
    groups: GroupsModel,
    h: ToplevelHandle,
    h2: ToplevelHandle,
    info2: ToplevelInfoModel,
)
    requires
        spec_groups_wf(groups),
        spec_groups_contains_handle(groups, h),
        groups[spec_handle_group_of(groups, h)].1.len() == 1,
        info2.app_id != groups[spec_handle_group_of(groups, h)].0,
        !spec_groups_contains_handle(spec_index_remove(groups, h), h2),
    ensures
        ({
            let a = groups[spec_handle_group_of(groups, h)].0;
            let g2 = spec_index_add(spec_index_remove(groups, h), h2, info2);
            &&& spec_groups_wf(g2)
            &&& !spec_groups_contains_key(g2, a)
            &&& (h2 != h ==> !spec_groups_contains_handle(g2, h))
        }),
{
    let a = groups[spec_handle_group_of(groups, h)].0;
    let g1 = spec_index_remove(groups, h);
    lemma_index_remove_wf(groups, h);
    let g2 = spec_index_add(g1, h2, info2);
    lemma_index_add_wf(g1, h2, info2);
    assert(!spec_groups_contains_key(g2, a)) by {
        if spec_groups_contains_key(g2, a) {
            assert(spec_groups_contains_key(g1, a) || a == info2.app_id);
        }
    }
    if h2 != h {
        assert(!spec_groups_contains_handle(g2, h)) by {
            if spec_groups_contains_handle(g2, h) {
                assert(spec_groups_contains_handle(g1, h) || h == h2);
            }
        }
    }
}

/// With no focused window in a group, the group yields no candidate.
proof fn lemma_group_focus_none(
    members: Seq<(ToplevelHandle, ToplevelInfoModel)>,
    outputs: OutputsModel,
)
    requires
        forall|k: int| 0 <= k < members.len() ==> !spec_is_focused((#[trigger] members[k]).1, outputs),
    ensures
        spec_group_first_focused(members, outputs) is None,
    decreases members.len(),
{
    if members.len() > 0 {
        assert(!spec_is_focused(members[0].1, outputs));
        assert(forall|k: int|
            0 <= k < members.drop_first().len() ==> !spec_is_focused(
                (#[trigger] members.drop_first()[k]).1,
                outputs,
            ));
        lemma_group_focus_none(members.drop_first(), outputs);
    }
}

/// With a focused window in a group whose focused members all share one
/// handle, the group yields exactly that handle.
proof fn lemma_group_focus_unique(
    members: Seq<(ToplevelHandle, ToplevelInfoModel)>,
    outputs: OutputsModel,
    h: ToplevelHandle,
)
    requires
        exists|k: int|
            0 <= k < members.len() && (#[trigger] members[k]).0 == h && spec_is_focused(
                members[k].1,
                outputs,
            ),
        forall|k: int|
            0 <= k < members.len() && spec_is_focused((#[trigger] members[k]).1, outputs)
                ==> members[k].0 == h,
    ensures
        spec_group_first_focused(members, outputs) == Some(h),
    decreases members.len(),
{
    let w = choose|k: int|
        0 <= k < members.len() && (#[trigger] members[k]).0 == h && spec_is_focused(
            members[k].1,
            outputs,
        );
    if spec_is_focused(members[0].1, outputs) {
        assert(members[0].0 == h);
    } else {
        assert(w > 0);
        assert(members.drop_first()[w - 1] == members[w]);
        assert(forall|k: int|
            0 <= k < members.drop_first().len() ==> members.drop_first()[k] == members[k + 1]);
        lemma_group_focus_unique(members.drop_first(), outputs, h);
    }
}

/// Focus determinism, empty side: with no focused window anywhere, the focus
/// query yields nothing.
pub proof fn lemma_focus_none(groups: GroupsModel, outputs: OutputsModel)
    requires
        forall|j: int, k: int|
            0 <= j < groups.len() && 0 <= k < groups[j].1.len() ==> !spec_is_focused(
                (#[trigger] groups[j].1[k]).1,
                outputs,
            ),
    ensures
        spec_first_focused(groups, outputs) is None,
    decreases groups.len(),
{
    if groups.len() > 0 {
        assert(forall|k: int|
            0 <= k < groups[0].1.len() ==> !spec_is_focused((#[trigger] groups[0].1[k]).1, outputs));
        lemma_group_focus_none(groups[0].1, outputs);
        assert(forall|j: int, k: int|
            0 <= j < groups.drop_first().len() && 0 <= k < groups.drop_first()[j].1.len()
                ==> !spec_is_focused((#[trigger] groups.drop_first()[j].1[k]).1, outputs)) by {
            assert(forall|j: int|
                0 <= j < groups.drop_first().len() ==> #[trigger] groups.drop_first()[j] == groups[j
                    + 1]);
        }
        lemma_focus_none(groups.drop_first(), outputs);
    }
}

/// Focus determinism, unique side: with exactly one focused window across
/// all groups, the focus query yields exactly its handle.
pub proof fn lemma_focus_unique(groups: GroupsModel, outputs: OutputsModel, h: ToplevelHandle)
    requires
        exists|j: int, k: int|
            0 <= j < groups.len() && 0 <= k < groups[j].1.len() && (#[trigger] groups[j].1[k]).0
                == h && spec_is_focused(groups[j].1[k].1, outputs),
        forall|j: int, k: int|
            0 <= j < groups.len() && 0 <= k < groups[j].1.len() && spec_is_focused(
                (#[trigger] groups[j].1[k]).1,
                outputs,
            ) ==> groups[j].1[k].0 == h,
    ensures
        spec_first_focused(groups, outputs) == Some(h),
    decreases groups.len(),
{
    let (wj, wk): (int, int) = choose|wj: int, wk: int|
        0 <= wj < groups.len() && 0 <= wk < groups[wj].1.len() && (#[trigger] groups[wj].1[wk]).0
            == h && spec_is_focused(groups[wj].1[wk].1, outputs);
    if exists|k: int|
        0 <= k < groups[0].1.len() && spec_is_focused((#[trigger] groups[0].1[k]).1, outputs) {
        let w0 = choose|k: int|
            0 <= k < groups[0].1.len() && spec_is_focused((#[trigger] groups[0].1[k]).1, outputs);
        assert(groups[0].1[w0].0 == h);
        lemma_group_focus_unique(groups[0].1, outputs, h);
    } else {
        assert(forall|k: int|
            0 <= k < groups[0].1.len() ==> !spec_is_focused((#[trigger] groups[0].1[k]).1, outputs));
        lemma_group_focus_none(groups[0].1, outputs);
        assert(wj > 0);
        assert(forall|j: int|
            0 <= j < groups.drop_first().len() ==> #[trigger] groups.drop_first()[j] == groups[j
                + 1]);
        assert(groups.drop_first()[wj - 1] == groups[wj]);
        lemma_focus_unique(groups.drop_first(), outputs, h);
    }
}

} // verus!
