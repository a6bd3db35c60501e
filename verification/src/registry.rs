//! The toplevel registry: the authoritative table of live window handles with
//! their pending and committed attribute records, implementing the
//! double-buffered commit protocol.
//!
//! Attribute events mutate only a window's pending record and publish
//! nothing. A `Done` event commits: the pending record is cloned into the
//! committed slot and published downstream, as `Add` on the first commit of a
//! handle and as `Update` on every later one. A `Closed` event removes the
//! handle and publishes `Remove`.

use vstd::prelude::*;

use crate::events::{
    ToplevelHandleEvent, ToplevelManagerEvent, ToplevelUpdate, ToplevelUpdateModel,
    opt_update_view,
};
use crate::toplevel::{
    CompositorToplevelInfo, OutputSet, ToplevelHandle, ToplevelInfoModel,
};

verus! {

/// The ghost model of one registry entry: the committed record, if any
/// commit has happened yet, and the pending record.
pub ghost struct ToplevelDataModel {
    pub current_info: Option<ToplevelInfoModel>,
    pub pending_info: ToplevelInfoModel,
}

/// One registry entry: the committed attribute record (absent until the
/// first commit) and the pending record that attribute events accumulate
/// into.
pub struct ToplevelData {
    pub current_info: Option<CompositorToplevelInfo>,
    pub pending_info: CompositorToplevelInfo,
}

impl View for ToplevelData {
    type V = ToplevelDataModel;

    open spec fn view(&self) -> ToplevelDataModel {
        ToplevelDataModel {
            current_info: match self.current_info {
                Some(c) => Some(c@),
                None => None,
            },
            pending_info: self.pending_info@,
        }
    }
}

impl ToplevelData {
    /// A fresh entry: no commit yet, empty pending record.
    pub fn new() -> (r: ToplevelData)
        ensures
            r@ == (ToplevelDataModel {
                current_info: None::<ToplevelInfoModel>,
                pending_info: ToplevelInfoModel::empty(),
            }),
    {
        ToplevelData { current_info: None, pending_info: CompositorToplevelInfo::new() }
    }
}

impl Default for ToplevelData {
    fn default() -> (r: ToplevelData)
        ensures
            r@ == (ToplevelDataModel {
                current_info: None::<ToplevelInfoModel>,
                pending_info: ToplevelInfoModel::empty(),
            }),
    {
        ToplevelData::new()
    }
}

/// The ghost model of the whole registry: entries in announcement order.
pub type RegistryModel = Seq<(ToplevelHandle, ToplevelDataModel)>;

/// The registry of live toplevel handles, in announcement order.
pub struct ToplevelManager {
    pub toplevels: Vec<(ToplevelHandle, ToplevelData)>,
}

impl View for ToplevelManager {
    type V = RegistryModel;

    open spec fn view(&self) -> RegistryModel {
        self.toplevels@.map_values(|p: (ToplevelHandle, ToplevelData)| (p.0, p.1@))
    }
}

/// No handle occurs twice, and every stored record is well formed.
pub open spec fn spec_registry_wf(m: RegistryModel) -> bool {
    &&& forall|i: int, j: int| 0 <= i < j < m.len() ==> m[i].0 != m[j].0
    &&& forall|i: int|
        0 <= i < m.len() ==> (#[trigger] m[i].1).pending_info.wf() && (match m[i].1.current_info {
            Some(c) => c.wf(),
            None => true,
        })
}

/// The handle is registered.
pub open spec fn spec_registry_contains(m: RegistryModel, h: ToplevelHandle) -> bool {
    exists|i: int| 0 <= i < m.len() && m[i].0 == h
}

/// The position of a registered handle.
pub open spec fn spec_registry_index_of(m: RegistryModel, h: ToplevelHandle) -> int {
    choose|i: int| 0 <= i < m.len() && m[i].0 == h
}

/// The committed record of a registered handle, if any commit has happened.
pub open spec fn spec_current_of(m: RegistryModel, h: ToplevelHandle) -> Option<ToplevelInfoModel> {
    m[spec_registry_index_of(m, h)].1.current_info
}

/// The pending record of a registered handle.
pub open spec fn spec_pending_of(m: RegistryModel, h: ToplevelHandle) -> ToplevelInfoModel {
    m[spec_registry_index_of(m, h)].1.pending_info
}

/// How one attribute event edits a pending record. `Done`, `Closed` and
/// `NoOp` leave the record unchanged.
pub open spec fn spec_apply_attr(
    info: ToplevelInfoModel,
    evt: ToplevelHandleEvent,
) -> ToplevelInfoModel {
    match evt {
        ToplevelHandleEvent::Title { title } => ToplevelInfoModel { title: title@, ..info },
        ToplevelHandleEvent::AppId { app_id } => ToplevelInfoModel { app_id: app_id@, ..info },
        ToplevelHandleEvent::OutputEnter { output } => ToplevelInfoModel {
            output: OutputSet::spec_insert(info.output, output),
            ..info
        },
        ToplevelHandleEvent::OutputLeave { output } => ToplevelInfoModel {
            output: OutputSet::spec_remove(info.output, output),
            ..info
        },
        ToplevelHandleEvent::State { state } => ToplevelInfoModel { state, ..info },
        ToplevelHandleEvent::Done => info,
        ToplevelHandleEvent::Closed => info,
        ToplevelHandleEvent::NoOp => info,
    }
}

/// True of the events that only edit the pending record.
pub open spec fn spec_is_attr_event(evt: ToplevelHandleEvent) -> bool {
    match evt {
        ToplevelHandleEvent::Title { .. } => true,
        ToplevelHandleEvent::AppId { .. } => true,
        ToplevelHandleEvent::OutputEnter { .. } => true,
        ToplevelHandleEvent::OutputLeave { .. } => true,
        ToplevelHandleEvent::State { .. } => true,
        ToplevelHandleEvent::Done => false,
        ToplevelHandleEvent::Closed => false,
        ToplevelHandleEvent::NoOp => false,
    }
}

/// The registry transition for one per-window event: the registry afterwards,
/// and the update published downstream, if any.
pub open spec fn spec_handle_event(
    m: RegistryModel,
    h: ToplevelHandle,
    evt: ToplevelHandleEvent,
) -> (RegistryModel, Option<ToplevelUpdateModel>)
    recommends
        spec_registry_contains(m, h),
{
    let i = spec_registry_index_of(m, h);
    let d = m[i].1;
    match evt {
        ToplevelHandleEvent::Done => {
            let published = d.pending_info;
            let upd = if d.current_info is None {
                ToplevelUpdateModel::Add(h, published)
            } else {
                ToplevelUpdateModel::Update(h, published)
            };
            (
                m.update(
                    i,
                    (h, ToplevelDataModel { current_info: Some(published), pending_info: published }),
                ),
                Some(upd),
            )
        },
        ToplevelHandleEvent::Closed => (m.remove(i), Some(ToplevelUpdateModel::Remove(h))),
        ToplevelHandleEvent::NoOp => (m, None),
        _ => (
            m.update(
                i,
                (h, ToplevelDataModel { pending_info: spec_apply_attr(d.pending_info, evt), ..d }),
            ),
            None,
        ),
    }
}

/// The registry transition for one manager-level event: a new announcement
/// appends a fresh entry; `Finished` changes nothing.
pub open spec fn spec_handle_manager_event(
    m: RegistryModel,
    evt: ToplevelManagerEvent,
) -> RegistryModel {
    match evt {
        ToplevelManagerEvent::Toplevel(h) => m.push(
            (
                h,
                ToplevelDataModel {
                    current_info: None,
                    pending_info: ToplevelInfoModel::empty(),
                },
            ),
        ),
        ToplevelManagerEvent::Finished => m,
    }
}

impl ToplevelManager {
    /// An empty registry.
    pub fn new() -> (r: ToplevelManager)
        ensures
            r@ == Seq::<(ToplevelHandle, ToplevelDataModel)>::empty(),
            spec_registry_wf(r@),
    {
        let r = ToplevelManager { toplevels: Vec::new() };
        proof {
            assert(r@ =~= Seq::<(ToplevelHandle, ToplevelDataModel)>::empty());
        }
        r
    }

    pub fn contains_handle(&self, h: ToplevelHandle) -> (r: bool)
        ensures
            r == spec_registry_contains(self@, h),
    {
        let mut i: usize = 0;
        while i < self.toplevels.len()
            invariant
                i <= self.toplevels.len(),
                forall|j: int| 0 <= j < i ==> self@[j].0 != h,
            decreases self.toplevels.len() - i,
        {
            if self.toplevels[i].0 == h {
                proof {
                    assert(self@[i as int].0 == h);
                }
                return true;
            }
            i += 1;
        }
        false
    }

    /// Position of a registered handle in announcement order.
    fn index_of(&self, h: ToplevelHandle) -> (r: usize)
        requires
            spec_registry_wf(self@),
            spec_registry_contains(self@, h),
        ensures
            r == spec_registry_index_of(self@, h),
            0 <= r < self@.len(),
            self@[r as int].0 == h,
    {
        let mut i: usize = 0;
        while i < self.toplevels.len()
            invariant
                spec_registry_wf(self@),
                spec_registry_contains(self@, h),
                i <= self.toplevels.len(),
                forall|j: int| 0 <= j < i ==> self@[j].0 != h,
            decreases self.toplevels.len() - i,
        {
            if self.toplevels[i].0 == h {
                proof {
                    assert(self@[i as int].0 == h);
                    let w = spec_registry_index_of(self@, h);
                    assert(0 <= w < self@.len() && self@[w].0 == h);
                    assert(w == i as int) by {
                        if w < i as int {
                            assert(self@[w].0 != self@[i as int].0);
                        }
                        if (i as int) < w {
                            assert(self@[i as int].0 != self@[w].0);
                        }
                    }
                }
                return i;
            }
            i += 1;
        }
        proof {
            let w = spec_registry_index_of(self@, h);
            assert(0 <= w < self@.len() && self@[w].0 == h);
        }
        unreached()
    }

    /// Apply one per-window event, per the double-buffered commit protocol,
    /// and return the update to publish downstream, if any.
    ///
    /// An event for a handle that is not registered is a protocol violation;
    /// the caller must treat it as fatal before calling.
    pub fn handle_toplevel_handle_event(
        &mut self,
        toplevel: ToplevelHandle,
        evt: ToplevelHandleEvent,
    ) -> (r: Option<ToplevelUpdate>)
        requires
            spec_registry_wf(old(self)@),
            spec_registry_contains(old(self)@, toplevel),
        ensures
            spec_registry_wf(final(self)@),
            final(self)@ == spec_handle_event(old(self)@, toplevel, evt).0,
            opt_update_view(r) == spec_handle_event(old(self)@, toplevel, evt).1,
    {
        proof {
            lemma_handle_event_preserves_wf(old(self)@, toplevel, evt);
        }
        let i = self.index_of(toplevel);
        let ghost m0 = self@;
        match evt {
            ToplevelHandleEvent::Title { title } => {
                let mut pair = self.toplevels.remove(i);
                pair.1.pending_info.title = title;
                self.toplevels.insert(i, pair);
                proof {
                    assert(self@ =~= spec_handle_event(m0, toplevel, evt).0);
                }
                None
            },
            ToplevelHandleEvent::AppId { app_id } => {
                let mut pair = self.toplevels.remove(i);
                pair.1.pending_info.app_id = app_id;
                self.toplevels.insert(i, pair);
                proof {
                    assert(self@ =~= spec_handle_event(m0, toplevel, evt).0);
                }
                None
            },
            ToplevelHandleEvent::OutputEnter { output } => {
                let mut pair = self.toplevels.remove(i);
                pair.1.pending_info.output.insert(output);
                self.toplevels.insert(i, pair);
                proof {
                    assert(self@ =~= spec_handle_event(m0, toplevel, evt).0);
                }
                None
            },
            ToplevelHandleEvent::OutputLeave { output } => {
                let mut pair = self.toplevels.remove(i);
                pair.1.pending_info.output.remove(output);
                self.toplevels.insert(i, pair);
                proof {
                    assert(self@ =~= spec_handle_event(m0, toplevel, evt).0);
                }
                None
            },
            ToplevelHandleEvent::State { state } => {
                let mut pair = self.toplevels.remove(i);
                pair.1.pending_info.state = state;
                self.toplevels.insert(i, pair);
                proof {
                    assert(self@ =~= spec_handle_event(m0, toplevel, evt).0);
                }
                None
            },
            ToplevelHandleEvent::Done => {
                let mut pair = self.toplevels.remove(i);
                let is_new = pair.1.current_info.is_none();
                let published = pair.1.pending_info.duplicate();
                pair.1.current_info = Some(published.duplicate());
                self.toplevels.insert(i, pair);
                proof {
                    assert(self@ =~= spec_handle_event(m0, toplevel, evt).0);
                }
                if is_new {
                    Some(ToplevelUpdate::Add(toplevel, published))
                } else {
                    Some(ToplevelUpdate::Update(toplevel, published))
                }
            },
            ToplevelHandleEvent::Closed => {
                self.toplevels.remove(i);
                proof {
                    assert(self@ =~= spec_handle_event(m0, toplevel, evt).0);
                }
                Some(ToplevelUpdate::Remove(toplevel))
            },
            ToplevelHandleEvent::NoOp => None,
        }
    }

    /// Apply one manager-level event: register a freshly announced handle
    /// with an empty pending record, or ignore `Finished`.
    ///
    /// Announcing a handle that is already registered is a protocol
    /// violation; the caller must treat it as fatal before calling.
    pub fn handle_toplevel_manager_event(&mut self, evt: ToplevelManagerEvent)
        requires
            spec_registry_wf(old(self)@),
            match evt {
                ToplevelManagerEvent::Toplevel(h) => !spec_registry_contains(old(self)@, h),
                ToplevelManagerEvent::Finished => true,
            },
        ensures
            spec_registry_wf(final(self)@),
            final(self)@ == spec_handle_manager_event(old(self)@, evt),
    {
        match evt {
            ToplevelManagerEvent::Toplevel(toplevel) => {
                self.toplevels.push((toplevel, ToplevelData::new()));
                proof {
                    assert(self@ =~= spec_handle_manager_event(old(self)@, evt));
                    assert forall|a: int, b: int|
                        0 <= a < b < self@.len() implies self@[a].0 != self@[b].0 by {
                        if b < self@.len() - 1 {
                            assert(old(self)@[a].0 != old(self)@[b].0);
                        } else {
                            assert(spec_registry_contains(old(self)@, self@[a].0)) by {
                                assert(old(self)@[a].0 == self@[a].0);
                            }
                        }
                    }
                }
            },
            ToplevelManagerEvent::Finished => {
                proof {
                    assert(self@ =~= spec_handle_manager_event(old(self)@, evt));
                }
            },
        }
    }
}

impl Default for ToplevelManager {
    fn default() -> (r: ToplevelManager)
        ensures
            r@ == Seq::<(ToplevelHandle, ToplevelDataModel)>::empty(),
            spec_registry_wf(r@),
    {
        ToplevelManager::new()
    }
}

/// One per-window event keeps the registry well formed, and touches no entry
/// but the handle's own.
pub proof fn lemma_handle_event_preserves_wf(
    m: RegistryModel,
    h: ToplevelHandle,
    evt: ToplevelHandleEvent,
)
    requires
        spec_registry_wf(m),
        spec_registry_contains(m, h),
    ensures
        spec_registry_wf(spec_handle_event(m, h, evt).0),
        forall|g: ToplevelHandle|
            g != h && spec_registry_contains(m, g) ==> #[trigger] spec_registry_contains(
                spec_handle_event(m, h, evt).0,
                g,
            ),
{
    let i = spec_registry_index_of(m, h);
    assert(0 <= i < m.len() && m[i].0 == h);
    let m1 = spec_handle_event(m, h, evt).0;
    match evt {
        ToplevelHandleEvent::Closed => {
            assert forall|a: int, b: int| 0 <= a < b < m1.len() implies m1[a].0 != m1[b].0 by {
                if a < i {
                    assert(m1[a] == m[a]);
                } else {
                    assert(m1[a] == m[a + 1]);
                }
                if b < i {
                    assert(m1[b] == m[b]);
                } else {
                    assert(m1[b] == m[b + 1]);
                }
            }
            assert forall|k: int| 0 <= k < m1.len() implies (#[trigger] m1[k].1).pending_info.wf()
                && (match m1[k].1.current_info {
                Some(c) => c.wf(),
                None => true,
            }) by {
                if k < i {
                    assert(m1[k] == m[k]);
                } else {
                    assert(m1[k] == m[k + 1]);
                }
            }
            assert forall|g: ToplevelHandle|
                g != h && spec_registry_contains(m, g) implies #[trigger] spec_registry_contains(
                m1,
                g,
            ) by {
                let j = spec_registry_index_of(m, g);
                assert(0 <= j < m.len() && m[j].0 == g);
                if j < i {
                    assert(m1[j].0 == g);
                } else {
                    assert(j != i);
                    assert(m1[j - 1].0 == g);
                }
            }
        },
        ToplevelHandleEvent::NoOp => {},
        _ => {
            // `Done` and every attribute event replace the entry at `i`,
            // keeping its handle.
            assert(m1 == m.update(i, m1[i]));
            assert(m1[i].0 == h);
            if spec_is_attr_event(evt) {
                lemma_apply_attr_preserves_wf(m[i].1.pending_info, evt);
            }
            assert forall|g: ToplevelHandle|
                g != h && spec_registry_contains(m, g) implies #[trigger] spec_registry_contains(
                m1,
                g,
            ) by {
                let j = spec_registry_index_of(m, g);
                assert(0 <= j < m.len() && m[j].0 == g);
                assert(j != i);
                assert(m1[j].0 == g);
            }
        },
    }
}

/// The pending record after a whole run of attribute events.
pub open spec fn spec_apply_attrs(
    info: ToplevelInfoModel,
    evts: Seq<ToplevelHandleEvent>,
) -> ToplevelInfoModel
    decreases evts.len(),
{
    if evts.len() == 0 {
        info
    } else {
        spec_apply_attrs(spec_apply_attr(info, evts[0]), evts.drop_first())
    }
}

/// The registry after a whole run of events for one handle.
pub open spec fn spec_apply_events(
    m: RegistryModel,
    h: ToplevelHandle,
    evts: Seq<ToplevelHandleEvent>,
) -> RegistryModel
    decreases evts.len(),
{
    if evts.len() == 0 {
        m
    } else {
        spec_apply_events(spec_handle_event(m, h, evts[0]).0, h, evts.drop_first())
    }
}

/// An attribute event publishes nothing downstream: partial updates are
/// never observable outside the registry.
pub proof fn lemma_attr_event_emits_nothing(
    m: RegistryModel,
    h: ToplevelHandle,
    evt: ToplevelHandleEvent,
)
    requires
        spec_is_attr_event(evt),
    ensures
        spec_handle_event(m, h, evt).1 is None,
{
}

/// One attribute event edits exactly the handle's pending record: the
/// committed record stays as it was, and nothing is published.
pub proof fn lemma_attr_event_step(m: RegistryModel, h: ToplevelHandle, evt: ToplevelHandleEvent)
    requires
        spec_registry_wf(m),
        spec_registry_contains(m, h),
        spec_is_attr_event(evt),
    ensures
        spec_registry_wf(spec_handle_event(m, h, evt).0),
        spec_registry_contains(spec_handle_event(m, h, evt).0, h),
        spec_current_of(spec_handle_event(m, h, evt).0, h) == spec_current_of(m, h),
        spec_pending_of(spec_handle_event(m, h, evt).0, h) == spec_apply_attr(
            spec_pending_of(m, h),
            evt,
        ),
        spec_handle_event(m, h, evt).1 is None,
{
    lemma_handle_event_preserves_wf(m, h, evt);
    let i = spec_registry_index_of(m, h);
    assert(0 <= i < m.len() && m[i].0 == h);
    let m1 = spec_handle_event(m, h, evt).0;
    assert(m1[i].0 == h);
    assert(spec_registry_contains(m1, h));
    let w = spec_registry_index_of(m1, h);
    assert(0 <= w < m1.len() && m1[w].0 == h);
    assert(w == i) by {
        if w < i {
            assert(m1[w].0 != m1[i].0);
        }
        if i < w {
            assert(m1[i].0 != m1[w].0);
        }
    }
}

/// Committing publishes the pending record exactly, as `Add` on a handle's
/// first commit and as `Update` on every later one, and leaves the handle
/// committed.
pub proof fn lemma_commit_step(m: RegistryModel, h: ToplevelHandle)
    requires
        spec_registry_wf(m),
        spec_registry_contains(m, h),
    ensures
        spec_registry_wf(spec_handle_event(m, h, ToplevelHandleEvent::Done).0),
        spec_registry_contains(spec_handle_event(m, h, ToplevelHandleEvent::Done).0, h),
        spec_handle_event(m, h, ToplevelHandleEvent::Done).1 == (Some(
            if spec_current_of(m, h) is None {
                ToplevelUpdateModel::Add(h, spec_pending_of(m, h))
            } else {
                ToplevelUpdateModel::Update(h, spec_pending_of(m, h))
            },
        )),
        spec_current_of(spec_handle_event(m, h, ToplevelHandleEvent::Done).0, h) == (Some(
            spec_pending_of(m, h),
        )),
        spec_pending_of(spec_handle_event(m, h, ToplevelHandleEvent::Done).0, h)
            == spec_pending_of(m, h),
{
    lemma_handle_event_preserves_wf(m, h, ToplevelHandleEvent::Done);
    let i = spec_registry_index_of(m, h);
    assert(0 <= i < m.len() && m[i].0 == h);
    let m1 = spec_handle_event(m, h, ToplevelHandleEvent::Done).0;
    assert(m1[i].0 == h);
    assert(spec_registry_contains(m1, h));
    let w = spec_registry_index_of(m1, h);
    assert(0 <= w < m1.len() && m1[w].0 == h);
    assert(w == i) by {
        if w < i {
            assert(m1[w].0 != m1[i].0);
        }
        if i < w {
            assert(m1[i].0 != m1[w].0);
        }
    }
}

/// Commit atomicity: for any run of attribute events followed by one commit,
/// the published record equals the pending record with the whole run
/// accumulated — never a partial intermediate state — and the run itself
/// publishes nothing. The commit publishes `Add` exactly when the handle had
/// no commit before the run.
pub proof fn lemma_commit_atomicity(
    m: RegistryModel,
    h: ToplevelHandle,
    evts: Seq<ToplevelHandleEvent>,
)
    requires
        spec_registry_wf(m),
        spec_registry_contains(m, h),
        forall|k: int| 0 <= k < evts.len() ==> spec_is_attr_event(#[trigger] evts[k]),
    ensures
        spec_registry_wf(spec_apply_events(m, h, evts)),
        spec_registry_contains(spec_apply_events(m, h, evts), h),
        spec_current_of(spec_apply_events(m, h, evts), h) == spec_current_of(m, h),
        spec_pending_of(spec_apply_events(m, h, evts), h) == spec_apply_attrs(
            spec_pending_of(m, h),
            evts,
        ),
        spec_handle_event(spec_apply_events(m, h, evts), h, ToplevelHandleEvent::Done).1 == (Some(
            if spec_current_of(m, h) is None {
                ToplevelUpdateModel::Add(h, spec_apply_attrs(spec_pending_of(m, h), evts))
            } else {
                ToplevelUpdateModel::Update(h, spec_apply_attrs(spec_pending_of(m, h), evts))
            },
        )),
    decreases evts.len(),
{
    if evts.len() == 0 {
        lemma_commit_step(m, h);
    } else {
        lemma_attr_event_step(m, h, evts[0]);
        let m1 = spec_handle_event(m, h, evts[0]).0;
        lemma_commit_atomicity(m1, h, evts.drop_first());
    }
}

/// First-commit distinction, completed: once a handle has committed, any
/// later run of attribute events followed by another commit publishes
/// `Update`, never another `Add`.
pub proof fn lemma_no_second_add(
    m: RegistryModel,
    h: ToplevelHandle,
    evts: Seq<ToplevelHandleEvent>,
)
    requires
        spec_registry_wf(m),
        spec_registry_contains(m, h),
        forall|k: int| 0 <= k < evts.len() ==> spec_is_attr_event(#[trigger] evts[k]),
    ensures
        ({
            let m1 = spec_handle_event(m, h, ToplevelHandleEvent::Done).0;
            spec_handle_event(spec_apply_events(m1, h, evts), h, ToplevelHandleEvent::Done).1
                == (Some(
                ToplevelUpdateModel::Update(
                    h,
                    spec_apply_attrs(spec_pending_of(m, h), evts),
                ),
            ))
        }),
{
    lemma_commit_step(m, h);
    let m1 = spec_handle_event(m, h, ToplevelHandleEvent::Done).0;
    lemma_commit_atomicity(m1, h, evts);
}

/// Attribute edits keep a pending record well formed.
pub proof fn lemma_apply_attr_preserves_wf(info: ToplevelInfoModel, evt: ToplevelHandleEvent)
    requires
        info.wf(),
    ensures
        spec_apply_attr(info, evt).wf(),
{
    match evt {
        ToplevelHandleEvent::OutputEnter { output } => {
            if !info.output.contains(output) {
                let s1 = info.output.push(output);
                assert forall|a: int, b: int| 0 <= a < b < s1.len() implies s1[a] != s1[b] by {
                    if b < s1.len() - 1 {
                        assert(s1[a] == info.output[a] && s1[b] == info.output[b]);
                    } else {
                        assert(s1[a] == info.output[a]);
                        assert(info.output.contains(info.output[a]));
                    }
                }
            }
        },
        ToplevelHandleEvent::OutputLeave { output } => {
            if info.output.contains(output) {
                let j = info.output.index_of(output);
                let s1 = info.output.remove(j);
                assert forall|a: int, b: int| 0 <= a < b < s1.len() implies s1[a] != s1[b] by {
                    if a < j {
                        assert(s1[a] == info.output[a]);
                    } else {
                        assert(s1[a] == info.output[a + 1]);
                    }
                    if b < j {
                        assert(s1[b] == info.output[b]);
                    } else {
                        assert(s1[b] == info.output[b + 1]);
                    }
                }
            }
        },
        _ => {},
    }
}

} // verus!
