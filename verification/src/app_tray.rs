//! The application tray: the backend index it owns, the routing of its
//! messages, and the decisions behind its row of buttons — which
//! applications appear in what order, and what pressing a button does.
//! Drawing the buttons lives outside the library.

use vstd::prelude::*;

use std::rc::Rc;

use crate::backend::{
    spec_apply_incoming, spec_resolve_outgoing, spec_groups_contains_handle, CompositorBackend,
    GroupsModel,
};
use crate::config::AppTrayConfig;
use crate::desktop_entry::{DesktopEntryCache, EntryInfo};
use crate::events::{ToplevelUpdate, WaylandIncoming, WaylandOutgoing, WaylandRequest};
use crate::toplevel::ToplevelHandle;

verus! {

/// A message for the application tray: an update from the compositor
/// worker, a command for it, a seat change, or a request for an
/// application's context menu.
pub enum AppTrayMessage {
    WaylandIn(WaylandIncoming),
    WaylandOut(WaylandOutgoing),
    NewSeat(u64),
    RemovedSeat(u64),
    ContextMenu(String),
}

/// The application tray's state: the shared desktop-entry cache, the window
/// index, and the tray's configuration.
pub struct AppTray {
    pub de_cache: Rc<DesktopEntryCache>,
    pub backend: CompositorBackend,
    pub config: AppTrayConfig,
}

/// The tray's button order: the pinned application ids first, in
/// configuration order, then every application with live windows that is
/// not pinned, in the index's first-seen order.
pub open spec fn spec_tray_order(favs: Seq<Seq<char>>, groups: GroupsModel) -> Seq<Seq<char>> {
    favs + groups.map_values(
        |g: (Seq<char>, Seq<(ToplevelHandle, crate::toplevel::ToplevelInfoModel)>)| g.0,
    ).filter(|k: Seq<char>| !favs.contains(k))
}

impl AppTray {
    /// A fresh tray around an empty index.
    pub fn new(config: AppTrayConfig, de_cache: Rc<DesktopEntryCache>) -> (r: AppTray)
        ensures
            r.de_cache == de_cache,
            r.config == config,
            r.backend.groups() == GroupsModel::empty(),
            r.backend.outputs() == crate::backend::OutputsModel::empty(),
            r.backend.wf(),
    {
        AppTray { de_cache, backend: CompositorBackend::new(), config }
    }

    /// Route one message: an incoming update folds into the index and an
    /// outgoing command resolves to the protocol request to send; seat
    /// changes touch nothing. A context-menu request never reaches the tray
    /// — the panel resolves it into opening a popup — so it is left out
    /// here. The freshness condition on an added window is the registry's
    /// guarantee, restated for the caller.
    pub fn handle_message(&mut self, message: AppTrayMessage) -> (r: Option<WaylandRequest>)
        requires
            old(self).backend.wf(),
            !(message matches AppTrayMessage::ContextMenu(_)),
            match message {
                AppTrayMessage::WaylandIn(
                    WaylandIncoming::Toplevel(ToplevelUpdate::Add(h, _)),
                ) => !spec_groups_contains_handle(old(self).backend.groups(), h),
                _ => true,
            },
        ensures
            final(self).backend.wf(),
            final(self).de_cache == old(self).de_cache,
            final(self).config == old(self).config,
            match message {
                AppTrayMessage::WaylandIn(incoming) => {
                    &&& final(self).backend.groups() == spec_apply_incoming(
                        old(self).backend.groups(),
                        old(self).backend.outputs(),
                        incoming,
                    ).0
                    &&& final(self).backend.outputs() == spec_apply_incoming(
                        old(self).backend.groups(),
                        old(self).backend.outputs(),
                        incoming,
                    ).1
                    &&& r is None
                },
                AppTrayMessage::WaylandOut(outgoing) => {
                    &&& final(self).backend.groups() == old(self).backend.groups()
                    &&& final(self).backend.outputs() == old(self).backend.outputs()
                    &&& r == Some(
                        spec_resolve_outgoing(
                            old(self).backend.groups(),
                            old(self).backend.outputs(),
                            outgoing,
                        ),
                    )
                },
                AppTrayMessage::NewSeat(_) => final(self).backend == old(self).backend && r is None,
                AppTrayMessage::RemovedSeat(_) => final(self).backend == old(self).backend
                    && r is None,
                AppTrayMessage::ContextMenu(_) => false,
            },
    {
        match message {
            AppTrayMessage::WaylandIn(evt) => {
                self.backend.handle_incoming(evt);
                None
            },
            AppTrayMessage::WaylandOut(evt) => Some(self.backend.handle_outgoing(evt)),
            AppTrayMessage::NewSeat(_) => None,
            AppTrayMessage::RemovedSeat(_) => None,
            AppTrayMessage::ContextMenu(_) => unreached(),
        }
    }

    /// The application ids of the tray's buttons, in display order: pinned
    /// ids first, then the unpinned applications with live windows.
    pub fn tray_order(&self) -> (r: Vec<String>)
        ensures
            r@.map_values(|s: String| s@) == spec_tray_order(
                self.config.favorites@.map_values(|s: String| s@),
                self.backend.groups(),
            ),
    {
        let ghost favs = self.config.favorites@.map_values(|s: String| s@);
        let ghost keys = self.backend.groups().map_values(
            |g: (Seq<char>, Seq<(ToplevelHandle, crate::toplevel::ToplevelInfoModel)>)| g.0,
        );
        let ghost pred = |k: Seq<char>| !favs.contains(k);
        let mut out: Vec<String> = Vec::new();
        let mut i: usize = 0;
        proof {
            assert(out@.map_values(|s: String| s@) =~= favs.take(0));
        }
        while i < self.config.favorites.len()
            invariant
                favs == self.config.favorites@.map_values(|s: String| s@),
                i <= self.config.favorites.len(),
                favs.len() == self.config.favorites.len(),
                out@.map_values(|s: String| s@) == favs.take(i as int),
            decreases self.config.favorites.len() - i,
        {
            let ghost out0 = out@;
            out.push(self.config.favorites[i].clone());
            proof {
                assert(favs[i as int] == self.config.favorites@[i as int]@);
                assert(out@ == out0.push(self.config.favorites@[i as int]));
                assert(out0.map_values(|s: String| s@).len() == out0.len());
                assert(out0.len() == i as int);
                assert(out@.len() == i + 1);
                assert(out@.map_values(|s: String| s@).len() == i + 1);
                assert forall|k: int| 0 <= k < i + 1 implies out@.map_values(|s: String| s@)[k]
                    == #[trigger] favs.take(i + 1)[k] by {
                    if k < i as int {
                        assert(out@[k] == out0[k]);
                        assert(out0.map_values(|s: String| s@)[k] == favs.take(i as int)[k]);
                    } else {
                        assert(out@[k] == self.config.favorites@[i as int]);
                    }
                }
                assert(out@.map_values(|s: String| s@) =~= favs.take(i + 1));
            }
            i += 1;
        }
        proof {
            reveal(Seq::filter);
            assert(favs.take(favs.len() as int) =~= favs);
            assert(keys.take(0).filter(pred) =~= Seq::<Seq<char>>::empty());
            assert(out@.map_values(|s: String| s@) =~= favs + keys.take(0).filter(pred));
        }
        let mut gi: usize = 0;
        while gi < self.backend.active_toplevels.len()
            invariant
                favs == self.config.favorites@.map_values(|s: String| s@),
                keys == self.backend.groups().map_values(
                    |g: (Seq<char>, Seq<(ToplevelHandle, crate::toplevel::ToplevelInfoModel)>)|
                        g.0,
                ),
                pred == (|k: Seq<char>| !favs.contains(k)),
                gi <= self.backend.active_toplevels.len(),
                keys.len() == self.backend.active_toplevels.len(),
                out@.map_values(|s: String| s@) == favs + keys.take(gi as int).filter(pred),
            decreases self.backend.active_toplevels.len() - gi,
        {
            let key = &self.backend.active_toplevels[gi].0;
            proof {
                assert(keys[gi as int] == key@);
            }
            let ghost out0 = out@.map_values(|s: String| s@);
            if !favorites_contain(&self.config.favorites, key) {
                out.push(key.clone());
                proof {
                    assert(out@.map_values(|s: String| s@) =~= out0 + seq![key@]);
                }
            }
            proof {
                reveal(Seq::filter);
                assert(keys.take(gi + 1).drop_last() =~= keys.take(gi as int));
                assert(keys.take(gi + 1).last() == keys[gi as int]);
                assert(out@.map_values(|s: String| s@) =~= favs + keys.take(gi + 1).filter(pred));
            }
            gi += 1;
        }
        proof {
            assert(keys.take(keys.len() as int) =~= keys);
        }
        out
    }

    /// What pressing a tray button does: nothing for an application with no
    /// cache entry or a hidden one; launching the application when it has no
    /// window and a launch command; toggling its single window; nothing when
    /// several windows are open.
    pub fn tray_item_action(
        app_id: &String,
        entry: Option<&EntryInfo>,
        num_toplevels: usize,
        first_handle: Option<ToplevelHandle>,
    ) -> (r: Option<AppTrayMessage>)
        requires
            num_toplevels == 1 ==> first_handle is Some,
        ensures
            match entry {
                None => r is None,
                Some(e) => {
                    if e.invisible {
                        r is None
                    } else if num_toplevels == 0 {
                        match e.desktop_entry.exec_string {
                            Some(ex) => (match r {
                                Some(m) => m matches AppTrayMessage::WaylandOut(
                                    WaylandOutgoing::Exec(a, x),
                                ) && a@ == app_id@ && x@ == ex@,
                                None => false,
                            }),
                            None => r is None,
                        }
                    } else if num_toplevels == 1 {
                        r == Some(
                            AppTrayMessage::WaylandOut(
                                WaylandOutgoing::Toggle(first_handle->Some_0),
                            ),
                        )
                    } else {
                        r is None
                    }
                },
            },
    {
        let e = match entry {
            None => {
                return None;
            },
            Some(e) => e,
        };
        if e.invisible {
            return None;
        }
        if num_toplevels == 0 {
            match &e.desktop_entry.exec_string {
                Some(ex) => Some(
                    AppTrayMessage::WaylandOut(WaylandOutgoing::Exec(app_id.clone(), ex.clone())),
                ),
                None => None,
            }
        } else if num_toplevels == 1 {
            match first_handle {
                Some(h) => Some(AppTrayMessage::WaylandOut(WaylandOutgoing::Toggle(h))),
                None => None,
            }
        } else {
            None
        }
    }
}

/// Whether one of the pinned application ids equals this key.
fn favorites_contain(favorites: &Vec<String>, key: &String) -> (r: bool)
    ensures
        r == favorites@.map_values(|s: String| s@).contains(key@),
{
    let ghost favs = favorites@.map_values(|s: String| s@);
    let mut i: usize = 0;
    while i < favorites.len()
        invariant
            favs == favorites@.map_values(|s: String| s@),
            i <= favorites.len(),
            favs.len() == favorites.len(),
            forall|j: int| 0 <= j < i ==> favs[j] != key@,
        decreases favorites.len() - i,
    {
        if favorites[i] == *key {
            proof {
                assert(favs[i as int] == key@);
            }
            return true;
        }
        proof {
            assert(favs[i as int] == favorites@[i as int]@);
        }
        i += 1;
    }
    false
}

} // verus!
