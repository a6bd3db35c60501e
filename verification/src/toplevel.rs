//! Core data types for tracked toplevel windows: handles, state flags and
//! the per-window attribute record published by the compositor backends.

use vstd::prelude::*;

verus! {

/// One flag of a toplevel's state set. A window may carry several flags at
/// once (for instance activated and maximized); no ordering or precedence is
/// implied.
#[derive(Clone, Copy, Debug, PartialEq, Eq, Hash, Structural)]
pub enum ToplevelState {
    Maximized,
    Minimized,
    Fullscreen,
    Activated,
}

/// An unordered set of [`ToplevelState`] flags, stored as one boolean per
/// flag.
#[derive(Clone, Copy, Debug, PartialEq, Eq, Structural)]
pub struct ToplevelStateSet {
    pub maximized: bool,
    pub minimized: bool,
    pub fullscreen: bool,
    pub activated: bool,
}

impl ToplevelStateSet {
    /// The set with no flags.
    pub open spec fn spec_empty() -> ToplevelStateSet {
        ToplevelStateSet { maximized: false, minimized: false, fullscreen: false, activated: false }
    }

    pub open spec fn spec_contains(self, s: ToplevelState) -> bool {
        match s {
            ToplevelState::Maximized => self.maximized,
            ToplevelState::Minimized => self.minimized,
            ToplevelState::Fullscreen => self.fullscreen,
            ToplevelState::Activated => self.activated,
        }
    }

    pub open spec fn spec_insert(self, s: ToplevelState) -> ToplevelStateSet {
        match s {
            ToplevelState::Maximized => ToplevelStateSet { maximized: true, ..self },
            ToplevelState::Minimized => ToplevelStateSet { minimized: true, ..self },
            ToplevelState::Fullscreen => ToplevelStateSet { fullscreen: true, ..self },
            ToplevelState::Activated => ToplevelStateSet { activated: true, ..self },
        }
    }

    pub fn new() -> (r: ToplevelStateSet)
        ensures
            r == ToplevelStateSet::spec_empty(),
    {
        ToplevelStateSet { maximized: false, minimized: false, fullscreen: false, activated: false }
    }

    pub fn contains(&self, s: ToplevelState) -> (r: bool)
        ensures
            r == self.spec_contains(s),
    {
        match s {
            ToplevelState::Maximized => self.maximized,
            ToplevelState::Minimized => self.minimized,
            ToplevelState::Fullscreen => self.fullscreen,
            ToplevelState::Activated => self.activated,
        }
    }

    pub fn insert(&mut self, s: ToplevelState)
        ensures
            *final(self) == old(self).spec_insert(s),
    {
        match s {
            ToplevelState::Maximized => {
                self.maximized = true;
            }
            ToplevelState::Minimized => {
                self.minimized = true;
            }
            ToplevelState::Fullscreen => {
                self.fullscreen = true;
            }
            ToplevelState::Activated => {
                self.activated = true;
            }
        }
    }
}

impl Default for ToplevelStateSet {
    fn default() -> (r: ToplevelStateSet)
        ensures
            r == ToplevelStateSet::spec_empty(),
    {
        ToplevelStateSet::new()
    }
}

/// The identity of one compositor-tracked toplevel window. Each variant
/// carries the protocol object id assigned by the backend that announced the
/// window; equality is by backend and id, never by window attributes.
#[derive(Clone, Copy, Debug, PartialEq, Eq, Hash, Structural)]
pub enum ToplevelHandle {
    Zwlr(u64),
    Zcosmic(u64),
}

/// The set of outputs a window currently intersects, as protocol object ids.
/// Kept in first-seen order with no duplicates.
#[derive(Clone, Debug)]
pub struct OutputSet {
    pub ids: Vec<u64>,
}

impl View for OutputSet {
    type V = Seq<u64>;

    open spec fn view(&self) -> Seq<u64> {
        self.ids@
    }
}

impl OutputSet {
    /// No output id occurs twice.
    pub open spec fn spec_wf(s: Seq<u64>) -> bool {
        forall|i: int, j: int| 0 <= i < j < s.len() ==> s[i] != s[j]
    }

    pub open spec fn spec_contains(s: Seq<u64>, id: u64) -> bool {
        s.contains(id)
    }

    pub open spec fn spec_insert(s: Seq<u64>, id: u64) -> Seq<u64> {
        if s.contains(id) {
            s
        } else {
            s.push(id)
        }
    }

    pub open spec fn spec_remove(s: Seq<u64>, id: u64) -> Seq<u64> {
        if s.contains(id) {
            s.remove(s.index_of(id))
        } else {
            s
        }
    }

    pub fn new() -> (r: OutputSet)
        ensures
            r@ == Seq::<u64>::empty(),
            OutputSet::spec_wf(r@),
    {
        OutputSet { ids: Vec::new() }
    }

    pub fn contains(&self, id: u64) -> (r: bool)
        ensures
            r == OutputSet::spec_contains(self@, id),
    {
        let mut i: usize = 0;
        while i < self.ids.len()
            invariant
                i <= self.ids.len(),
                forall|j: int| 0 <= j < i ==> self.ids@[j] != id,
            decreases self.ids.len() - i,
        {
            if self.ids[i] == id {
                return true;
            }
            i += 1;
        }
        false
    }

    pub fn insert(&mut self, id: u64)
        requires
            OutputSet::spec_wf(old(self)@),
        ensures
            final(self)@ == OutputSet::spec_insert(old(self)@, id),
            OutputSet::spec_wf(final(self)@),
    {
        if !self.contains(id) {
            self.ids.push(id);
        }
    }

    pub fn remove(&mut self, id: u64)
        requires
            OutputSet::spec_wf(old(self)@),
        ensures
            final(self)@ == OutputSet::spec_remove(old(self)@, id),
            OutputSet::spec_wf(final(self)@),
    {
        let mut i: usize = 0;
        while i < self.ids.len()
            invariant
                OutputSet::spec_wf(old(self)@),
                self@ == old(self)@,
                i <= self.ids.len(),
                forall|j: int| 0 <= j < i ==> self.ids@[j] != id,
            decreases self.ids.len() - i,
        {
            if self.ids[i] == id {
                proof {
                    assert(self.ids@.contains(id)) by {
                        assert(self.ids@[i as int] == id);
                    }
                    assert(self.ids@.index_of(id) == i as int) by {
                        self.ids@.index_of_first_ensures(id);
                        let fst = self.ids@.index_of(id);
                        assert(self.ids@[fst] == id);
                        assert(!(fst < i) && !(i < fst)) by {
                            if fst < i {
                                assert(self.ids@[fst] != id);
                            }
                            if i < fst {
                                assert(OutputSet::spec_wf(self.ids@));
                                assert(self.ids@[i as int] == self.ids@[fst]);
                            }
                        }
                    }
                }
                let ghost s0 = self.ids@;
                self.ids.remove(i);
                proof {
                    assert(self.ids@ == s0.remove(i as int));
                    assert forall|a: int, b: int| 0 <= a < b < self.ids@.len() implies self.ids@[a]
                        != self.ids@[b] by {
                        if a < i {
                            assert(self.ids@[a] == s0[a]);
                        } else {
                            assert(self.ids@[a] == s0[a + 1]);
                        }
                        if b < i {
                            assert(self.ids@[b] == s0[b]);
                        } else {
                            assert(self.ids@[b] == s0[b + 1]);
                        }
                    }
                }
                return ;
            }
            i += 1;
        }
        proof {
            assert(!self.ids@.contains(id)) by {
                assert(forall|j: int| 0 <= j < self.ids@.len() ==> self.ids@[j] != id);
            }
        }
    }

    /// A copy holding the same ids.
    pub fn duplicate(&self) -> (r: OutputSet)
        ensures
            r@ == self@,
    {
        let ids = self.ids.clone();
        proof {
            assert(ids@ =~= self.ids@);
        }
        OutputSet { ids }
    }
}

/// The ghost model of a window's attribute record.
pub ghost struct ToplevelInfoModel {
    pub title: Seq<char>,
    pub app_id: Seq<char>,
    pub state: ToplevelStateSet,
    pub output: Seq<u64>,
}

impl ToplevelInfoModel {
    pub open spec fn wf(self) -> bool {
        OutputSet::spec_wf(self.output)
    }

    pub open spec fn empty() -> ToplevelInfoModel {
        ToplevelInfoModel {
            title: Seq::<char>::empty(),
            app_id: Seq::<char>::empty(),
            state: ToplevelStateSet::spec_empty(),
            output: Seq::<u64>::empty(),
        }
    }
}

/// The attributes of one toplevel window as a backend reports them: title,
/// application id, state flags, and the outputs the window intersects.
#[derive(Clone, Debug)]
pub struct CompositorToplevelInfo {
    pub title: String,
    pub app_id: String,
    pub state: ToplevelStateSet,
    pub output: OutputSet,
}

impl View for CompositorToplevelInfo {
    type V = ToplevelInfoModel;

    open spec fn view(&self) -> ToplevelInfoModel {
        ToplevelInfoModel {
            title: self.title@,
            app_id: self.app_id@,
            state: self.state,
            output: self.output@,
        }
    }
}

impl CompositorToplevelInfo {
    /// A record with empty title and app id, no state flags, no outputs.
    pub fn new() -> (r: CompositorToplevelInfo)
        ensures
            r@ == ToplevelInfoModel::empty(),
    {
        let r = CompositorToplevelInfo {
            title: String::new(),
            app_id: String::new(),
            state: ToplevelStateSet::new(),
            output: OutputSet::new(),
        };
        proof {
            assert(r@ =~= ToplevelInfoModel::empty());
        }
        r
    }

    /// A copy whose model equals this record's model.
    pub fn duplicate(&self) -> (r: CompositorToplevelInfo)
        ensures
            r@ == self@,
    {
        let r = CompositorToplevelInfo {
            title: self.title.clone(),
            app_id: self.app_id.clone(),
            state: self.state,
            output: self.output.duplicate(),
        };
        proof {
            assert(r@ =~= self@);
        }
        r
    }
}

impl Default for CompositorToplevelInfo {
    fn default() -> (r: CompositorToplevelInfo)
        ensures
            r@ == ToplevelInfoModel::empty(),
    {
        CompositorToplevelInfo::new()
    }
}

} // verus!
