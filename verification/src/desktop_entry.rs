//! The desktop-entry cache: what the panel knows about installed
//! applications, and the fuzzy match from a window's application id to an
//! entry.
//!
//! Scanning the `.desktop` files on disk lives outside the library; the
//! library receives each entry's fields as plain values, decides visibility,
//! resolves the entry's icon, and answers lookups.

use vstd::prelude::*;

use std::path::PathBuf;

use crate::icons::{default_icon_path, lookup_icon, IconTheme};
use crate::text::str_eq;

verus! {

/// The ghost model of one desktop entry's fields.
pub ghost struct DesktopEntryMetaModel {
    pub appid: Seq<char>,
    pub name: Option<Seq<char>>,
    pub name_default: Option<Seq<char>>,
    pub startup_wm_class: Option<Seq<char>>,
    pub exec_string: Option<Seq<char>>,
    pub icon: Option<Seq<char>>,
    pub no_display: bool,
    pub terminal: bool,
}

/// The fields of one desktop entry that the panel reads: its application
/// id, its name under the environment's locales and under the default
/// locale, its startup WM class, its launch command, its icon name, and its
/// visibility switches.
pub struct DesktopEntryMeta {
    pub appid: String,
    pub name: Option<String>,
    pub name_default: Option<String>,
    pub startup_wm_class: Option<String>,
    pub exec_string: Option<String>,
    pub icon: Option<String>,
    pub no_display: bool,
    pub terminal: bool,
}

/// The view of an optional string.
pub open spec fn opt_str_view(s: Option<String>) -> Option<Seq<char>> {
    match s {
        Some(v) => Some(v@),
        None => None,
    }
}

impl View for DesktopEntryMeta {
    type V = DesktopEntryMetaModel;

    open spec fn view(&self) -> DesktopEntryMetaModel {
        DesktopEntryMetaModel {
            appid: self.appid@,
            name: opt_str_view(self.name),
            name_default: opt_str_view(self.name_default),
            startup_wm_class: opt_str_view(self.startup_wm_class),
            exec_string: opt_str_view(self.exec_string),
            icon: opt_str_view(self.icon),
            no_display: self.no_display,
            terminal: self.terminal,
        }
    }
}

impl DesktopEntryMeta {
    /// A copy whose model equals this record's model.
    pub fn duplicate(&self) -> (r: DesktopEntryMeta)
        ensures
            r@ == self@,
    {
        let r = DesktopEntryMeta {
            appid: self.appid.clone(),
            name: clone_opt_string(&self.name),
            name_default: clone_opt_string(&self.name_default),
            startup_wm_class: clone_opt_string(&self.startup_wm_class),
            exec_string: clone_opt_string(&self.exec_string),
            icon: clone_opt_string(&self.icon),
            no_display: self.no_display,
            terminal: self.terminal,
        };
        proof {
            assert(r@ =~= self@);
        }
        r
    }
}

/// A copy of an optional string.
fn clone_opt_string(s: &Option<String>) -> (r: Option<String>)
    ensures
        opt_str_view(r) == opt_str_view(*s),
{
    match s {
        Some(v) => Some(v.clone()),
        None => None,
    }
}

/// An entry is hidden from the panel when it asks not to be displayed, has
/// no name, runs in a terminal, or has no launch command.
pub open spec fn spec_invisible(m: DesktopEntryMetaModel) -> bool {
    ||| m.no_display
    ||| m.name is None
    ||| m.terminal
    ||| m.exec_string is None
}

/// One cached entry: its fields, the resolved path of its icon, and whether
/// the panel hides it.
pub struct EntryInfo {
    pub desktop_entry: DesktopEntryMeta,
    pub icon_path: Option<PathBuf>,
    pub invisible: bool,
}

impl EntryInfo {
    /// Build one cached entry: decide visibility from the fields, and for a
    /// visible entry with an icon name, resolve the icon against the
    /// hicolor theme with the given theme's generic icon as fallback. A
    /// hidden entry, or one with no icon name, gets no icon path.
    pub fn new(desktop_entry: DesktopEntryMeta, icon_theme: &IconTheme) -> (r: EntryInfo)
        ensures
            r.desktop_entry == desktop_entry,
            r.invisible == spec_invisible(desktop_entry@),
            spec_invisible(desktop_entry@) ==> r.icon_path is None,
            desktop_entry@.icon is None ==> r.icon_path is None,
    {
        let invisible = desktop_entry.no_display || desktop_entry.name.is_none()
            || desktop_entry.terminal || desktop_entry.exec_string.is_none();
        let icon_path = if invisible {
            None
        } else {
            match &desktop_entry.icon {
                Some(icon) => match lookup_icon(icon.as_str(), "hicolor") {
                    Some(path) => Some(path),
                    None => default_icon_path(icon_theme),
                },
                None => None,
            }
        };
        EntryInfo { desktop_entry, icon_path, invisible }
    }

    /// A copy of this entry: same fields, same icon path, same visibility.
    pub fn duplicate(&self) -> (r: EntryInfo)
        ensures
            r.desktop_entry@ == self.desktop_entry@,
            r.icon_path == self.icon_path,
            r.invisible == self.invisible,
    {
        EntryInfo {
            desktop_entry: self.desktop_entry.duplicate(),
            icon_path: match &self.icon_path {
                Some(p) => Some(p.clone()),
                None => None,
            },
            invisible: self.invisible,
        }
    }
}

/// The ghost model of the cache: application ids with their entries'
/// models, in insertion order.
pub type CacheModel = Seq<(Seq<char>, DesktopEntryMetaModel)>;

/// The cache of installed applications, keyed by application id.
pub struct DesktopEntryCache {
    pub entries: Vec<(String, EntryInfo)>,
}

/// Cache keys are distinct, and each entry is filed under its own
/// application id.
pub open spec fn spec_cache_wf(m: CacheModel) -> bool {
    &&& forall|i: int, j: int| 0 <= i < j < m.len() ==> m[i].0 != m[j].0
    &&& forall|i: int| 0 <= i < m.len() ==> (#[trigger] m[i].1).appid == m[i].0
}

/// Some entry is filed under this application id.
pub open spec fn spec_cache_contains_key(m: CacheModel, key: Seq<char>) -> bool {
    exists|i: int| 0 <= i < m.len() && m[i].0 == key
}

/// The position of the entry filed under this application id.
pub open spec fn spec_cache_index_of(m: CacheModel, key: Seq<char>) -> int {
    choose|i: int| 0 <= i < m.len() && m[i].0 == key
}

/// Filing one entry model: the entry under the same id is replaced when one
/// exists, else the new entry is appended.
pub open spec fn spec_cache_insert(m: CacheModel, meta: DesktopEntryMetaModel) -> CacheModel {
    if spec_cache_contains_key(m, meta.appid) {
        m.update(spec_cache_index_of(m, meta.appid), (meta.appid, meta))
    } else {
        m.push((meta.appid, meta))
    }
}

/// The cache built from a run of entry models, filed in order: of entries
/// sharing an application id, the last one read wins.
pub open spec fn spec_cache_build(metas: Seq<DesktopEntryMetaModel>) -> CacheModel
    decreases metas.len(),
{
    if metas.len() == 0 {
        Seq::empty()
    } else {
        spec_cache_insert(spec_cache_build(metas.drop_last()), metas.last())
    }
}

/// The outcome of the fuzzy match over the cache model: the entry filed
/// under the id itself; else the first entry whose startup WM class is the
/// id; else the first entry whose default-locale name is the id; else
/// nothing.
pub open spec fn spec_fuzzy_match(m: CacheModel, pattern: Seq<char>) -> Option<
    DesktopEntryMetaModel,
> {
    if spec_cache_contains_key(m, pattern) {
        Some(m[spec_cache_index_of(m, pattern)].1)
    } else if exists|i: int|
        0 <= i < m.len() && (#[trigger] m[i].1).startup_wm_class == Some(pattern) {
        let i = choose|i: int|
            0 <= i < m.len() && (#[trigger] m[i].1).startup_wm_class == Some(pattern) && forall|
                j: int,
            | 0 <= j < i ==> (#[trigger] m[j].1).startup_wm_class != Some(pattern);
        Some(m[i].1)
    } else if exists|i: int| 0 <= i < m.len() && (#[trigger] m[i].1).name_default == Some(pattern) {
        let i = choose|i: int|
            0 <= i < m.len() && (#[trigger] m[i].1).name_default == Some(pattern) && forall|j: int|
                0 <= j < i ==> (#[trigger] m[j].1).name_default != Some(pattern);
        Some(m[i].1)
    } else {
        None
    }
}

impl DesktopEntryCache {
    /// The ghost model of the cache.
    pub open spec fn model(self) -> CacheModel {
        self.entries@.map_values(|p: (String, EntryInfo)| (p.0@, p.1.desktop_entry@))
    }

    pub open spec fn wf(self) -> bool {
        &&& spec_cache_wf(self.model())
        &&& forall|i: int|
            0 <= i < self.model().len() ==> (#[trigger] self.entries@[i]).1.invisible
                == spec_invisible(self.model()[i].1)
    }

    /// Build the cache from the entries read on disk, filing each under its
    /// application id in order: of entries sharing an id, the last one read
    /// wins. Visibility and icons are decided here, per [`EntryInfo::new`].
    pub fn build(metas: Vec<DesktopEntryMeta>, icon_theme: &IconTheme) -> (r: DesktopEntryCache)
        ensures
            r.model() == spec_cache_build(metas@.map_values(|m: DesktopEntryMeta| m@)),
            r.wf(),
    {
        let ghost metas_model = metas@.map_values(|m: DesktopEntryMeta| m@);
        let mut r = DesktopEntryCache { entries: Vec::new() };
        proof {
            assert(r.model() =~= spec_cache_build(metas_model.take(0)));
        }
        let mut i: usize = 0;
        let n = metas.len();
        let mut rest = metas;
        while i < n
            invariant
                n == metas_model.len(),
                i <= n,
                rest@.len() == n - i,
                forall|k: int| 0 <= k < rest@.len() ==> (#[trigger] rest@[k])@ == metas_model[i + k],
                r.model() == spec_cache_build(metas_model.take(i as int)),
                r.wf(),
            decreases n - i,
        {
            let meta = rest.remove(0);
            proof {
                assert(meta@ == metas_model[i as int]);
                assert(forall|k: int|
                    0 <= k < rest@.len() ==> (#[trigger] rest@[k])@ == metas_model[i + 1 + k]);
            }
            let info = EntryInfo::new(meta, icon_theme);
            let key = info.desktop_entry.appid.clone();
            let ghost m0 = r.model();
            match r.find_key(&key) {
                Some(j) => {
                    let mut pair = r.entries.remove(j);
                    pair.1 = info;
                    r.entries.insert(j, pair);
                    proof {
                        assert(r.model() =~= spec_cache_insert(m0, metas_model[i as int]));
                    }
                },
                None => {
                    r.entries.push((key, info));
                    proof {
                        assert(r.model() =~= spec_cache_insert(m0, metas_model[i as int]));
                    }
                },
            }
            proof {
                assert(metas_model.take(i + 1).drop_last() =~= metas_model.take(i as int));
                assert(metas_model.take(i + 1).last() == metas_model[i as int]);
                lemma_cache_insert_wf(m0, metas_model[i as int]);
                assert forall|k: int|
                    0 <= k < r.model().len() implies (#[trigger] r.entries@[k]).1.invisible
                    == spec_invisible(r.model()[k].1) by {
                    if spec_cache_contains_key(m0, metas_model[i as int].appid) {
                        if k != spec_cache_index_of(m0, metas_model[i as int].appid) {
                            assert(r.entries@[k] == old_entries_at(r, k));
                        }
                    } else {
                        if k < r.model().len() - 1 {
                            assert(r.entries@[k] == old_entries_at(r, k));
                        }
                    }
                }
            }
            i += 1;
        }
        proof {
            assert(metas_model.take(n as int) =~= metas_model);
        }
        r
    }

    /// The position of the entry filed under this application id, if any.
    fn find_key(&self, key: &String) -> (r: Option<usize>)
        requires
            spec_cache_wf(self.model()),
        ensures
            match r {
                Some(j) => j < self.model().len() && self.model()[j as int].0 == key@ && j as int
                    == spec_cache_index_of(self.model(), key@),
                None => !spec_cache_contains_key(self.model(), key@),
            },
    {
        let ghost m = self.model();
        let mut j: usize = 0;
        while j < self.entries.len()
            invariant
                m == self.model(),
                spec_cache_wf(m),
                j <= self.entries.len(),
                m.len() == self.entries.len(),
                forall|x: int| 0 <= x < j ==> m[x].0 != key@,
            decreases self.entries.len() - j,
        {
            if self.entries[j].0 == *key {
                proof {
                    assert(m[j as int].0 == key@);
                    let w = spec_cache_index_of(m, key@);
                    assert(0 <= w < m.len() && m[w].0 == key@);
                    assert(w == j as int) by {
                        if w < j as int {
                            assert(m[w].0 != m[j as int].0);
                        }
                        if (j as int) < w {
                            assert(m[j as int].0 != m[w].0);
                        }
                    }
                }
                return Some(j);
            }
            j += 1;
        }
        None
    }

    /// Find the entry a window's application id stands for: the entry filed
    /// under the id itself; else the first whose startup WM class equals the
    /// id; else the first whose default-locale name equals the id; else
    /// none.
    pub fn fuzzy_match(&self, pattern: &str) -> (r: Option<EntryInfo>)
        requires
            spec_cache_wf(self.model()),
        ensures
            match r {
                Some(info) => spec_fuzzy_match(self.model(), pattern@) == Some(info.desktop_entry@),
                None => spec_fuzzy_match(self.model(), pattern@) is None,
            },
    {
        let ghost m = self.model();
        let owned = pattern.to_owned();
        match self.find_key(&owned) {
            Some(j) => {
                return Some(self.entries[j].1.duplicate());
            },
            None => {},
        }
        let mut j: usize = 0;
        while j < self.entries.len()
            invariant
                m == self.model(),
                m.len() == self.entries.len(),
                j <= self.entries.len(),
                !spec_cache_contains_key(m, pattern@),
                forall|x: int| 0 <= x < j ==> (#[trigger] m[x].1).startup_wm_class != Some(pattern@),
            decreases self.entries.len() - j,
        {
            let hit = match &self.entries[j].1.desktop_entry.startup_wm_class {
                Some(wm_class) => str_eq(wm_class.as_str(), pattern),
                None => false,
            };
            if hit {
                proof {
                    assert(m[j as int].1.startup_wm_class == Some(pattern@));
                    let w = choose|i: int|
                        0 <= i < m.len() && (#[trigger] m[i].1).startup_wm_class == Some(pattern@)
                            && forall|x: int| 0 <= x < i ==> (#[trigger] m[x].1).startup_wm_class
                            != Some(pattern@);
                    assert(0 <= (j as int) < m.len() && m[j as int].1.startup_wm_class == Some(
                        pattern@,
                    ) && forall|x: int| 0 <= x < j ==> (#[trigger] m[x].1).startup_wm_class != Some(
                        pattern@,
                    ));
                    assert(0 <= w < m.len() && m[w].1.startup_wm_class == Some(pattern@) && forall|
                        x: int,
                    | 0 <= x < w ==> (#[trigger] m[x].1).startup_wm_class != Some(pattern@));
                    assert(w == j as int) by {
                        if w < j as int {
                            assert(m[w].1.startup_wm_class != Some(pattern@));
                        }
                        if (j as int) < w {
                            assert(m[j as int].1.startup_wm_class != Some(pattern@));
                        }
                    }
                    assert(!spec_cache_contains_key(m, pattern@));
                    assert(exists|i: int|
                        0 <= i < m.len() && (#[trigger] m[i].1).startup_wm_class == Some(pattern@));
                    assert(spec_fuzzy_match(m, pattern@) == Some(m[j as int].1));
                    assert(m[j as int].1 == self.entries@[j as int].1.desktop_entry@);
                }
                return Some(self.entries[j].1.duplicate());
            }
            proof {
                assert(m[j as int].1.startup_wm_class != Some(pattern@));
            }
            j += 1;
        }
        let mut j: usize = 0;
        while j < self.entries.len()
            invariant
                m == self.model(),
                m.len() == self.entries.len(),
                j <= self.entries.len(),
                !spec_cache_contains_key(m, pattern@),
                forall|x: int| 0 <= x < m.len() ==> (#[trigger] m[x].1).startup_wm_class != Some(
                    pattern@,
                ),
                forall|x: int| 0 <= x < j ==> (#[trigger] m[x].1).name_default != Some(pattern@),
            decreases self.entries.len() - j,
        {
            let hit = match &self.entries[j].1.desktop_entry.name_default {
                Some(name) => str_eq(name.as_str(), pattern),
                None => false,
            };
            if hit {
                proof {
                    assert(m[j as int].1.name_default == Some(pattern@));
                    let w = choose|i: int|
                        0 <= i < m.len() && (#[trigger] m[i].1).name_default == Some(pattern@)
                            && forall|x: int| 0 <= x < i ==> (#[trigger] m[x].1).name_default
                            != Some(pattern@);
                    assert(0 <= (j as int) < m.len() && m[j as int].1.name_default == Some(pattern@)
                        && forall|x: int| 0 <= x < j ==> (#[trigger] m[x].1).name_default != Some(
                        pattern@,
                    ));
                    assert(0 <= w < m.len() && m[w].1.name_default == Some(pattern@) && forall|
                        x: int,
                    | 0 <= x < w ==> (#[trigger] m[x].1).name_default != Some(pattern@));
                    assert(w == j as int) by {
                        if w < j as int {
                            assert(m[w].1.name_default != Some(pattern@));
                        }
                        if (j as int) < w {
                            assert(m[j as int].1.name_default != Some(pattern@));
                        }
                    }
                }
                return Some(self.entries[j].1.duplicate());
            }
            proof {
                assert(m[j as int].1.name_default != Some(pattern@));
            }
            j += 1;
        }
        None
    }
}

/// The entry of the cache at one position, for stating frame conditions.
spec fn old_entries_at(c: DesktopEntryCache, k: int) -> (String, EntryInfo) {
    c.entries@[k]
}

/// Filing one entry keeps the cache well formed.
pub proof fn lemma_cache_insert_wf(m: CacheModel, meta: DesktopEntryMetaModel)
    requires
        spec_cache_wf(m),
    ensures
        spec_cache_wf(spec_cache_insert(m, meta)),
{
    let m1 = spec_cache_insert(m, meta);
    if spec_cache_contains_key(m, meta.appid) {
        let j = spec_cache_index_of(m, meta.appid);
        assert(0 <= j < m.len() && m[j].0 == meta.appid);
        assert forall|a: int, b: int| 0 <= a < b < m1.len() implies m1[a].0 != m1[b].0 by {
            if a != j {
                assert(m1[a] == m[a]);
            }
            if b != j {
                assert(m1[b] == m[b]);
            }
        }
    } else {
        assert(forall|i: int| 0 <= i < m.len() ==> m[i].0 != meta.appid);
        assert forall|a: int, b: int| 0 <= a < b < m1.len() implies m1[a].0 != m1[b].0 by {
            assert(m1[a] == m[a]);
            if b < m1.len() - 1 {
                assert(m1[b] == m[b]);
            }
        }
    }
}

} // verus!
