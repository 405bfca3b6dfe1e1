//! The wallpaper chosen for each monitor, keyed by monitor name.

use vstd::prelude::*;
use crate::config::ScaleMode;
use crate::text::str_eq;

verus! {

/// Current wallpaper state for a monitor
#[derive(Debug, Clone)]
pub struct MonitorWallpaper {
    /// Monitor name
    pub name: String,
    /// Current wallpaper source
    pub source: String,
    /// Scale mode
    pub mode: ScaleMode,
}

/// Per-monitor wallpapers, at most one per monitor name.
#[derive(Debug)]
pub struct MonitorWallpapers {
    entries: Vec<MonitorWallpaper>,
}

/// Some entry has this name.
pub open spec fn has_name(es: Seq<MonitorWallpaper>, k: Seq<char>) -> bool {
    exists|i: int| 0 <= i < es.len() && #[trigger] es[i].name@ == k
}

/// No two entries share a name.
pub open spec fn unique_names(es: Seq<MonitorWallpaper>) -> bool {
    forall|i: int, j: int| 0 <= i < es.len() && 0 <= j < es.len() && i != j ==> es[i].name@ != es[j].name@
}

/// The (source, mode) of the entry with name `k`.
pub open spec fn entry_value(es: Seq<MonitorWallpaper>, k: Seq<char>) -> (Seq<char>, ScaleMode) {
    let i = choose|i: int| 0 <= i < es.len() && #[trigger] es[i].name@ == k;
    (es[i].source@, es[i].mode)
}

/// The entries as a map from monitor name to (source, mode).
pub open spec fn entries_map(es: Seq<MonitorWallpaper>) -> Map<Seq<char>, (Seq<char>, ScaleMode)> {
    Map::new(|k: Seq<char>| has_name(es, k), |k: Seq<char>| entry_value(es, k))
}

proof fn lemma_value_at(es: Seq<MonitorWallpaper>, i: int)
    requires
        unique_names(es),
        0 <= i < es.len(),
    ensures
        entries_map(es).contains_key(es[i].name@),
        entries_map(es)[es[i].name@] == (es[i].source@, es[i].mode),
{
    let k = es[i].name@;
    assert(has_name(es, k));
    let j = choose|j: int| 0 <= j < es.len() && #[trigger] es[j].name@ == k;
    assert(j == i);
}

impl MonitorWallpapers {
    /// The wallpapers by monitor name.
    pub closed spec fn view(&self) -> Map<Seq<char>, (Seq<char>, ScaleMode)> {
        entries_map(self.entries@)
    }

    /// The invariant: names are unique.
    pub closed spec fn inv(&self) -> bool {
        unique_names(self.entries@)
    }

    /// No per-monitor wallpapers.
    pub fn new() -> (m: MonitorWallpapers)
        ensures
            m.inv(),
            m.view() == Map::<Seq<char>, (Seq<char>, ScaleMode)>::empty(),
    {
        let m = MonitorWallpapers { entries: Vec::new() };
        proof {
            assert(m.view() =~= Map::<Seq<char>, (Seq<char>, ScaleMode)>::empty());
        }
        m
    }

    fn position(&self, name: &str) -> (r: Option<usize>)
        requires
            self.inv(),
        ensures
            match r {
                Some(i) => i < self.entries@.len() && self.entries@[i as int].name@ == name@,
                None => !has_name(self.entries@, name@),
            },
    {
        let mut i: usize = 0;
        while i < self.entries.len()
            invariant
                i <= self.entries@.len(),
                forall|j: int| 0 <= j < i ==> self.entries@[j].name@ != name@,
            decreases self.entries.len() - i,
        {
            if str_eq(self.entries[i].name.as_str(), name) {
                return Some(i);
            }
            i = i + 1;
        }
        None
    }

    /// Number of monitors with a wallpaper of their own.
    pub fn len(&self) -> (r: usize)
        requires
            self.inv(),
        ensures
            r == self.view().len(),
    {
        proof {
            self.lemma_len();
        }
        self.entries.len()
    }

    proof fn lemma_len(&self)
        requires
            self.inv(),
        ensures
            self.view().dom().finite(),
            self.view().len() == self.entries@.len(),
    {
        let es = self.entries@;
        let names = es.map_values(|e: MonitorWallpaper| e.name@);
        assert(self.view().dom() =~= names.to_set()) by {
            assert forall|k: Seq<char>| self.view().dom().contains(k) implies names.to_set().contains(k) by {
                let i = choose|i: int| 0 <= i < es.len() && #[trigger] es[i].name@ == k;
                assert(names[i] == k);
            }
            assert forall|k: Seq<char>| names.to_set().contains(k) implies self.view().dom().contains(k) by {
                let i = choose|i: int| 0 <= i < names.len() && names[i] == k;
                assert(es[i].name@ == k);
            }
        }
        assert(names.no_duplicates());
        names.unique_seq_to_set();
    }

    /// Whether no monitor has a wallpaper of its own.
    pub fn is_empty(&self) -> (r: bool)
        requires
            self.inv(),
        ensures
            r == (self.view().len() == 0),
    {
        self.len() == 0
    }

    /// The wallpaper recorded for monitor `name`.
    pub fn get(&self, name: &str) -> (r: Option<&MonitorWallpaper>)
        requires
            self.inv(),
        ensures
            match r {
                Some(w) => self.view().contains_key(name@) && self.view()[name@] == (w.source@, w.mode)
                    && w.name@ == name@,
                None => !self.view().contains_key(name@),
            },
    {
        match self.position(name) {
            Some(i) => {
                proof {
                    lemma_value_at(self.entries@, i as int);
                }
                Some(&self.entries[i])
            },
            None => None,
        }
    }

    /// Record the wallpaper of a monitor, replacing any it had.
    pub fn insert(&mut self, w: MonitorWallpaper)
        requires
            old(self).inv(),
        ensures
            final(self).inv(),
            final(self).view() == old(self).view().insert(w.name@, (w.source@, w.mode)),
    {
        let ghost old_es = self.entries@;
        let ghost k = w.name@;
        let ghost v = (w.source@, w.mode);
        match self.position(w.name.as_str()) {
            Some(i) => {
                self.entries.set(i, w);
                proof {
                    let es = self.entries@;
                    assert(unique_names(es)) by {
                        assert forall|a: int, b: int|
                            0 <= a < es.len() && 0 <= b < es.len() && a != b implies es[a].name@
                            != es[b].name@ by {
                            if a != i && b != i {
                                assert(es[a] == old_es[a]);
                                assert(es[b] == old_es[b]);
                            } else if a == i {
                                assert(es[b] == old_es[b]);
                            } else {
                                assert(es[a] == old_es[a]);
                            }
                        }
                    }
                    assert forall|key: Seq<char>| #[trigger] entries_map(es).contains_key(key) == old(self).view().insert(k, v).contains_key(key) && (entries_map(es).contains_key(key) ==> entries_map(es)[key] == old(self).view().insert(k, v)[key]) by {
                        if key == k {
                            lemma_value_at(es, i as int);
                        } else {
                            if has_name(es, key) {
                                let j = choose|j: int| 0 <= j < es.len() && #[trigger] es[j].name@ == key;
                                assert(j != i);
                                assert(es[j] == old_es[j]);
                                lemma_value_at(es, j);
                                lemma_value_at(old_es, j);
                            }
                            if has_name(old_es, key) {
                                let j = choose|j: int| 0 <= j < old_es.len() && #[trigger] old_es[j].name@ == key;
                                assert(j != i);
                                assert(es[j] == old_es[j]);
                            }
                        }
                    }
                    assert(entries_map(es) =~= old(self).view().insert(k, v));
                }
            },
            None => {
                self.entries.push(w);
                proof {
                    let es = self.entries@;
                    assert(unique_names(es)) by {
                        assert forall|a: int, b: int|
                            0 <= a < es.len() && 0 <= b < es.len() && a != b implies es[a].name@
                            != es[b].name@ by {
                            if a < old_es.len() && b < old_es.len() {
                                assert(es[a] == old_es[a]);
                                assert(es[b] == old_es[b]);
                            } else if a < old_es.len() {
                                assert(es[a] == old_es[a]);
                            } else {
                                assert(es[b] == old_es[b]);
                            }
                        }
                    }
                    assert forall|key: Seq<char>| #[trigger] entries_map(es).contains_key(key) == old(self).view().insert(k, v).contains_key(key) && (entries_map(es).contains_key(key) ==> entries_map(es)[key] == old(self).view().insert(k, v)[key]) by {
                        if key == k {
                            lemma_value_at(es, old_es.len() as int);
                        } else {
                            if has_name(es, key) {
                                let j = choose|j: int| 0 <= j < es.len() && #[trigger] es[j].name@ == key;
                                assert(j < old_es.len());
                                assert(es[j] == old_es[j]);
                                lemma_value_at(es, j);
                                lemma_value_at(old_es, j);
                            }
                            if has_name(old_es, key) {
                                let j = choose|j: int| 0 <= j < old_es.len() && #[trigger] old_es[j].name@ == key;
                                assert(es[j] == old_es[j]);
                            }
                        }
                    }
                    assert(entries_map(es) =~= old(self).view().insert(k, v));
                }
            },
        }
    }

    /// Forget the wallpaper of monitor `name`, if it had one.
    pub fn remove(&mut self, name: &str)
        requires
            old(self).inv(),
        ensures
            final(self).inv(),
            final(self).view() == old(self).view().remove(name@),
    {
        let ghost old_es = self.entries@;
        match self.position(name) {
            Some(i) => {
                self.entries.remove(i);
                proof {
                    let es = self.entries@;
                    assert forall|a: int| 0 <= a < es.len() implies #[trigger] es[a] == if a < i {
                        old_es[a]
                    } else {
                        old_es[a + 1]
                    } by {}
                    assert(unique_names(es)) by {
                        assert forall|a: int, b: int|
                            0 <= a < es.len() && 0 <= b < es.len() && a != b implies es[a].name@
                            != es[b].name@ by {
                            let oa = if a < i { a } else { a + 1 };
                            let ob = if b < i { b } else { b + 1 };
                            assert(es[a] == old_es[oa]);
                            assert(es[b] == old_es[ob]);
                        }
                    }
                    assert forall|key: Seq<char>| #[trigger] entries_map(es).contains_key(key) == old(self).view().remove(name@).contains_key(key) && (entries_map(es).contains_key(key) ==> entries_map(es)[key] == old(self).view().remove(name@)[key]) by {
                        if has_name(es, key) {
                            let j = choose|j: int| 0 <= j < es.len() && #[trigger] es[j].name@ == key;
                            let oj = if j < i { j } else { j + 1 };
                            assert(es[j] == old_es[oj]);
                            lemma_value_at(es, j);
                            lemma_value_at(old_es, oj);
                        }
                        if has_name(old_es, key) && key != name@ {
                            let j = choose|j: int| 0 <= j < old_es.len() && #[trigger] old_es[j].name@ == key;
                            assert(j != i);
                            let nj = if j < i { j } else { j - 1 };
                            assert(es[nj] == old_es[j]);
                        }
                    }
                    assert(entries_map(es) =~= old(self).view().remove(name@));
                }
            },
            None => {
                proof {
                    assert(old(self).view().remove(name@) =~= old(self).view());
                }
            },
        }
    }
}

/// Map law: the wallpaper recorded for a monitor is the one read back for it, and recording
/// or forgetting one monitor's wallpaper leaves every other monitor's as it was.
pub proof fn law_monitor_map(
    m: Map<Seq<char>, (Seq<char>, ScaleMode)>,
    k: Seq<char>,
    v: (Seq<char>, ScaleMode),
    other: Seq<char>,
)
    requires
        other != k,
    ensures
        m.insert(k, v)[k] == v,
        m.insert(k, v).contains_key(other) == m.contains_key(other),
        m.contains_key(other) ==> m.insert(k, v)[other] == m[other],
        !m.remove(k).contains_key(k),
        m.remove(k).contains_key(other) == m.contains_key(other),
        m.contains_key(other) ==> m.remove(k)[other] == m[other],
{
}

} // verus!
