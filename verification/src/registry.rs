//! The surfaces that a device has handed out.

use vstd::prelude::*;
use crate::handle::CrtcHandle;
use crate::lookup::{first_position, lemma_first_position, lemma_first_position_unique};

verus! {

/// One entry: the CRTC of a surface, and whether the surface is still held.
#[derive(Clone, Copy, Debug)]
struct RegistryEntry {
    crtc: CrtcHandle,
    live: bool,
}

/// A lookup from CRTC to the surface made for it.
///
/// The registry does not own the surfaces. It remembers for each CRTC whether
/// the surface made for it is still held by someone (`true`) or has been let
/// go (`false`). An entry of the second kind is stale: it stays until it is
/// pruned or a new surface takes its place.
#[derive(Debug)]
pub struct SurfaceRegistry {
    entries: Vec<RegistryEntry>,
}

impl View for SurfaceRegistry {
    type V = Map<CrtcHandle, bool>;

    /// For each registered CRTC, whether its surface is still held.
    closed spec fn view(&self) -> Map<CrtcHandle, bool> {
        Map::new(
            |c: CrtcHandle| self.keys().contains(c),
            |c: CrtcHandle| self.entries@[first_position(self.keys(), c).unwrap()].live,
        )
    }
}

impl SurfaceRegistry {
    spec fn keys(&self) -> Seq<CrtcHandle> {
        self.entries@.map_values(|e: RegistryEntry| e.crtc)
    }

    /// No CRTC has two entries.
    pub closed spec fn wf(&self) -> bool {
        self.keys().no_duplicates()
    }

    /// The entry at `i` is what the view holds for its CRTC.
    proof fn lemma_entry(&self, i: int)
        requires
            self.wf(),
            0 <= i < self.entries@.len(),
        ensures
            self@.contains_key(self.entries@[i].crtc),
            self@[self.entries@[i].crtc] == self.entries@[i].live,
    {
        assert(self.keys()[i] == self.entries@[i].crtc);
        lemma_first_position_unique(self.keys(), self.entries@[i].crtc, i);
    }

    /// A registered CRTC has an entry.
    proof fn lemma_position(&self, crtc: CrtcHandle) -> (i: int)
        requires
            self@.contains_key(crtc),
        ensures
            0 <= i < self.entries@.len(),
            self.entries@[i].crtc == crtc,
            self@[crtc] == self.entries@[i].live,
    {
        lemma_first_position(self.keys(), crtc);
        first_position(self.keys(), crtc).unwrap()
    }

    /// The registry without entries.
    pub fn new() -> (res: SurfaceRegistry)
        ensures
            res.wf(),
            res@ == Map::<CrtcHandle, bool>::empty(),
    {
        let res = SurfaceRegistry { entries: Vec::new() };
        assert(res@ =~= Map::<CrtcHandle, bool>::empty());
        res
    }

    /// The place of the entry for `crtc`.
    fn position(&self, crtc: CrtcHandle) -> (res: Option<usize>)
        requires
            self.wf(),
        ensures
            match res {
                Some(i) => i < self.entries@.len() && self.entries@[i as int].crtc == crtc,
                None => !self@.contains_key(crtc),
            },
    {
        let mut i: usize = 0;
        while i < self.entries.len()
            invariant
                i <= self.entries.len(),
                forall|j: int| 0 <= j < i ==> self.keys()[j] != crtc,
            decreases self.entries.len() - i,
        {
            if self.entries[i].crtc == crtc {
                return Some(i);
            }
            i += 1;
        }
        None
    }

    /// What the registry holds for `crtc`: nothing, a surface that is still
    /// held (`true`), or a stale entry (`false`).
    pub fn lookup(&self, crtc: CrtcHandle) -> (res: Option<bool>)
        requires
            self.wf(),
        ensures
            res == if self@.contains_key(crtc) {
                Some(self@[crtc])
            } else {
                None
            },
    {
        match self.position(crtc) {
            Some(i) => {
                proof {
                    self.lemma_entry(i as int);
                }
                Some(self.entries[i].live)
            },
            None => None,
        }
    }

    /// Whether a surface for `crtc` is registered and still held.
    pub fn is_live(&self, crtc: CrtcHandle) -> (res: bool)
        requires
            self.wf(),
        ensures
            res == (self@.contains_key(crtc) && self@[crtc]),
    {
        match self.lookup(crtc) {
            Some(live) => live,
            None => false,
        }
    }

    /// Enters a surface for `crtc` that is held, in place of whatever was
    /// entered for that CRTC before.
    pub fn register(&mut self, crtc: CrtcHandle)
        requires
            old(self).wf(),
        ensures
            final(self).wf(),
            final(self)@ == old(self)@.insert(crtc, true),
    {
        self.put(crtc, true);
    }

    /// Marks the surface for `crtc` as let go. Returns whether there was a
    /// held surface to let go.
    pub fn release(&mut self, crtc: CrtcHandle) -> (res: bool)
        requires
            old(self).wf(),
        ensures
            final(self).wf(),
            res == (old(self)@.contains_key(crtc) && old(self)@[crtc]),
            final(self)@ == if res {
                old(self)@.insert(crtc, false)
            } else {
                old(self)@
            },
    {
        if self.is_live(crtc) {
            self.put(crtc, false);
            true
        } else {
            false
        }
    }

    fn put(&mut self, crtc: CrtcHandle, live: bool)
        requires
            old(self).wf(),
        ensures
            final(self).wf(),
            final(self)@ == old(self)@.insert(crtc, live),
    {
        let ghost before = *self;
        let ghost goal = before@.insert(crtc, live);
        match self.position(crtc) {
            Some(i) => {
                self.entries.set(i, RegistryEntry { crtc, live });
                proof {
                    assert(self.keys() =~= before.keys());
                    assert(self.keys()[i as int] == crtc);
                    assert forall|c: CrtcHandle| #[trigger]
                        self@.dom().contains(c) <==> goal.dom().contains(c) by {}
                    assert forall|c: CrtcHandle| #[trigger] self@.dom().contains(c) implies self@[c]
                        == goal[c] by {
                        let j = self.lemma_position(c);
                        lemma_first_position_unique(before.keys(), c, j);
                        if c == crtc {
                            lemma_first_position_unique(before.keys(), c, i as int);
                        }
                    }
                    assert(self@ =~= goal);
                }
            },
            None => {
                self.entries.push(RegistryEntry { crtc, live });
                proof {
                    let n = before.keys().len() as int;
                    assert(self.keys() =~= before.keys().push(crtc));
                    assert(self.keys()[n] == crtc);
                    assert forall|c: CrtcHandle| #[trigger]
                        self@.dom().contains(c) <==> goal.dom().contains(c) by {
                        if before@.dom().contains(c) {
                            let j = before.lemma_position(c);
                            assert(self.keys()[j] == c);
                        }
                        if self@.dom().contains(c) && c != crtc {
                            let j = self.lemma_position(c);
                            assert(before.keys()[j] == c);
                        }
                    }
                    assert forall|c: CrtcHandle| #[trigger] self@.dom().contains(c) implies self@[c]
                        == goal[c] by {
                        let j = self.lemma_position(c);
                        if c != crtc {
                            assert(before.keys()[j] == c);
                            lemma_first_position_unique(before.keys(), c, j);
                        } else {
                            lemma_first_position_unique(self.keys(), c, n);
                        }
                    }
                    assert(self@ =~= goal);
                }
            },
        }
    }

    /// Drops the entry for `crtc`, if there is one.
    pub fn remove(&mut self, crtc: CrtcHandle)
        requires
            old(self).wf(),
        ensures
            final(self).wf(),
            final(self)@ == old(self)@.remove(crtc),
    {
        let ghost before = *self;
        let ghost goal = before@.remove(crtc);
        match self.position(crtc) {
            Some(i) => {
                self.entries.remove(i);
                proof {
                    assert(self.keys() =~= before.keys().remove(i as int));
                    assert(before.keys()[i as int] == crtc);
                    assert forall|a: int, b: int|
                        0 <= a < self.keys().len() && 0 <= b < self.keys().len() && a
                            != b implies self.keys()[a] != self.keys()[b] by {
                        let a0 = if a < i { a } else { a + 1 };
                        let b0 = if b < i { b } else { b + 1 };
                        assert(self.keys()[a] == before.keys()[a0]);
                        assert(self.keys()[b] == before.keys()[b0]);
                    }
                    assert forall|c: CrtcHandle| #[trigger]
                        self@.dom().contains(c) <==> goal.dom().contains(c) by {
                        if before@.dom().contains(c) && c != crtc {
                            let j = before.lemma_position(c);
                            let j1 = if j < i { j } else { j - 1 };
                            assert(self.keys()[j1] == c);
                        }
                        if self@.dom().contains(c) {
                            let j = self.lemma_position(c);
                            let j0 = if j < i { j } else { j + 1 };
                            assert(before.keys()[j0] == c);
                        }
                    }
                    assert forall|c: CrtcHandle| #[trigger] self@.dom().contains(c) implies self@[c]
                        == goal[c] by {
                        let j = self.lemma_position(c);
                        let j0 = if j < i { j } else { j + 1 };
                        assert(before.keys()[j0] == c);
                        lemma_first_position_unique(before.keys(), c, j0);
                    }
                    assert(self@ =~= goal);
                }
            },
            None => {
                proof {
                    assert(self@ =~= goal);
                }
            },
        }
    }

    /// Drops every entry.
    pub fn clear(&mut self)
        ensures
            final(self).wf(),
            final(self)@ == Map::<CrtcHandle, bool>::empty(),
    {
        self.entries.clear();
        assert(self@ =~= Map::<CrtcHandle, bool>::empty());
    }

    /// Whether any registered surface is still held.
    pub fn has_live(&self) -> (res: bool)
        requires
            self.wf(),
        ensures
            res == exists|c: CrtcHandle| self@.contains_key(c) && #[trigger] self@[c],
    {
        let mut i: usize = 0;
        while i < self.entries.len()
            invariant
                i <= self.entries.len(),
                self.wf(),
                forall|j: int| 0 <= j < i ==> !self.entries@[j].live,
            decreases self.entries.len() - i,
        {
            if self.entries[i].live {
                proof {
                    self.lemma_entry(i as int);
                }
                return true;
            }
            i += 1;
        }
        proof {
            assert forall|c: CrtcHandle| self@.contains_key(c) implies !#[trigger] self@[c] by {
                let j = self.lemma_position(c);
            }
        }
        false
    }
}

} // verus!
