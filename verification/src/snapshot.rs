//! The wiring that a device had when it was opened.

use vstd::prelude::*;
use crate::catalogue::{Catalogue, CrtcInfo};
use crate::error::Error;
use crate::handle::{ConnectorHandle, CrtcHandle};
use crate::lookup::{
    first_position,
    first_some,
    lemma_first_position,
    lemma_first_position_none,
    lemma_first_position_unique,
    lemma_first_some_at,
    lemma_first_some_none,
};

verus! {

/// How one CRTC was wired: its configuration and the connectors that it
/// drove, in the order in which they were found.
#[derive(Debug)]
pub struct SnapshotEntry {
    pub crtc: CrtcHandle,
    pub info: CrtcInfo,
    pub connectors: Vec<ConnectorHandle>,
}

/// A `SnapshotEntry` as plain values.
pub struct Wiring {
    pub crtc: CrtcHandle,
    pub info: CrtcInfo,
    pub connectors: Seq<ConnectorHandle>,
}

impl View for SnapshotEntry {
    type V = Wiring;

    open spec fn view(&self) -> Wiring {
        Wiring { crtc: self.crtc, info: self.info, connectors: self.connectors@ }
    }
}

/// The entries of `entries` as plain values.
pub open spec fn wirings(entries: Seq<SnapshotEntry>) -> Seq<Wiring> {
    entries.map_values(|e: SnapshotEntry| e@)
}

/// The CRTCs of `entries`, in order.
pub open spec fn wired_crtcs(entries: Seq<Wiring>) -> Seq<CrtcHandle> {
    entries.map_values(|w: Wiring| w.crtc)
}

/// `entries` after it was noted that `crtc` drives `connector`: the
/// connector joins the entry of the CRTC, or starts one with `info` if the
/// CRTC has none yet.
pub open spec fn recorded(
    entries: Seq<Wiring>,
    crtc: CrtcHandle,
    info: CrtcInfo,
    connector: ConnectorHandle,
) -> Seq<Wiring> {
    match first_position(wired_crtcs(entries), crtc) {
        Some(i) => entries.update(
            i,
            Wiring { crtc, info: entries[i].info, connectors: entries[i].connectors.push(connector) },
        ),
        None => entries.push(Wiring { crtc, info, connectors: seq![connector] }),
    }
}

/// The wiring of `connectors` as `catalogue` shows it: the connectors are
/// taken in order, and each one that is driven is recorded under its CRTC.
pub open spec fn captured(catalogue: &Catalogue, connectors: Seq<ConnectorHandle>) -> Seq<Wiring>
    decreases connectors.len(),
{
    if connectors.len() == 0 {
        Seq::empty()
    } else {
        let before = captured(catalogue, connectors.drop_last());
        match catalogue.spec_wired(connectors.last()) {
            Some((crtc, info)) => recorded(before, crtc, info, connectors.last()),
            None => before,
        }
    }
}

/// The failure of the first of `connectors` that cannot be followed to its
/// CRTC.
pub open spec fn capture_failure(catalogue: &Catalogue, connectors: Seq<ConnectorHandle>) -> Option<
    Error,
> {
    first_some(connectors, |c: ConnectorHandle| catalogue.spec_probe_failure(c))
}

/// Those of `connectors` that `crtc` drives, in order.
pub open spec fn driven_connectors(
    catalogue: &Catalogue,
    connectors: Seq<ConnectorHandle>,
    crtc: CrtcHandle,
) -> Seq<ConnectorHandle>
    decreases connectors.len(),
{
    if connectors.len() == 0 {
        Seq::empty()
    } else {
        let before = driven_connectors(catalogue, connectors.drop_last(), crtc);
        match catalogue.spec_wired(connectors.last()) {
            Some((c, info)) => if c == crtc {
                before.push(connectors.last())
            } else {
                before
            },
            None => before,
        }
    }
}

/// The connectors that a CRTC drives are among the connectors asked about,
/// and where none of those stands twice, none of the driven ones does.
pub proof fn lemma_driven_connectors(
    catalogue: &Catalogue,
    connectors: Seq<ConnectorHandle>,
    crtc: CrtcHandle,
)
    ensures
        forall|h: ConnectorHandle|
            #![trigger driven_connectors(catalogue, connectors, crtc).contains(h)]
            driven_connectors(catalogue, connectors, crtc).contains(h) ==> connectors.contains(h),
        connectors.no_duplicates() ==> driven_connectors(catalogue, connectors, crtc).no_duplicates(),
    decreases connectors.len(),
{
    if connectors.len() > 0 {
        let front = connectors.drop_last();
        let last = connectors.last();
        let before = driven_connectors(catalogue, front, crtc);
        let now = driven_connectors(catalogue, connectors, crtc);
        lemma_driven_connectors(catalogue, front, crtc);
        assert forall|h: ConnectorHandle| now.contains(h) implies connectors.contains(h) by {
            let k = choose|k: int| 0 <= k < now.len() && now[k] == h;
            if k < before.len() {
                assert(before[k] == h);
                assert(before.contains(h));
                let j = choose|j: int| 0 <= j < front.len() && front[j] == h;
                assert(connectors[j] == h);
            } else {
                assert(connectors[connectors.len() - 1] == h);
            }
        }
        if connectors.no_duplicates() {
            assert forall|a: int, b: int| 0 <= a < front.len() && 0 <= b < front.len() && a
                != b implies front[a] != front[b] by {
                assert(front[a] == connectors[a] && front[b] == connectors[b]);
            }
            assert(before.no_duplicates());
            if now.len() > before.len() {
                assert forall|a: int, b: int| 0 <= a < now.len() && 0 <= b < now.len() && a
                    != b implies now[a] != now[b] by {
                    let n = before.len() as int;
                    if a < n && b < n {
                        assert(now[a] == before[a] && now[b] == before[b]);
                    } else {
                        let small = if a < n { a } else { b };
                        assert(now[small] == before[small]);
                        assert(before.contains(before[small]));
                        let j = choose|j: int| 0 <= j < front.len() && front[j] == before[small];
                        assert(connectors[j] == before[small]);
                        assert(connectors[connectors.len() - 1] == last);
                    }
                }
            }
        }
    }
}

/// Recording keeps the CRTCs of the entries distinct.
proof fn lemma_recorded_distinct(
    entries: Seq<Wiring>,
    crtc: CrtcHandle,
    info: CrtcInfo,
    connector: ConnectorHandle,
)
    requires
        wired_crtcs(entries).no_duplicates(),
    ensures
        wired_crtcs(recorded(entries, crtc, info, connector)).no_duplicates(),
{
    let keys = wired_crtcs(entries);
    let after = wired_crtcs(recorded(entries, crtc, info, connector));
    lemma_first_position(keys, crtc);
    match first_position(keys, crtc) {
        Some(i) => {
            assert(after =~= keys);
        },
        None => {
            assert(after =~= keys.push(crtc));
        },
    }
}

/// The captured wiring is the wiring that the catalogue shows: no CRTC has
/// two entries; a CRTC has an entry exactly if it drives one of the
/// connectors; and the entry of a CRTC holds the configuration of that CRTC
/// and the connectors that it drives, in order.
pub proof fn lemma_captured_is_wiring(catalogue: &Catalogue, connectors: Seq<ConnectorHandle>)
    ensures
        wired_crtcs(captured(catalogue, connectors)).no_duplicates(),
        forall|c: CrtcHandle|
            #![trigger wired_crtcs(captured(catalogue, connectors)).contains(c)]
            #![trigger driven_connectors(catalogue, connectors, c)]
            wired_crtcs(captured(catalogue, connectors)).contains(c) <==> driven_connectors(
                catalogue,
                connectors,
                c,
            ).len() > 0,
        forall|i: int|
            #![trigger captured(catalogue, connectors)[i]]
            0 <= i < captured(catalogue, connectors).len() ==> {
                let w = captured(catalogue, connectors)[i];
                &&& w.connectors == driven_connectors(catalogue, connectors, w.crtc)
                &&& catalogue.spec_crtc_info(w.crtc) == Some(w.info)
            },
    decreases connectors.len(),
{
    if connectors.len() > 0 {
        let front = connectors.drop_last();
        let last = connectors.last();
        let before = captured(catalogue, front);
        let now = captured(catalogue, connectors);
        let keys = wired_crtcs(before);
        lemma_captured_is_wiring(catalogue, front);
        match catalogue.spec_wired(last) {
            Some((crtc, info)) => {
                lemma_recorded_distinct(before, crtc, info, last);
                lemma_first_position(keys, crtc);
                match first_position(keys, crtc) {
                    Some(p) => {
                        assert(wired_crtcs(now) =~= keys);
                        assert(keys[p] == crtc);
                        assert(keys.contains(crtc));
                        assert forall|i: int| 0 <= i < now.len() implies ({
                            let w = #[trigger] now[i];
                            &&& w.connectors == driven_connectors(catalogue, connectors, w.crtc)
                            &&& catalogue.spec_crtc_info(w.crtc) == Some(w.info)
                        }) by {
                            let b = before[i];
                            if i != p {
                                assert(keys[i] == b.crtc);
                                assert(b.crtc != crtc);
                            }
                        }
                    },
                    None => {
                        assert(wired_crtcs(now) =~= keys.push(crtc));
                        assert(wired_crtcs(now)[keys.len() as int] == crtc);
                        assert(!keys.contains(crtc));
                        assert(driven_connectors(catalogue, front, crtc).len() == 0);
                        assert forall|i: int| 0 <= i < now.len() implies ({
                            let w = #[trigger] now[i];
                            &&& w.connectors == driven_connectors(catalogue, connectors, w.crtc)
                            &&& catalogue.spec_crtc_info(w.crtc) == Some(w.info)
                        }) by {
                            if i < before.len() {
                                let b = before[i];
                                assert(keys[i] == b.crtc);
                            } else {
                                assert(now[i].connectors =~= driven_connectors(
                                    catalogue,
                                    connectors,
                                    crtc,
                                ));
                            }
                        }
                    },
                }
                assert forall|c: CrtcHandle| wired_crtcs(now).contains(c) <==> driven_connectors(
                    catalogue,
                    connectors,
                    c,
                ).len() > 0 by {
                    if c != crtc {
                        if wired_crtcs(now).contains(c) {
                            let k = choose|k: int|
                                0 <= k < wired_crtcs(now).len() && wired_crtcs(now)[k] == c;
                            assert(keys[k] == c);
                            assert(keys.contains(c));
                        }
                        if keys.contains(c) {
                            let k = choose|k: int| 0 <= k < keys.len() && keys[k] == c;
                            assert(wired_crtcs(now)[k] == c);
                        }
                    } else {
                        if keys.contains(c) {
                            let k = choose|k: int| 0 <= k < keys.len() && keys[k] == c;
                            assert(wired_crtcs(now)[k] == c);
                        }
                    }
                }
            },
            None => {},
        }
    }
}

/// The wiring of the hardware after `entries` were put back onto `hardware`,
/// one after the other: each entry makes its CRTC drive its connectors.
pub open spec fn replayed(
    entries: Seq<Wiring>,
    hardware: Map<CrtcHandle, Seq<ConnectorHandle>>,
) -> Map<CrtcHandle, Seq<ConnectorHandle>>
    decreases entries.len(),
{
    if entries.len() == 0 {
        hardware
    } else {
        replayed(entries.drop_last(), hardware).insert(entries.last().crtc, entries.last().connectors)
    }
}

/// Putting entries back gives each of their CRTCs the connectors of its
/// entry and leaves every other CRTC as it was, provided that no CRTC has
/// two entries.
pub proof fn lemma_replayed(entries: Seq<Wiring>, hardware: Map<CrtcHandle, Seq<ConnectorHandle>>)
    requires
        wired_crtcs(entries).no_duplicates(),
    ensures
        forall|i: int|
            #![trigger entries[i]]
            0 <= i < entries.len() ==> replayed(entries, hardware).contains_key(entries[i].crtc)
                && replayed(entries, hardware)[entries[i].crtc] == entries[i].connectors,
        forall|c: CrtcHandle|
            #![trigger replayed(entries, hardware).contains_key(c)]
            #![trigger replayed(entries, hardware)[c]]
            !wired_crtcs(entries).contains(c) ==> (replayed(entries, hardware).contains_key(c)
                <==> hardware.contains_key(c)) && replayed(entries, hardware)[c] == hardware[c],
    decreases entries.len(),
{
    if entries.len() > 0 {
        let front = entries.drop_last();
        let last = entries.last();
        let keys = wired_crtcs(entries);
        assert(wired_crtcs(front) =~= keys.drop_last());
        lemma_replayed(front, hardware);
        assert forall|i: int| 0 <= i < entries.len() implies replayed(
            entries,
            hardware,
        ).contains_key((#[trigger] entries[i]).crtc) && replayed(entries, hardware)[entries[i].crtc]
            == entries[i].connectors by {
            if i < front.len() {
                assert(front[i] == entries[i]);
                assert(keys[i] == entries[i].crtc);
                assert(keys[entries.len() - 1] == last.crtc);
            }
        }
        assert forall|c: CrtcHandle| !keys.contains(c) implies (replayed(
            entries,
            hardware,
        ).contains_key(c) <==> hardware.contains_key(c)) && replayed(entries, hardware)[c]
            == hardware[c] by {
            assert(keys[entries.len() - 1] == last.crtc);
            if wired_crtcs(front).contains(c) {
                let k = choose|k: int| 0 <= k < front.len() && wired_crtcs(front)[k] == c;
                assert(keys[k] == c);
            }
            assert(replayed(front, hardware).contains_key(c) <==> hardware.contains_key(c));
            assert(replayed(front, hardware)[c] == hardware[c]);
        }
    }
}

/// The wiring that a device had when it was opened, kept to put it back when
/// the device goes away.
#[derive(Debug)]
pub struct HardwareSnapshot {
    entries: Vec<SnapshotEntry>,
}

impl View for HardwareSnapshot {
    type V = Seq<Wiring>;

    /// The entries, in the order in which their CRTCs were first seen.
    closed spec fn view(&self) -> Seq<Wiring> {
        wirings(self.entries@)
    }
}

impl HardwareSnapshot {
    /// No CRTC has two entries.
    pub closed spec fn wf(&self) -> bool {
        wired_crtcs(self@).no_duplicates()
    }

    /// A well-formed snapshot lists no CRTC twice.
    pub proof fn lemma_wf(&self)
        requires
            self.wf(),
        ensures
            wired_crtcs(self@).no_duplicates(),
    {
    }

    /// The snapshot without entries.
    pub fn new() -> (res: HardwareSnapshot)
        ensures
            res.wf(),
            res@ == Seq::<Wiring>::empty(),
    {
        let res = HardwareSnapshot { entries: Vec::new() };
        assert(res@ =~= Seq::<Wiring>::empty());
        res
    }

    /// The number of entries.
    pub fn len(&self) -> (res: usize)
        ensures
            res == self@.len(),
    {
        self.entries.len()
    }

    /// The entry at position `i`.
    pub fn get(&self, i: usize) -> (res: Option<&SnapshotEntry>)
        ensures
            match res {
                Some(e) => i < self@.len() && e@ == self@[i as int],
                None => i >= self@.len(),
            },
    {
        if i < self.entries.len() {
            Some(&self.entries[i])
        } else {
            None
        }
    }

    /// Notes that `crtc`, configured as `info`, drives `connector`.
    pub fn record(&mut self, crtc: CrtcHandle, info: CrtcInfo, connector: ConnectorHandle)
        requires
            old(self).wf(),
        ensures
            final(self).wf(),
            final(self)@ == recorded(old(self)@, crtc, info, connector),
    {
        let ghost before = self@;
        let ghost keys = wired_crtcs(before);
        proof {
            lemma_recorded_distinct(before, crtc, info, connector);
        }
        let mut i: usize = 0;
        while i < self.entries.len()
            invariant
                i <= self.entries.len(),
                self@ == before,
                before == old(self)@,
                keys == wired_crtcs(before),
                keys.no_duplicates(),
                wired_crtcs(recorded(before, crtc, info, connector)).no_duplicates(),
                forall|j: int| 0 <= j < i ==> keys[j] != crtc,
            decreases self.entries.len() - i,
        {
            if self.entries[i].crtc == crtc {
                proof {
                    assert(keys[i as int] == crtc);
                    lemma_first_position_unique(keys, crtc, i as int);
                }
                let mut entry = self.entries.remove(i);
                entry.connectors.push(connector);
                self.entries.insert(i, entry);
                assert(self@ =~= recorded(before, crtc, info, connector));
                return ;
            }
            i += 1;
        }
        proof {
            lemma_first_position_none(keys, crtc);
        }
        let mut connectors: Vec<ConnectorHandle> = Vec::new();
        connectors.push(connector);
        self.entries.push(SnapshotEntry { crtc, info, connectors });
        assert(self@ =~= recorded(before, crtc, info, connector));
    }

    /// Captures the wiring of `connectors` as `catalogue` shows it.
    ///
    /// Fails with the failure of the first connector that cannot be followed
    /// to its CRTC.
    pub fn capture(catalogue: &Catalogue, connectors: &Vec<ConnectorHandle>) -> (res: Result<
        HardwareSnapshot,
        Error,
    >)
        ensures
            match res {
                Ok(snapshot) => {
                    &&& capture_failure(catalogue, connectors@) is None
                    &&& snapshot.wf()
                    &&& snapshot@ == captured(catalogue, connectors@)
                },
                Err(e) => capture_failure(catalogue, connectors@) == Some(e),
            },
    {
        let ghost f = |c: ConnectorHandle| catalogue.spec_probe_failure(c);
        let mut snapshot = HardwareSnapshot::new();
        let mut i: usize = 0;
        while i < connectors.len()
            invariant
                i <= connectors.len(),
                snapshot.wf(),
                snapshot@ == captured(catalogue, connectors@.take(i as int)),
                f == |c: ConnectorHandle| catalogue.spec_probe_failure(c),
                forall|j: int| 0 <= j < i ==> #[trigger] f(connectors@[j]) is None,
            decreases connectors.len() - i,
        {
            proof {
                assert(connectors@.take(i + 1).drop_last() == connectors@.take(i as int));
            }
            match catalogue.probe(connectors[i]) {
                Ok(Some((crtc, info))) => {
                    snapshot.record(crtc, info, connectors[i]);
                },
                Ok(None) => {},
                Err(e) => {
                    proof {
                        lemma_first_some_at(connectors@, f, i as int);
                    }
                    return Err(e);
                },
            }
            i += 1;
        }
        proof {
            assert(connectors@.take(i as int) == connectors@);
            lemma_first_some_none(connectors@, f);
        }
        Ok(snapshot)
    }

    /// Hands out all entries, in order, and leaves the snapshot empty.
    pub fn drain(&mut self) -> (res: Vec<SnapshotEntry>)
        ensures
            final(self).wf(),
            final(self)@ == Seq::<Wiring>::empty(),
            wirings(res@) == old(self)@,
    {
        let mut res: Vec<SnapshotEntry> = Vec::new();
        std::mem::swap(&mut res, &mut self.entries);
        assert(self@ =~= Seq::<Wiring>::empty());
        res
    }
}

} // verus!
