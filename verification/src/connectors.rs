//! Sets of connectors.

use vstd::prelude::*;
use crate::handle::ConnectorHandle;

verus! {

/// The first occurrence of each item of `items`, in order.
pub open spec fn first_occurrences(items: Seq<ConnectorHandle>) -> Seq<ConnectorHandle>
    decreases items.len(),
{
    if items.len() == 0 {
        Seq::empty()
    } else {
        let before = first_occurrences(items.drop_last());
        if before.contains(items.last()) {
            before
        } else {
            before.push(items.last())
        }
    }
}

/// `first_occurrences` keeps every item, and each of them once.
pub proof fn lemma_first_occurrences(items: Seq<ConnectorHandle>)
    ensures
        first_occurrences(items).no_duplicates(),
        forall|h: ConnectorHandle|
            #![trigger first_occurrences(items).contains(h)]
            #![trigger items.contains(h)]
            first_occurrences(items).contains(h) <==> items.contains(h),
    decreases items.len(),
{
    if items.len() > 0 {
        let front = items.drop_last();
        let before = first_occurrences(front);
        let now = first_occurrences(items);
        lemma_first_occurrences(front);
        assert forall|h: ConnectorHandle| now.contains(h) <==> items.contains(h) by {
            if now.contains(h) {
                let k = choose|k: int| 0 <= k < now.len() && now[k] == h;
                if k < before.len() {
                    assert(before[k] == h);
                    assert(before.contains(h));
                    let j = choose|j: int| 0 <= j < front.len() && front[j] == h;
                    assert(items[j] == h);
                } else {
                    assert(items[items.len() - 1] == h);
                }
            }
            if items.contains(h) {
                let j = choose|j: int| 0 <= j < items.len() && items[j] == h;
                if j < front.len() {
                    assert(front[j] == h);
                    assert(front.contains(h));
                    let k = choose|k: int| 0 <= k < before.len() && before[k] == h;
                    assert(now[k] == h);
                } else if before.contains(h) {
                } else {
                    assert(now[before.len() as int] == h);
                }
            }
        }
    }
}

/// A set of connectors that remembers the order in which they were added.
#[derive(Debug)]
pub struct ConnectorSet {
    items: Vec<ConnectorHandle>,
}

impl View for ConnectorSet {
    type V = Seq<ConnectorHandle>;

    /// The members, in the order in which they were added.
    closed spec fn view(&self) -> Seq<ConnectorHandle> {
        self.items@
    }
}

impl ConnectorSet {
    /// No connector is held twice. Every set that this module hands out is
    /// well formed.
    pub closed spec fn wf(&self) -> bool {
        self.items@.no_duplicates()
    }

    /// A well-formed set lists no connector twice.
    pub proof fn lemma_wf(&self)
        requires
            self.wf(),
        ensures
            self@.no_duplicates(),
    {
    }

    /// The empty set.
    pub fn new() -> (res: ConnectorSet)
        ensures
            res.wf(),
            res@ == Seq::<ConnectorHandle>::empty(),
    {
        ConnectorSet { items: Vec::new() }
    }

    /// The number of members.
    pub fn len(&self) -> (res: usize)
        ensures
            res == self@.len(),
    {
        self.items.len()
    }

    /// Whether the set has no member.
    pub fn is_empty(&self) -> (res: bool)
        ensures
            res == (self@.len() == 0),
    {
        self.items.len() == 0
    }

    /// The member at position `i`.
    pub fn get(&self, i: usize) -> (res: Option<ConnectorHandle>)
        ensures
            res == if i < self@.len() { Some(self@[i as int]) } else { None },
    {
        if i < self.items.len() {
            Some(self.items[i])
        } else {
            None
        }
    }

    /// Whether `handle` is a member.
    pub fn contains(&self, handle: ConnectorHandle) -> (res: bool)
        ensures
            res == self@.contains(handle),
    {
        let mut i: usize = 0;
        while i < self.items.len()
            invariant
                i <= self.items.len(),
                forall|j: int| 0 <= j < i ==> self.items@[j] != handle,
            decreases self.items.len() - i,
        {
            if self.items[i] == handle {
                return true;
            }
            i += 1;
        }
        false
    }

    /// Adds `handle` behind the other members unless it is one already.
    /// Returns whether it was added.
    pub fn insert(&mut self, handle: ConnectorHandle) -> (added: bool)
        requires
            old(self).wf(),
        ensures
            final(self).wf(),
            added == !old(self)@.contains(handle),
            final(self)@ == if added {
                old(self)@.push(handle)
            } else {
                old(self)@
            },
    {
        if self.contains(handle) {
            false
        } else {
            self.items.push(handle);
            true
        }
    }

    /// The set of the items of `handles`, each at the place of its first
    /// occurrence.
    pub fn from_vec(handles: &Vec<ConnectorHandle>) -> (res: ConnectorSet)
        ensures
            res.wf(),
            res@ == first_occurrences(handles@),
    {
        let mut res = ConnectorSet::new();
        let mut i: usize = 0;
        while i < handles.len()
            invariant
                i <= handles.len(),
                res.wf(),
                res@ == first_occurrences(handles@.take(i as int)),
            decreases handles.len() - i,
        {
            proof {
                assert(handles@.take(i + 1).drop_last() == handles@.take(i as int));
            }
            res.insert(handles[i]);
            i += 1;
        }
        proof {
            assert(handles@.take(i as int) == handles@);
        }
        res
    }

    /// The members, in the order in which they were added.
    pub fn to_vec(&self) -> (res: Vec<ConnectorHandle>)
        ensures
            res@ == self@,
    {
        let mut res: Vec<ConnectorHandle> = Vec::new();
        let mut i: usize = 0;
        while i < self.items.len()
            invariant
                i <= self.items.len(),
                res@ == self.items@.take(i as int),
            decreases self.items.len() - i,
        {
            res.push(self.items[i]);
            proof {
                assert(self.items@.take(i + 1) == self.items@.take(i as int).push(self.items@[i as int]));
            }
            i += 1;
        }
        proof {
            assert(self.items@.take(i as int) == self.items@);
        }
        res
    }
}

impl Clone for ConnectorSet {
    fn clone(&self) -> (res: ConnectorSet)
        ensures
            res@ == self@,
            self.wf() ==> res.wf(),
    {
        ConnectorSet { items: self.to_vec() }
    }
}

} // verus!
