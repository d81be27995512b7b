//! The delivery queue of one bus subscriber: bounded, first in first out,
//! and lossy from the old end so that publishing never waits.
use vstd::prelude::*;
use std::collections::VecDeque;

verus! {

/// The messages of `q`, as character sequences.
pub open spec fn texts(q: Seq<String>) -> Seq<Seq<char>> {
    q.map_values(|s: String| s@)
}

/// The queue after `msg` is offered to `q` with room for `cap` messages:
/// when it is full, its oldest message is dropped first.
pub open spec fn offered(q: Seq<Seq<char>>, cap: nat, msg: Seq<char>) -> Seq<Seq<char>> {
    if q.len() >= cap {
        q.subrange(1, q.len() as int).push(msg)
    } else {
        q.push(msg)
    }
}

pub struct EventQueue {
    items: VecDeque<String>,
    capacity: usize,
}

impl EventQueue {
    pub closed spec fn view(&self) -> Seq<Seq<char>> {
        texts(self.items@)
    }

    pub closed spec fn cap(&self) -> nat {
        self.capacity as nat
    }

    pub open spec fn wf(&self) -> bool {
        0 < self.cap() && self.view().len() <= self.cap()
    }

    /// An empty queue with room for `capacity` messages.
    pub fn new(capacity: usize) -> (r: EventQueue)
        requires
            capacity > 0,
        ensures
            r.wf(),
            r.view() == Seq::<Seq<char>>::empty(),
            r.cap() == capacity,
    {
        let r = EventQueue { items: VecDeque::new(), capacity };
        assert(r.view() =~= Seq::<Seq<char>>::empty());
        r
    }

    pub fn len(&self) -> (r: usize)
        ensures
            r == self.view().len(),
    {
        self.items.len()
    }

    /// Appends `msg`; returns whether the oldest message was dropped to make room.
    pub fn push(&mut self, msg: String) -> (dropped: bool)
        requires
            old(self).wf(),
        ensures
            final(self).wf(),
            final(self).cap() == old(self).cap(),
            dropped == (old(self).view().len() >= old(self).cap()),
            final(self).view() == offered(old(self).view(), old(self).cap(), msg@),
    {
        let ghost q = self.items@;
        let dropped = self.items.len() >= self.capacity;
        if dropped {
            let _ = self.items.pop_front();
            assert(texts(self.items@) =~= texts(q).subrange(1, q.len() as int));
        }
        let ghost mid = self.items@;
        self.items.push_back(msg);
        assert(texts(self.items@) =~= texts(mid).push(msg@));
        dropped
    }

    /// Takes the oldest message.
    pub fn pop(&mut self) -> (r: Option<String>)
        requires
            old(self).wf(),
        ensures
            final(self).wf(),
            final(self).cap() == old(self).cap(),
            old(self).view().len() == 0 ==> r is None && final(self).view() == old(self).view(),
            old(self).view().len() > 0 ==> (r matches Some(m) && m@ == old(self).view()[0])
                && final(self).view() == old(self).view().subrange(1, old(self).view().len() as int),
    {
        let ghost q = self.items@;
        let r = self.items.pop_front();
        proof {
            if q.len() > 0 {
                assert(texts(self.items@) =~= texts(q).subrange(1, q.len() as int));
            }
        }
        r
    }
}

} // verus!
