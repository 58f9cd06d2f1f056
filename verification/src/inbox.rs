//! The priority inbox of a Knot.
//!
//! Packets are kept in arrival order. The next packet served is the one with
//! the highest priority; among packets of equal priority the one that arrived
//! first is served first.

use vstd::prelude::*;
use crate::packet::Packet;

verus! {

/// Index `i` holds the packet served next from `s`: no packet has a higher
/// priority and every earlier packet has a lower one.
pub open spec fn is_next(s: Seq<Packet>, i: int) -> bool {
    &&& 0 <= i < s.len()
    &&& forall|j: int| 0 <= j < s.len() ==> #[trigger] s[j].priority <= s[i].priority
    &&& forall|j: int| 0 <= j < i ==> #[trigger] s[j].priority < s[i].priority
}

/// A priority queue of packets.
pub struct Inbox {
    queue: Vec<Packet>,
}

impl View for Inbox {
    type V = Seq<Packet>;

    /// The queued packets in arrival order.
    closed spec fn view(&self) -> Seq<Packet> {
        self.queue@
    }
}

impl Inbox {
    /// An empty inbox.
    pub fn new() -> (q: Self)
        ensures
            q@ == Seq::<Packet>::empty(),
    {
        Inbox { queue: Vec::new() }
    }

    /// Queues a packet behind everything already queued.
    pub fn push(&mut self, packet: Packet)
        ensures
            final(self)@ == old(self)@.push(packet),
    {
        self.queue.push(packet);
    }

    /// Removes and returns the packet to serve next, or `None` when empty.
    pub fn try_pop(&mut self) -> (r: Option<Packet>)
        ensures
            old(self)@.len() == 0 ==> r is None && final(self)@ == old(self)@,
            old(self)@.len() > 0 ==> exists|i: int| #[trigger] is_next(old(self)@, i)
                && r == Some(old(self)@[i]) && final(self)@ == old(self)@.remove(i),
    {
        if self.queue.len() == 0 {
            return None;
        }
        let mut best: usize = 0;
        let mut i: usize = 1;
        while i < self.queue.len()
            invariant
                0 <= best < i <= self.queue@.len(),
                forall|j: int| 0 <= j < i ==> #[trigger] self.queue@[j].priority <= self.queue@[best as int].priority,
                forall|j: int| 0 <= j < best ==> #[trigger] self.queue@[j].priority < self.queue@[best as int].priority,
            decreases self.queue.len() - i,
        {
            if self.queue[i].priority > self.queue[best].priority {
                best = i;
            }
            i = i + 1;
        }
        proof {
            assert(is_next(self.queue@, best as int));
        }
        let p = self.queue.remove(best);
        Some(p)
    }

    /// Removes and returns the packet to serve next from a non-empty inbox.
    pub fn pop(&mut self) -> (p: Packet)
        requires
            old(self)@.len() > 0,
        ensures
            exists|i: int| #[trigger] is_next(old(self)@, i) && p == old(self)@[i] && final(self)@ == old(self)@.remove(i),
    {
        let r = self.try_pop();
        r.unwrap()
    }

    /// Number of queued packets.
    pub fn len(&self) -> (n: usize)
        ensures
            n == self@.len(),
    {
        self.queue.len()
    }

    /// Returns `true` if no packet is queued.
    pub fn is_empty(&self) -> (b: bool)
        ensures
            b == (self@.len() == 0),
    {
        self.queue.len() == 0
    }
}

/// The packet served next is determined by the queue: at most one index
/// is served next.
pub proof fn law_next_packet_is_unique(s: Seq<Packet>, i: int, k: int)
    requires
        is_next(s, i),
        is_next(s, k),
    ensures
        i == k,
{
    if i < k {
        assert(s[i].priority < s[k].priority);
        assert(s[i].priority >= s[k].priority);
    } else if k < i {
        assert(s[k].priority < s[i].priority);
        assert(s[k].priority >= s[i].priority);
    }
}

/// Packets leave in order: of two packets served one after the other, the
/// first has at least the priority of the second, and when the priorities
/// are equal the first one arrived earlier.
pub proof fn law_served_in_priority_then_arrival_order(s: Seq<Packet>, i1: int, i2: int)
    requires
        is_next(s, i1),
        is_next(s.remove(i1), i2),
    ensures
        s[i1].priority >= s.remove(i1)[i2].priority,
        s[i1].priority == s.remove(i1)[i2].priority ==> i1 <= i2,
{
    let t = s.remove(i1);
    if i2 < i1 {
        assert(t[i2] == s[i2]);
        assert(s[i2].priority < s[i1].priority);
    } else {
        assert(t[i2] == s[i2 + 1]);
        assert(s[i2 + 1].priority <= s[i1].priority);
    }
}

} // verus!
