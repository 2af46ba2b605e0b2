//! The paired inbound/outbound buffers that decouple the network transport
//! from per-tick game logic. Each queue is unbounded and FIFO; within a tick
//! exactly one system drains or appends to a given queue.

use vstd::prelude::*;

use crate::proto::{Pack, PackV, packs_view};

verus! {

/// An unbounded FIFO buffer of packs. `push` appends; `pop` drains the whole
/// queue at once, handing the items out in arrival order.
pub struct Queue {
    pub items: Vec<Pack>,
}

impl View for Queue {
    type V = Seq<PackV>;

    open spec fn view(&self) -> Seq<PackV> {
        packs_view(self.items@)
    }
}

impl Queue {
    /// An empty queue.
    pub fn new() -> (r: Queue)
        ensures
            r@ == Seq::<PackV>::empty(),
    {
        let q = Queue { items: Vec::new() };
        assert(q@ =~= Seq::<PackV>::empty());
        q
    }

    /// Append one pack at the back.
    pub fn push(&mut self, p: Pack)
        ensures
            final(self)@ == old(self)@.push(p@),
    {
        let ghost before = self@;
        self.items.push(p);
        assert(self@ =~= before.push(p@));
    }

    /// Remove and return every queued pack, oldest first; the queue is empty
    /// afterwards.
    pub fn pop(&mut self) -> (r: Vec<Pack>)
        ensures
            packs_view(r@) == old(self)@,
            final(self)@ == Seq::<PackV>::empty(),
    {
        let mut drained: Vec<Pack> = Vec::new();
        core::mem::swap(&mut drained, &mut self.items);
        assert(self@ =~= Seq::<PackV>::empty());
        drained
    }

    /// How many packs are waiting.
    pub fn len(&self) -> (r: usize)
        ensures
            r == self@.len(),
    {
        self.items.len()
    }
}

/// The shared resource bridging transport and game logic: `i` holds packs
/// received but not yet consumed, `o` holds packs produced but not yet sent.
pub struct IO {
    pub i: Queue,
    pub o: Queue,
}

impl IO {
    /// A fresh pair of empty queues.
    pub fn new() -> (r: IO)
        ensures
            r.i@ == Seq::<PackV>::empty(),
            r.o@ == Seq::<PackV>::empty(),
    {
        IO { i: Queue::new(), o: Queue::new() }
    }
}

} // verus!
