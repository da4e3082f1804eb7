//! The channel between the capture side and the consumer side, modeled as
//! an unbounded FIFO queue of PCM blocks.
//!
//! Besides the pending blocks themselves, the queue carries ghost logs of
//! everything ever sent and everything ever received, so the ordering
//! guarantee of the channel — the consumer sees blocks in exactly the order
//! the capture side produced them — is stated and proved once and for all.

use vstd::prelude::*;

verus! {

/// An ordered, unbounded queue of PCM blocks. Insertion order is preserved;
/// there is no reordering, no deduplication, no priority.
pub struct BlockQueue {
    pending: Vec<Vec<u8>>,
    sent: Ghost<Seq<Seq<u8>>>,
    received: Ghost<Seq<Seq<u8>>>,
}

impl BlockQueue {
    /// Every block ever sent, in production order.
    pub closed spec fn sent(self) -> Seq<Seq<u8>> {
        self.sent@
    }

    /// Every block ever received, in consumption order.
    pub closed spec fn received(self) -> Seq<Seq<u8>> {
        self.received@
    }

    /// The blocks sent but not yet received, oldest first.
    pub closed spec fn pending(self) -> Seq<Seq<u8>> {
        self.pending@.map_values(|block: Vec<u8>| block@)
    }

    /// What was sent is what was received followed by what is pending.
    pub open spec fn wf(self) -> bool {
        self.sent() == self.received() + self.pending()
    }

    pub fn new() -> (queue: Self)
        ensures
            queue.wf(),
            queue.sent() == Seq::<Seq<u8>>::empty(),
            queue.received() == Seq::<Seq<u8>>::empty(),
            queue.pending() == Seq::<Seq<u8>>::empty(),
    {
        let queue = BlockQueue {
            pending: Vec::new(),
            sent: Ghost(Seq::empty()),
            received: Ghost(Seq::empty()),
        };
        proof {
            assert(queue.pending() =~= Seq::<Seq<u8>>::empty());
            assert(queue.sent() =~= queue.received() + queue.pending());
        }
        queue
    }

    /// The capture side appends one block at the tail.
    pub fn send(&mut self, block: Vec<u8>)
        requires
            old(self).wf(),
        ensures
            final(self).wf(),
            final(self).sent() == old(self).sent().push(block@),
            final(self).received() == old(self).received(),
            final(self).pending() == old(self).pending().push(block@),
    {
        let ghost b = block@;
        self.pending.push(block);
        proof {
            self.sent@ = self.sent@.push(b);
            assert(self.pending() =~= old(self).pending().push(b));
            assert(self.sent() =~= self.received() + self.pending());
        }
    }

    /// The consumer takes the oldest pending block, or learns that the
    /// queue is currently empty.
    pub fn recv(&mut self) -> (block: Option<Vec<u8>>)
        requires
            old(self).wf(),
        ensures
            final(self).wf(),
            final(self).sent() == old(self).sent(),
            old(self).pending().len() == 0 ==> block is None && final(self)@ == old(self)@
                && final(self).received() == old(self).received()
                && final(self).pending() == old(self).pending(),
            old(self).pending().len() > 0 ==> ({
                &&& block matches Some(b) && b@ == old(self).pending()[0]
                &&& final(self).received() == old(self).received().push(
                    old(self).pending()[0],
                )
                &&& final(self).pending() == old(self).pending().drop_first()
            }),
    {
        if self.pending.len() == 0 {
            return None;
        }
        let block = self.pending.remove(0);
        proof {
            self.received@ = self.received@.push(block@);
            assert(self.pending() =~= old(self).pending().drop_first());
            assert(self.sent() =~= self.received() + self.pending());
        }
        Some(block)
    }

    /// How many blocks are pending.
    pub fn len(&self) -> (n: usize)
        ensures
            n == self.pending().len(),
    {
        self.pending.len()
    }

    /// Law: the channel is FIFO. In any reachable queue state, the blocks
    /// received so far are exactly the first blocks sent, in exactly the
    /// order they were sent — however the sends and receives interleaved,
    /// and however long the consumer took between receives.
    pub proof fn lemma_fifo(queue: BlockQueue)
        requires
            queue.wf(),
        ensures
            queue.received().len() <= queue.sent().len(),
            queue.received() == queue.sent().take(queue.received().len() as int),
    {
        assert(queue.received() =~= queue.sent().take(queue.received().len() as int));
    }
}

impl View for BlockQueue {
    type V = Seq<Seq<u8>>;

    /// A queue is viewed as its pending blocks, oldest first.
    closed spec fn view(&self) -> Seq<Seq<u8>> {
        self.pending()
    }
}

} // verus!
