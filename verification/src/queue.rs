//! The bounded segment queue bridging the fetching and the playing side.
//!
//! A fixed-capacity FIFO of segment byte buffers. The producer's push is
//! refused while the queue is full — the caller waits and retries, which is
//! what couples the fetch rate to the consumption rate (backpressure). The
//! consumer pops buffers in the exact order they were pushed, and discards
//! everything queued when a restart command arrives, so that no
//! stale-channel audio plays.

use std::collections::VecDeque;

use vstd::prelude::*;

verus! {

/// A fixed-capacity FIFO handoff of segment byte buffers.
pub struct BoundedSegmentQueue {
    items: VecDeque<Vec<u8>>,
    cap: usize,
}

impl BoundedSegmentQueue {
    /// The byte buffers currently queued, oldest first.
    pub closed spec fn contents(&self) -> Seq<Seq<u8>> {
        self.items@.map_values(|b: Vec<u8>| b@)
    }

    /// The fixed capacity the queue was created with.
    pub closed spec fn capacity(&self) -> usize {
        self.cap
    }

    /// The queue never holds more buffers than its capacity.
    pub open spec fn wf(&self) -> bool {
        self.contents().len() <= self.capacity()
    }

    /// An empty queue of the configured capacity.
    pub fn new(capacity: usize) -> (q: BoundedSegmentQueue)
        ensures
            q.contents() == Seq::<Seq<u8>>::empty(),
            q.capacity() == capacity,
            q.wf(),
    {
        let q = BoundedSegmentQueue { items: VecDeque::new(), cap: capacity };
        proof {
            assert(q.contents() =~= Seq::<Seq<u8>>::empty());
        }
        q
    }

    /// How many buffers are queued.
    pub fn len(&self) -> (n: usize)
        ensures
            n == self.contents().len(),
    {
        self.items.len()
    }

    /// Offer a buffer to the queue. The backpressure law: the buffer is
    /// accepted at the back if and only if the queue is not full; a full
    /// queue refuses it unchanged and hands it back, and the producer must
    /// wait until the consumer has popped before offering it again.
    pub fn push(&mut self, item: Vec<u8>) -> (r: Result<(), Vec<u8>>)
        requires
            old(self).wf(),
        ensures
            final(self).capacity() == old(self).capacity(),
            final(self).wf(),
            (match r {
                Ok(()) => old(self).contents().len() < old(self).capacity()
                    && final(self).contents() == old(self).contents().push(item@),
                Err(back) => old(self).contents().len() == old(self).capacity()
                    && back == item && final(self).contents() == old(self).contents(),
            }),
    {
        if self.items.len() < self.cap {
            let ghost pre = self.contents();
            let ghost iv = item@;
            self.items.push_back(item);
            proof {
                assert(self.contents() =~= pre.push(iv));
            }
            Ok(())
        } else {
            Err(item)
        }
    }

    /// Take the oldest buffer, if any: strict first-in-first-out order.
    pub fn pop(&mut self) -> (r: Option<Vec<u8>>)
        requires
            old(self).wf(),
        ensures
            final(self).capacity() == old(self).capacity(),
            final(self).wf(),
            (match r {
                Some(b) => old(self).contents().len() > 0 && b@ == old(self).contents()[0]
                    && final(self).contents() == old(self).contents().drop_first(),
                None => old(self).contents().len() == 0
                    && final(self).contents() == old(self).contents(),
            }),
    {
        let ghost pre = self.contents();
        let r = self.items.pop_front();
        proof {
            if pre.len() > 0 {
                assert(self.contents() =~= pre.drop_first());
            } else {
                assert(self.contents() =~= pre);
            }
        }
        r
    }

    /// Discard every queued buffer: the consumer's reaction to a restart
    /// command, so that none of the stale channel's segments is ever played.
    pub fn flush(&mut self)
        ensures
            final(self).capacity() == old(self).capacity(),
            final(self).contents() == Seq::<Seq<u8>>::empty(),
            final(self).wf(),
    {
        self.items.clear();
        proof {
            assert(self.contents() =~= Seq::<Seq<u8>>::empty());
        }
    }
}

/// The contents after pushing `items` onto `contents` one by one, oldest
/// first, as [`BoundedSegmentQueue::push`] appends them.
pub open spec fn pushed_all(contents: Seq<Seq<u8>>, items: Seq<Seq<u8>>) -> Seq<Seq<u8>>
    decreases items.len(),
{
    if items.len() == 0 {
        contents
    } else {
        pushed_all(contents.push(items[0]), items.drop_first())
    }
}

/// The buffers that popping a queue dry delivers, in order, as
/// [`BoundedSegmentQueue::pop`] takes them from the front.
pub open spec fn popped_all(contents: Seq<Seq<u8>>) -> Seq<Seq<u8>>
    decreases contents.len(),
{
    if contents.len() == 0 {
        Seq::empty()
    } else {
        seq![contents[0]] + popped_all(contents.drop_first())
    }
}

proof fn lemma_pushed_all_appends(contents: Seq<Seq<u8>>, items: Seq<Seq<u8>>)
    ensures
        pushed_all(contents, items) == contents + items,
    decreases items.len(),
{
    if items.len() == 0 {
        assert(contents + items =~= contents);
    } else {
        lemma_pushed_all_appends(contents.push(items[0]), items.drop_first());
        assert(contents.push(items[0]) + items.drop_first() =~= contents + items);
    }
}

/// The channel-switch ordering law. A restart command makes the consumer
/// flush, which leaves the queue empty ([`BoundedSegmentQueue::flush`]), so
/// none of the buffers queued at that moment is ever delivered; and the
/// segments pushed after the flush are delivered exactly in their push
/// order: pushing `later` onto the flushed queue and then popping it dry
/// yields `later` itself.
pub proof fn lemma_switch_ordering(later: Seq<Seq<u8>>)
    ensures
        pushed_all(Seq::<Seq<u8>>::empty(), later) == later,
        popped_all(later) == later,
{
    lemma_pushed_all_appends(Seq::<Seq<u8>>::empty(), later);
    assert(Seq::<Seq<u8>>::empty() + later =~= later);
    lemma_popped_all_id(later);
}

proof fn lemma_popped_all_id(contents: Seq<Seq<u8>>)
    ensures
        popped_all(contents) == contents,
    decreases contents.len(),
{
    if contents.len() == 0 {
        assert(popped_all(contents) =~= contents);
    } else {
        lemma_popped_all_id(contents.drop_first());
        assert(seq![contents[0]] + contents.drop_first() =~= contents);
    }
}

} // verus!
