//! The batch publisher's buffer and its flush policy.
//!
//! Block events are buffered until the consumed block's height has run
//! `threshold` or more past the height of the last flush; at that point the
//! whole buffer, the new event included, is handed back in one batch, the
//! buffer empties, and the flush height moves to the consumed height. The
//! caller publishes the batch; on a failed publish it surfaces the batch
//! verbatim and aborts, so nothing here retries.

use vstd::prelude::*;

use crate::event::BlockEvent;

verus! {

/// The buffered block events and the height bookkeeping of the flush rule.
#[derive(Debug)]
pub struct Batcher {
    pub buffer: Vec<BlockEvent>,
    pub last_flushed_height: u64,
    pub threshold: u64,
}

impl Batcher {
    /// Whether consuming a block at `height` must flush: exactly when the
    /// height span since the last flush reaches the threshold.
    pub open spec fn spec_must_flush(self, height: u64) -> bool {
        height - self.last_flushed_height >= self.threshold
    }

    /// A fresh batcher, its flush height seeded with the initial height of
    /// the cursor.
    pub fn new(start_height: u64, threshold: u64) -> (b: Batcher)
        ensures
            b.buffer@ == Seq::<BlockEvent>::empty(),
            b.last_flushed_height == start_height,
            b.threshold == threshold,
    {
        Batcher { buffer: Vec::new(), last_flushed_height: start_height, threshold }
    }

    /// Buffers one block's events. Exactly when the flush rule fires, the
    /// whole buffer (the new event included, in arrival order) is handed
    /// back, the buffer empties, and the flush height becomes the consumed
    /// height; otherwise nothing is handed back and nothing else changes.
    pub fn consume(&mut self, ev: BlockEvent) -> (flush: Option<Vec<BlockEvent>>)
        requires
            ev.block_height >= old(self).last_flushed_height,
        ensures
            old(self).spec_must_flush(ev.block_height) ==> (flush matches Some(batch)
                && batch@ == old(self).buffer@.push(ev) && final(self).buffer@ == Seq::<
                BlockEvent,
            >::empty() && final(self).last_flushed_height == ev.block_height),
            !old(self).spec_must_flush(ev.block_height) ==> (flush is None && final(self).buffer@
                == old(self).buffer@.push(ev) && final(self).last_flushed_height == old(
                self,
            ).last_flushed_height),
            final(self).threshold == old(self).threshold,
    {
        let height = ev.block_height;
        self.buffer.push(ev);
        if height - self.last_flushed_height >= self.threshold {
            let mut batch: Vec<BlockEvent> = Vec::new();
            core::mem::swap(&mut self.buffer, &mut batch);
            self.last_flushed_height = height;
            Some(batch)
        } else {
            None
        }
    }
}

} // verus!
