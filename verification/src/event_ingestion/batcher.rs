//! The batching stage.
//!
//! The batcher buffers incoming events until it has at least
//! `min_batch_size` of them or a flush barrier arrives, then forwards one
//! combined message downstream. Order is preserved: the forwarded batch is
//! the buffered events followed by the incoming ones, and a flush barrier
//! always travels with every event received before it.

use vstd::prelude::*;

use crate::event_ingestion::batched_message::BatchedMessage;

verus! {

/// The batching stage's state: what has been received and not yet
/// forwarded.
pub struct Batcher<T> {
    pub min_batch_size: usize,
    pub buffer: Vec<T>,
}

impl<T> Batcher<T> {
    /// A batcher with an empty buffer.
    pub fn new(min_batch_size: usize) -> (r: Batcher<T>)
        ensures
            r.min_batch_size == min_batch_size,
            r.buffer@.len() == 0,
    {
        Batcher { min_batch_size, buffer: Vec::new() }
    }

    /// Feeds one uplink message. Returns the combined message to forward
    /// downstream when the threshold is reached or the message is a flush
    /// barrier; buffers otherwise.
    pub fn push<W>(&mut self, msg: BatchedMessage<T, W>) -> (r: Option<BatchedMessage<T, W>>)
        ensures
            ({
                let combined = old(self).buffer@ + msg.batch@;
                if combined.len() >= old(self).min_batch_size || msg.flush is Some {
                    &&& r matches Some(m)
                    &&& m.batch@ == combined
                    &&& m.flush == msg.flush
                    &&& final(self).buffer@.len() == 0
                } else {
                    &&& r is None
                    &&& final(self).buffer@ == combined
                    &&& msg.flush is None
                }
            }),
            final(self).min_batch_size == old(self).min_batch_size,
    {
        let BatchedMessage { batch: events, flush } = msg;
        let mut events = events;
        self.buffer.append(&mut events);
        let is_flush = flush.is_some();
        if self.buffer.len() >= self.min_batch_size || is_flush {
            let mut out: Vec<T> = Vec::new();
            core::mem::swap(&mut out, &mut self.buffer);
            Some(BatchedMessage { batch: out, flush })
        } else {
            None
        }
    }

    /// The uplink has closed: everything still buffered, as one final
    /// message.
    pub fn finish<W>(self) -> (r: BatchedMessage<T, W>)
        ensures
            r.batch@ == self.buffer@,
            r.flush is None,
    {
        let Batcher { min_batch_size: _, buffer } = self;
        BatchedMessage { batch: buffer, flush: None }
    }
}

} // verus!
