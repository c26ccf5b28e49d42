//! Messages flowing between pipeline stages.

use vstd::prelude::*;

verus! {

/// A batch of data that may double as a flush barrier. `flush` is `None`
/// for an ordinary batch; `Some` carries the watchers to notify once
/// everything up to and including this batch has been delivered or has
/// terminally failed.
#[derive(Debug)]
pub struct BatchedMessage<T, W> {
    pub batch: Vec<T>,
    pub flush: Option<Vec<W>>,
}

impl<T, W> BatchedMessage<T, W> {
    /// A new empty message.
    pub fn empty() -> (r: BatchedMessage<T, W>)
        ensures
            r.batch@.len() == 0,
            r.flush is None,
    {
        BatchedMessage { batch: Vec::new(), flush: None }
    }

    /// A message with the given batch and watchers.
    pub fn new(batch: Vec<T>, flush: Option<Vec<W>>) -> (r: BatchedMessage<T, W>)
        ensures
            r.batch == batch,
            r.flush == flush,
    {
        BatchedMessage { batch, flush }
    }

    /// A message carrying one element.
    pub fn singleton(element: T) -> (r: BatchedMessage<T, W>)
        ensures
            r.batch@.len() == 1,
            r.batch@[0] == element,
            r.flush is None,
    {
        let mut batch = Vec::new();
        batch.push(element);
        BatchedMessage { batch, flush: None }
    }

    /// Whether this message is a flush barrier.
    pub fn requires_flush(&self) -> (r: bool)
        ensures
            r == (self.flush is Some),
    {
        self.flush.is_some()
    }

    /// Marks the message as fully processed, handing back the watchers to
    /// notify.
    pub fn flushed(self) -> (r: Option<Vec<W>>)
        ensures
            r == self.flush,
    {
        self.flush
    }
}

} // verus!
