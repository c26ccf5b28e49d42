//! A bounded in-memory event queue.
//!
//! Pending and failed events wait in two FIFO queues. Pushing respects the
//! queue-size bound and refuses duplicates; batches leave in insertion
//! order; failed events re-enter the failed queue with their attempt count
//! bumped until the retry budget is spent, after which they are dropped.

use vstd::prelude::*;

use crate::event_ingestion::queued_event::{bumped, QueuedEvent, QueuedEventStatus};
use crate::text::str_eq;

verus! {

// batch size of zero means each flush delivers individually, effectively
// disabling batching
pub const MIN_BATCH_SIZE: usize = 0;

pub const MAX_BATCH_SIZE: usize = 10_000;

/// Sizing and retry knobs of the queue.
#[derive(Debug, Clone, PartialEq)]
pub struct VecEventQueueConfig {
    pub batch_size: usize,
    pub max_queue_size: usize,
    pub max_retries: u8,
}

/// Why an event was not queued.
#[derive(Debug, Clone, Copy, PartialEq, Eq, Structural)]
pub enum QueueError {
    /// The queue holds `max_queue_size` events already.
    QueueFull,
    /// The same event is already queued.
    DuplicateEvent,
}

/// Two queued events carry the same content.
pub open spec fn queued_event_eq(a: QueuedEvent, b: QueuedEvent) -> bool {
    &&& a.event.uuid == b.event.uuid
    &&& a.event.timestamp == b.event.timestamp
    &&& a.event.event_type@ == b.event.event_type@
    &&& a.event.payload@ == b.event.payload@
    &&& a.attempts == b.attempts
    &&& a.status == b.status
}

/// Whether an equal event is already in the queue.
pub open spec fn has_duplicate(q: Seq<QueuedEvent>, e: QueuedEvent) -> bool {
    exists|i: int| 0 <= i < q.len() && queued_event_eq(#[trigger] q[i], e)
}

fn events_equal(a: &QueuedEvent, b: &QueuedEvent) -> (r: bool)
    ensures
        r == queued_event_eq(*a, *b),
{
    a.event.uuid == b.event.uuid && a.event.timestamp == b.event.timestamp && str_eq(
        a.event.event_type.as_str(),
        b.event.event_type.as_str(),
    ) && str_eq(a.event.payload.as_str(), b.event.payload.as_str()) && a.attempts == b.attempts
        && a.status == b.status
}

/// The failed queue after requeueing a list of failed events: events with
/// retry budget left re-enter with a bumped attempt count and `Failed`
/// status; the rest are dropped.
pub open spec fn requeued(
    failed_queue: Seq<QueuedEvent>,
    events: Seq<QueuedEvent>,
    max_retries: u8,
) -> Seq<QueuedEvent>
    decreases events.len(),
{
    if events.len() == 0 {
        failed_queue
    } else {
        let prior = requeued(failed_queue, events.drop_last(), max_retries);
        let e = events.last();
        if e.attempts >= max_retries {
            prior
        } else {
            prior.push(bumped(e, QueuedEventStatus::Failed))
        }
    }
}

/// A simple event queue that stores events in vectors.
#[derive(Debug, Clone, PartialEq)]
pub struct VecEventQueue {
    pub config: VecEventQueueConfig,
    pub pending_event_queue: Vec<QueuedEvent>,
    pub failed_event_queue: Vec<QueuedEvent>,
}

impl VecEventQueue {
    /// A new empty queue; the batch size is clamped to at most
    /// `MAX_BATCH_SIZE`.
    pub fn new(config: VecEventQueueConfig) -> (r: VecEventQueue)
        ensures
            r.config.batch_size == if config.batch_size > MAX_BATCH_SIZE {
                MAX_BATCH_SIZE as int
            } else {
                config.batch_size as int
            },
            r.config.max_queue_size == config.max_queue_size,
            r.config.max_retries == config.max_retries,
            r.pending_event_queue@.len() == 0,
            r.failed_event_queue@.len() == 0,
    {
        let clamped = if config.batch_size > MAX_BATCH_SIZE {
            MAX_BATCH_SIZE
        } else {
            config.batch_size
        };
        VecEventQueue {
            config: VecEventQueueConfig {
                batch_size: clamped,
                max_queue_size: config.max_queue_size,
                max_retries: config.max_retries,
            },
            pending_event_queue: Vec::new(),
            failed_event_queue: Vec::new(),
        }
    }

    /// How many events wait in the queue, over both stages.
    pub fn len(&self) -> (r: usize)
        requires
            self.pending_event_queue@.len() + self.failed_event_queue@.len() <= usize::MAX,
        ensures
            r == self.pending_event_queue@.len() + self.failed_event_queue@.len(),
    {
        self.pending_event_queue.len() + self.failed_event_queue.len()
    }

    /// Queues an event. Fails when the queue is at its size bound or an
    /// equal event is already pending; otherwise the event joins the end
    /// of the pending queue.
    #[verifier::loop_isolation(false)]
    pub fn push(&mut self, event: QueuedEvent) -> (r: Result<(), QueueError>)
        requires
            old(self).pending_event_queue@.len() + old(self).failed_event_queue@.len() + 1
                <= usize::MAX,
        ensures
            final(self).config == old(self).config,
            final(self).failed_event_queue == old(self).failed_event_queue,
            ({
                if old(self).pending_event_queue@.len() + old(self).failed_event_queue@.len() + 1
                    > old(self).config.max_queue_size {
                    &&& r == Err::<(), QueueError>(QueueError::QueueFull)
                    &&& final(self).pending_event_queue == old(self).pending_event_queue
                } else if has_duplicate(old(self).pending_event_queue@, event) {
                    &&& r == Err::<(), QueueError>(QueueError::DuplicateEvent)
                    &&& final(self).pending_event_queue == old(self).pending_event_queue
                } else {
                    &&& r == Ok::<(), QueueError>(())
                    &&& final(self).pending_event_queue@
                        == old(self).pending_event_queue@.push(event)
                }
            }),
    {
        if self.pending_event_queue.len() + self.failed_event_queue.len() + 1
            > self.config.max_queue_size {
            return Err(QueueError::QueueFull);
        }
        let n = self.pending_event_queue.len();
        let mut i: usize = 0;
        while i < n
            invariant
                0 <= i <= n,
                forall|k: int|
                    0 <= k < i ==> !queued_event_eq(
                        #[trigger] self.pending_event_queue@[k],
                        event,
                    ),
                self == old(self),
            decreases n - i,
        {
            if events_equal(&self.pending_event_queue[i], &event) {
                return Err(QueueError::DuplicateEvent);
            }
            i = i + 1;
        }
        self.pending_event_queue.push(event);
        Ok(())
    }

    /// Takes up to `batch_size` events of the given status, in FIFO order.
    #[verifier::loop_isolation(false)]
    pub fn next_batch(&mut self, status: QueuedEventStatus) -> (r: Vec<QueuedEvent>)
        ensures
            final(self).config == old(self).config,
            ({
                let from = if status == QueuedEventStatus::Pending {
                    old(self).pending_event_queue@
                } else {
                    old(self).failed_event_queue@
                };
                let taken = if from.len() > old(self).config.batch_size {
                    old(self).config.batch_size as int
                } else {
                    from.len() as int
                };
                &&& r@ == from.take(taken)
                &&& (if status == QueuedEventStatus::Pending {
                    final(self).pending_event_queue@ == from.skip(taken)
                        && final(self).failed_event_queue == old(self).failed_event_queue
                } else {
                    final(self).failed_event_queue@ == from.skip(taken)
                        && final(self).pending_event_queue == old(self).pending_event_queue
                })
            }),
    {
        let ghost from = if status == QueuedEventStatus::Pending {
            self.pending_event_queue@
        } else {
            self.failed_event_queue@
        };
        let mut batch: Vec<QueuedEvent> = Vec::new();
        let is_pending = match status {
            QueuedEventStatus::Pending => true,
            _ => false,
        };
        let avail = if is_pending {
            self.pending_event_queue.len()
        } else {
            self.failed_event_queue.len()
        };
        let take_n = if avail > self.config.batch_size {
            self.config.batch_size
        } else {
            avail
        };
        let mut k: usize = 0;
        while k < take_n
            invariant
                0 <= k <= take_n <= from.len(),
                take_n == if from.len() > old(self).config.batch_size {
                    old(self).config.batch_size as int
                } else {
                    from.len() as int
                },
                k == batch@.len(),
                batch@ == from.take(k as int),
                is_pending == (status == QueuedEventStatus::Pending),
                if is_pending {
                    self.pending_event_queue@ == from.skip(k as int)
                        && self.failed_event_queue == old(self).failed_event_queue
                } else {
                    self.failed_event_queue@ == from.skip(k as int)
                        && self.pending_event_queue == old(self).pending_event_queue
                },
                self.config == old(self).config,
            decreases take_n - k,
        {
            let e = if is_pending {
                self.pending_event_queue.remove(0)
            } else {
                self.failed_event_queue.remove(0)
            };
            proof {
                assert(e == from[k as int]);
                assert(from.skip(k as int).remove(0) =~= from.skip(k + 1));
                assert(from.take(k + 1) =~= from.take(k as int).push(from[k as int]));
            }
            batch.push(e);
            k = k + 1;
        }
        proof {
            let taken = if from.len() > old(self).config.batch_size {
                old(self).config.batch_size as int
            } else {
                from.len() as int
            };
            assert(batch@ == from.take(taken));
        }
        batch
    }

    /// Whether enough pending events wait to fill at least one batch.
    pub fn is_batch_full(&self) -> (r: bool)
        ensures
            r == (self.pending_event_queue@.len() >= self.config.batch_size),
    {
        self.pending_event_queue.len() >= self.config.batch_size
    }

    /// Requeues failed events for retry: each re-enters the failed queue
    /// with a bumped attempt count, unless its retry budget is spent, in
    /// which case it is dropped.
    #[verifier::loop_isolation(false)]
    pub fn enqueue_failed_events_for_retry(&mut self, failed_events: Vec<QueuedEvent>)
        ensures
            final(self).config == old(self).config,
            final(self).pending_event_queue == old(self).pending_event_queue,
            final(self).failed_event_queue@ == requeued(
                old(self).failed_event_queue@,
                failed_events@,
                old(self).config.max_retries,
            ),
    {
        let ghost evs = failed_events@;
        let mut failed_events = failed_events;
        let ghost mut i: int = 0;
        while failed_events.len() > 0
            invariant
                0 <= i <= evs.len(),
                failed_events@ == evs.skip(i),
                self.config == old(self).config,
                self.pending_event_queue == old(self).pending_event_queue,
                self.failed_event_queue@ == requeued(
                    old(self).failed_event_queue@,
                    evs.take(i),
                    old(self).config.max_retries,
                ),
            decreases failed_events@.len(),
        {
            let e = failed_events.remove(0);
            proof {
                assert(e == evs[i]);
                assert(failed_events@ =~= evs.skip(i + 1));
                assert(evs.take(i + 1).drop_last() == evs.take(i));
                assert(evs.take(i + 1).last() == evs[i]);
            }
            if e.attempts >= self.config.max_retries {
                // budget spent: the event is dropped, not requeued
            } else {
                self.failed_event_queue.push(e.into_bumped(QueuedEventStatus::Failed));
            }
            proof {
                i = i + 1;
            }
        }
        proof {
            assert(evs.take(i) == evs);
        }
    }
}

} // verus!
