//! The event dispatcher: the queue-backed front of the pipeline.
//!
//! The dispatcher accepts tracked events into the bounded queue and hands
//! batches onward; the channels, timers and HTTP transfers around it live
//! in the embedding application.

use vstd::prelude::*;

use crate::event_ingestion::event::Event;
use crate::event_ingestion::queued_event::{QueuedEvent, QueuedEventStatus};
use crate::event_ingestion::vec_event_queue::{has_duplicate, QueueError, VecEventQueue};

verus! {

/// A command sent to the dispatcher's processing loop.
#[derive(Debug, Clone, Copy, PartialEq, Eq, Structural)]
pub enum EventDispatcherCommand {
    /// An event has been queued; deliver when a batch is ready.
    Event,
}

/// Sizing and pacing knobs of the dispatcher.
#[derive(Debug, Clone, PartialEq)]
pub struct EventDispatcherConfig {
    pub sdk_key: String,
    pub ingestion_url: String,
    pub delivery_interval_ms: u64,
    pub retry_interval_ms: u64,
    pub max_retry_delay_ms: u64,
    pub batch_size: usize,
}

/// Why the dispatcher refused an event.
#[derive(Debug, Clone, Copy, PartialEq, Eq, Structural)]
pub enum DispatcherError {
    /// The queue refused the event.
    QueueError(QueueError),
    /// The delivery side of the pipeline has shut down.
    EventDeliveryError,
}

/// The dispatcher: configuration and the queue it feeds.
#[derive(Debug, Clone, PartialEq)]
pub struct EventDispatcher {
    pub config: EventDispatcherConfig,
    pub event_queue: VecEventQueue,
}

impl EventDispatcher {
    pub fn new(config: EventDispatcherConfig, event_queue: VecEventQueue) -> (r: EventDispatcher)
        ensures
            r.config == config,
            r.event_queue == event_queue,
    {
        EventDispatcher { config, event_queue }
    }

    /// Queues an event for delivery. Returns the error when the queue is
    /// full or already holds the event, and nothing otherwise.
    pub fn dispatch(&mut self, event: Event) -> (r: Option<DispatcherError>)
        requires
            old(self).event_queue.pending_event_queue@.len() + old(
                self,
            ).event_queue.failed_event_queue@.len() + 1 <= usize::MAX,
        ensures
            final(self).config == old(self).config,
            ({
                let q = old(self).event_queue;
                let nq = final(self).event_queue;
                let queued = QueuedEvent {
                    event: event,
                    attempts: 0,
                    status: QueuedEventStatus::Pending,
                };
                if q.pending_event_queue@.len() + q.failed_event_queue@.len() + 1
                    > q.config.max_queue_size {
                    r == Some(DispatcherError::QueueError(QueueError::QueueFull)) && nq == q
                } else if has_duplicate(q.pending_event_queue@, queued) {
                    r == Some(DispatcherError::QueueError(QueueError::DuplicateEvent)) && nq == q
                } else {
                    &&& r is None
                    &&& nq.pending_event_queue@ == q.pending_event_queue@.push(queued)
                    &&& nq.failed_event_queue == q.failed_event_queue
                    &&& nq.config == q.config
                }
            }),
    {
        match self.event_queue.push(QueuedEvent::new(event)) {
            Ok(()) => None,
            Err(e) => Some(DispatcherError::QueueError(e)),
        }
    }
}

} // verus!
