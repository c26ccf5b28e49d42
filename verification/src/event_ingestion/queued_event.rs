//! An event together with its delivery state.

use vstd::prelude::*;

use crate::event_ingestion::event::Event;

verus! {

/// Where an event stands in the delivery lifecycle.
#[derive(Debug, Clone, Copy, PartialEq, Eq, Hash, Structural)]
pub enum QueuedEventStatus {
    Pending,
    Retry,
    Failed,
}

/// An event with its attempt count and status.
#[derive(Debug, Clone, PartialEq)]
pub struct QueuedEvent {
    pub event: Event,
    pub attempts: u8,
    pub status: QueuedEventStatus,
}

/// A failed or retried event: the same event with its attempt count
/// bumped (saturating) and the new status.
pub open spec fn bumped(e: QueuedEvent, status: QueuedEventStatus) -> QueuedEvent {
    QueuedEvent {
        event: e.event,
        attempts: if e.attempts < 255 {
            (e.attempts + 1) as u8
        } else {
            255u8
        },
        status: status,
    }
}

impl QueuedEvent {
    /// A freshly tracked event: no attempts, pending.
    pub fn new(event: Event) -> (r: QueuedEvent)
        ensures
            r.event == event,
            r.attempts == 0,
            r.status == QueuedEventStatus::Pending,
    {
        QueuedEvent { event, attempts: 0, status: QueuedEventStatus::Pending }
    }

    /// This event after a failed delivery attempt.
    pub fn into_bumped(self, status: QueuedEventStatus) -> (r: QueuedEvent)
        ensures
            r == bumped(self, status),
    {
        let QueuedEvent { event, attempts, status: _ } = self;
        let attempts = if attempts < 255 {
            attempts + 1
        } else {
            255
        };
        QueuedEvent { event, attempts, status }
    }
}

} // verus!
