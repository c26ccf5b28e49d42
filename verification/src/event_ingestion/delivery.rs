//! The delivery stage's decision logic.
//!
//! After a batch is posted, the ingestion service names the events that
//! failed; transport and status errors condemn or retry the whole batch.
//! The functions here classify each event of a batch into success,
//! terminal failure or retry, enforce the per-event attempt budget, map
//! response status codes to retriability, and reject oversized events
//! before delivery.

use vstd::prelude::*;

use crate::event_ingestion::queued_event::{bumped, QueuedEvent, QueuedEventStatus};

verus! {

/// Largest serialized event accepted for delivery, in bytes.
pub const MAX_EVENT_SERIALIZED_LENGTH: usize = 4096;

/// A delivered batch, classified.
#[derive(Debug, Clone, PartialEq)]
pub struct QueuedBatch {
    pub success: Vec<QueuedEvent>,
    pub failure: Vec<QueuedEvent>,
    pub retry: Vec<QueuedEvent>,
}

impl QueuedBatch {
    pub fn new(success: Vec<QueuedEvent>, failure: Vec<QueuedEvent>, retry: Vec<QueuedEvent>) -> (r:
        QueuedBatch)
        ensures
            r.success == success,
            r.failure == failure,
            r.retry == retry,
    {
        QueuedBatch { success, failure, retry }
    }

    /// A batch that succeeded wholesale.
    pub fn success(success: Vec<QueuedEvent>) -> (r: QueuedBatch)
        ensures
            r.success == success,
            r.failure@.len() == 0,
            r.retry@.len() == 0,
    {
        QueuedBatch { success, failure: Vec::new(), retry: Vec::new() }
    }

    /// A batch that failed terminally wholesale.
    pub fn failure(failure: Vec<QueuedEvent>) -> (r: QueuedBatch)
        ensures
            r.failure == failure,
            r.success@.len() == 0,
            r.retry@.len() == 0,
    {
        QueuedBatch { success: Vec::new(), failure, retry: Vec::new() }
    }

    /// A batch to retry wholesale.
    pub fn retry(retry: Vec<QueuedEvent>) -> (r: QueuedBatch)
        ensures
            r.retry == retry,
            r.success@.len() == 0,
            r.failure@.len() == 0,
    {
        QueuedBatch { success: Vec::new(), failure: Vec::new(), retry }
    }
}

/// Whether `uuid` is among `uuids`.
pub open spec fn uuid_listed(uuids: Seq<u128>, uuid: u128) -> bool {
    exists|i: int| 0 <= i < uuids.len() && uuids[i] == uuid
}

fn contains_uuid(uuids: &Vec<u128>, uuid: u128) -> (r: bool)
    ensures
        r == uuid_listed(uuids@, uuid),
{
    let n = uuids.len();
    let mut i: usize = 0;
    while i < n
        invariant
            0 <= i <= n == uuids@.len(),
            forall|k: int| 0 <= k < i ==> uuids@[k] != uuid,
        decreases n - i,
    {
        if uuids[i] == uuid {
            proof {
                assert(uuids@[i as int] == uuid);
            }
            return true;
        }
        i = i + 1;
    }
    false
}

/// How one event of a delivered batch is classified.
pub enum EventFate {
    Success,
    Retry,
    Failure,
}

/// The fate of one event: named as retriable and under budget, it is
/// retried; named as retriable over budget or as non-retriable, it fails;
/// unnamed, it succeeded.
pub open spec fn event_fate(
    e: QueuedEvent,
    retriable: Seq<u128>,
    non_retriable: Seq<u128>,
    max_retries: u8,
) -> EventFate {
    if uuid_listed(retriable, e.event.uuid) {
        if e.attempts < max_retries {
            EventFate::Retry
        } else {
            EventFate::Failure
        }
    } else if uuid_listed(non_retriable, e.event.uuid) {
        EventFate::Failure
    } else {
        EventFate::Success
    }
}

/// The classification of a whole batch, in order.
pub open spec fn classify_batch(
    batch: Seq<QueuedEvent>,
    retriable: Seq<u128>,
    non_retriable: Seq<u128>,
    max_retries: u8,
) -> (Seq<QueuedEvent>, Seq<QueuedEvent>, Seq<QueuedEvent>)
    decreases batch.len(),
{
    if batch.len() == 0 {
        (Seq::empty(), Seq::empty(), Seq::empty())
    } else {
        let (s, f, r) = classify_batch(batch.drop_last(), retriable, non_retriable, max_retries);
        let e = batch.last();
        match event_fate(e, retriable, non_retriable, max_retries) {
            EventFate::Success => (s.push(e), f, r),
            EventFate::Failure => (s, f.push(bumped(e, QueuedEventStatus::Failed)), r),
            EventFate::Retry => (s, f, r.push(bumped(e, QueuedEventStatus::Retry))),
        }
    }
}

/// Classifies a delivered batch given the failed-event lists of the
/// response: successes keep their order and content; failed and retried
/// events get their attempt counts bumped; an event already at the retry
/// budget is failed, not requeued.
#[verifier::loop_isolation(false)]
pub fn collect_delivery_response(
    batch: Vec<QueuedEvent>,
    retriable_failed: &Vec<u128>,
    non_retriable_failed: &Vec<u128>,
    max_retries: u8,
) -> (r: QueuedBatch)
    ensures
        (r.success@, r.failure@, r.retry@) == classify_batch(
            batch@,
            retriable_failed@,
            non_retriable_failed@,
            max_retries,
        ),
{
    let ghost orig = batch@;
    let mut batch = batch;
    let mut success: Vec<QueuedEvent> = Vec::new();
    let mut failure: Vec<QueuedEvent> = Vec::new();
    let mut retry: Vec<QueuedEvent> = Vec::new();
    let ghost mut i: int = 0;
    while batch.len() > 0
        invariant
            0 <= i <= orig.len(),
            batch@ == orig.skip(i),
            (success@, failure@, retry@) == classify_batch(
                orig.take(i),
                retriable_failed@,
                non_retriable_failed@,
                max_retries,
            ),
        decreases batch@.len(),
    {
        let e = batch.remove(0);
        proof {
            assert(e == orig[i]);
            assert(batch@ =~= orig.skip(i + 1));
            assert(orig.take(i + 1).drop_last() == orig.take(i));
            assert(orig.take(i + 1).last() == orig[i]);
        }
        if contains_uuid(retriable_failed, e.event.uuid) {
            if e.attempts < max_retries {
                retry.push(e.into_bumped(QueuedEventStatus::Retry));
            } else {
                failure.push(e.into_bumped(QueuedEventStatus::Failed));
            }
        } else if contains_uuid(non_retriable_failed, e.event.uuid) {
            failure.push(e.into_bumped(QueuedEventStatus::Failed));
        } else {
            success.push(e);
        }
        proof {
            i = i + 1;
        }
    }
    proof {
        assert(orig.take(i) == orig);
    }
    QueuedBatch { success, failure, retry }
}

/// Whether a response status code allows the batch to be retried.
///
/// Authorization failures and client errors are final; server errors and
/// unrecognized statuses are retried.
pub open spec fn status_retriable(status: u16) -> bool {
    !(status == 400 || status == 401 || status == 403 || status == 404 || status == 405 || status
        == 409 || status == 422)
}

/// Maps a non-success response status to retriability.
pub fn classify_status(status: u16) -> (r: bool)
    ensures
        r == status_retriable(status),
{
    match status {
        400 | 401 | 403 | 404 | 405 | 409 | 422 => false,
        _ => true,
    }
}

/// How a delivery attempt failed before any status arrived, as the
/// embedding application reports it.
#[derive(Debug, Clone, Copy, PartialEq, Eq, Structural)]
pub enum TransportFailure {
    /// The request could not be built or sent at all — most likely a
    /// serialization mistake; trying again cannot help.
    InvalidRequest,
    /// The server was lost mid-flight: an intermittent network failure.
    Network,
}

/// Whether a transport failure allows the batch to be retried.
pub open spec fn transport_retriable(failure: TransportFailure) -> bool {
    failure == TransportFailure::Network
}

/// Maps a transport failure to retriability: only network failures are
/// retried; an unsendable request condemns the batch.
pub fn classify_transport_failure(failure: TransportFailure) -> (r: bool)
    ensures
        r == transport_retriable(failure),
{
    match failure {
        TransportFailure::Network => true,
        TransportFailure::InvalidRequest => false,
    }
}

/// Whether a serialized event is too large to deliver.
pub fn event_too_large(serialized_length: usize) -> (r: bool)
    ensures
        r == (serialized_length > MAX_EVENT_SERIALIZED_LENGTH),
{
    serialized_length > MAX_EVENT_SERIALIZED_LENGTH
}

/// Every event classified for retry was under the attempt budget, and its
/// new attempt count stays within it: events that exhaust the budget are
/// dropped to terminal failure, never requeued.
pub proof fn lemma_retry_budget(
    batch: Seq<QueuedEvent>,
    retriable: Seq<u128>,
    non_retriable: Seq<u128>,
    max_retries: u8,
)
    requires
        max_retries < 255,
    ensures
        ({
            let (s, f, r) = classify_batch(batch, retriable, non_retriable, max_retries);
            forall|i: int| 0 <= i < r.len() ==> (#[trigger] r[i]).attempts <= max_retries
        }),
    decreases batch.len(),
{
    if batch.len() > 0 {
        lemma_retry_budget(batch.drop_last(), retriable, non_retriable, max_retries);
    }
}

} // verus!
