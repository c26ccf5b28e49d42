use eppo_core::event_ingestion::auto_flusher::{AutoFlusher, FlusherTimer};
use eppo_core::event_ingestion::batched_message::BatchedMessage;
use eppo_core::event_ingestion::batcher::Batcher;
use eppo_core::event_ingestion::context::{validate_context_value, ContextError,
    ContextValueKind};
use eppo_core::event_ingestion::delivery::{classify_status, classify_transport_failure,
    collect_delivery_response, event_too_large, TransportFailure};
use eppo_core::event_ingestion::event::Event;
use eppo_core::event_ingestion::event_dispatcher::{DispatcherError, EventDispatcher,
    EventDispatcherConfig};
use eppo_core::event_ingestion::queued_event::{QueuedEvent, QueuedEventStatus};
use eppo_core::event_ingestion::retry::retry_delay;
use eppo_core::event_ingestion::vec_event_queue::{QueueError, VecEventQueue,
    VecEventQueueConfig};

fn now() -> i64 {
    chrono::Utc::now().timestamp_millis()
}

fn event_with(event_type: &str, payload: &str) -> Event {
    Event {
        uuid: uuid::Uuid::new_v4().as_u128(),
        timestamp: now(),
        event_type: event_type.to_string(),
        payload: payload.to_string(),
    }
}

#[test]
fn test_new() {
    let event = event_with("test", "{\"key\":\"value\"}");
    let queued_event = QueuedEvent::new(event.clone());
    assert_eq!(queued_event.event, event);
    assert_eq!(queued_event.attempts, 0);
    assert_eq!(queued_event.event.event_type, "test");
}

#[test]
fn new_should_clamp_batch_size() {
    let queue = VecEventQueue::new(VecEventQueueConfig {
        batch_size: 300_001,
        max_queue_size: 20,
        max_retries: 3,
    });
    assert_eq!(queue.config.batch_size, 10_000);
}

#[test]
fn test_next_pending_batch() {
    let mut queue = VecEventQueue::new(VecEventQueueConfig {
        batch_size: 10,
        max_queue_size: 20,
        max_retries: 3,
    });
    assert_eq!(queue.config.batch_size, 10);
    assert_eq!(queue.is_batch_full(), false);
    let events = (0..11)
        .map(|i: i32| {
            QueuedEvent::new(Event {
                uuid: uuid::Uuid::new_v4().as_u128(),
                timestamp: now(),
                event_type: i.to_string(),
                payload: format!("{{\"key\":\"{}\"}}", i),
            })
        })
        .collect::<Vec<_>>();
    let cloned_events = events.clone();
    for event in cloned_events {
        queue.push(event).expect("should not fail");
    }
    assert_eq!(queue.is_batch_full(), true);
    assert_eq!(
        queue.next_batch(QueuedEventStatus::Pending),
        events.into_iter().take(10).collect::<Vec<QueuedEvent>>()
    );
    assert_eq!(queue.is_batch_full(), false);
    assert_eq!(queue.next_batch(QueuedEventStatus::Pending).len(), 1);
    assert_eq!(queue.next_batch(QueuedEventStatus::Pending).len(), 0);
}

#[test]
fn test_updated_attempts_count() {
    let mut queue = VecEventQueue::new(VecEventQueueConfig {
        batch_size: 10,
        max_queue_size: 20,
        max_retries: 2,
    });
    let event = QueuedEvent::new(event_with("test", "{\"key\":\"value\"}"));
    queue.push(event.clone()).expect("should not fail");
    let batch = queue.next_batch(QueuedEventStatus::Pending);
    queue.push(event.clone()).expect("should not fail");
    queue.enqueue_failed_events_for_retry(batch.clone());
    let failed_events = queue.next_batch(QueuedEventStatus::Failed);
    queue.enqueue_failed_events_for_retry(failed_events);
    let failed_events = queue.next_batch(QueuedEventStatus::Failed);
    assert_eq!(failed_events.len(), 1);
    assert_eq!(failed_events[0].event.uuid, event.event.uuid);
    assert_eq!(failed_events[0].status, QueuedEventStatus::Failed);
    assert_eq!(failed_events[0].attempts, 2);
    // failing a third time must not requeue: that exceeds max_retries == 2
    queue.enqueue_failed_events_for_retry(failed_events);
    let failed_events = queue.next_batch(QueuedEventStatus::Failed);
    assert_eq!(failed_events.len(), 0);
}

#[test]
fn test_next_pending_batch_status() {
    let event_a = event_with("a", "{\"key\":\"value\"}");
    let event_b = event_with("b", "{\"key\":\"value\"}");
    let event_c = event_with("C", "{\"key\":\"value\"}");
    let queued_event_a = QueuedEvent {
        event: event_a.clone(),
        attempts: 0,
        status: QueuedEventStatus::Pending,
    };
    let queued_event_b = QueuedEvent {
        event: event_b.clone(),
        attempts: 1,
        status: QueuedEventStatus::Failed,
    };
    let queued_event_c = QueuedEvent {
        event: event_c.clone(),
        attempts: 0,
        status: QueuedEventStatus::Pending,
    };
    let mut queue = VecEventQueue {
        config: VecEventQueueConfig {
            batch_size: 10,
            max_queue_size: 10,
            max_retries: 3,
        },
        pending_event_queue: vec![queued_event_a.clone(), queued_event_c.clone()],
        failed_event_queue: vec![queued_event_b.clone()],
    };
    assert_eq!(
        queue.next_batch(QueuedEventStatus::Pending),
        vec![queued_event_a, queued_event_c]
    );
    assert_eq!(
        queue.next_batch(QueuedEventStatus::Failed),
        vec![queued_event_b.clone()]
    );
}

#[test]
fn test_max_queue_size_push() {
    let mut queue = VecEventQueue::new(VecEventQueueConfig {
        batch_size: 10,
        max_queue_size: 2,
        max_retries: 3,
    });
    queue
        .push(QueuedEvent::new(event_with("test", "{\"key\":\"value\"}")))
        .expect("should not fail");
    queue
        .push(QueuedEvent::new(event_with("test", "{\"key\":\"value\"}")))
        .expect("should not fail");
    assert_eq!(
        queue
            .push(QueuedEvent::new(event_with("test", "{\"key\":\"value\"}")))
            .expect_err("should fail"),
        QueueError::QueueFull
    );
}

#[test]
fn test_enqueue_failed_events_for_retry() {
    let mut queue = VecEventQueue::new(VecEventQueueConfig {
        batch_size: 10,
        max_queue_size: 20,
        max_retries: 3,
    });
    let event_a = event_with("a", "{\"key\":\"value\"}");
    let event_b = event_with("b", "{\"key\":\"value\"}");
    let queued_event_a = QueuedEvent::new(event_a.clone());
    let queued_event_b = QueuedEvent::new(event_b.clone());
    queue.push(queued_event_a.clone()).expect("should not fail");
    let batch = queue.next_batch(QueuedEventStatus::Pending);
    queue.push(queued_event_b.clone()).expect("should not fail");
    queue.enqueue_failed_events_for_retry(batch);
    let failed_events = &queue.failed_event_queue;
    assert_eq!(failed_events.len(), 1);
    assert_eq!(failed_events[0].event.uuid, queued_event_a.event.uuid);
    assert_eq!(failed_events[0].status, QueuedEventStatus::Failed);
    assert_eq!(failed_events[0].attempts, 1);
    let pending_events = &queue.pending_event_queue;
    assert_eq!(pending_events.len(), 1);
}

#[test]
fn mark_events_as_failed() {
    let mut queue = VecEventQueue::new(VecEventQueueConfig {
        batch_size: 10,
        max_queue_size: 20,
        max_retries: 3,
    });
    let queued_event_a = QueuedEvent::new(event_with("a", "{\"key\":\"value\"}"));
    let queued_event_b = QueuedEvent::new(event_with("b", "{\"key\":\"value\"}"));
    queue.push(queued_event_a.clone()).expect("should not fail");
    let batch = queue.next_batch(QueuedEventStatus::Pending);
    queue.push(queued_event_b.clone()).expect("should not fail");
    queue.enqueue_failed_events_for_retry(batch);
    assert_eq!(queue.failed_event_queue.len(), 1);
    assert_eq!(
        queue.failed_event_queue[0].event.uuid,
        queued_event_a.event.uuid
    );
    assert_eq!(
        queue.failed_event_queue[0].status,
        QueuedEventStatus::Failed
    );
    assert_eq!(queue.failed_event_queue[0].attempts, 1);
    assert_eq!(queue.pending_event_queue.len(), 1);
}

#[test]
fn duplicate_events_are_refused() {
    let mut queue = VecEventQueue::new(VecEventQueueConfig {
        batch_size: 10,
        max_queue_size: 20,
        max_retries: 3,
    });
    let event = QueuedEvent::new(event_with("test", "{\"key\":\"value\"}"));
    queue.push(event.clone()).expect("should not fail");
    assert_eq!(queue.push(event), Err(QueueError::DuplicateEvent));
}

#[test]
fn batcher_waits_for_threshold_or_flush() {
    let mut batcher: Batcher<u32> = Batcher::new(3);

    // two events: below the threshold, buffered
    let out = batcher.push::<u8>(BatchedMessage::new(vec![1, 2], None));
    assert!(out.is_none());

    // a third arrives: everything received so far leaves, in order
    let out = batcher.push::<u8>(BatchedMessage::new(vec![3], None)).unwrap();
    assert_eq!(out.batch, vec![1, 2, 3]);
    assert!(out.flush.is_none());

    // a flush barrier forces the buffered event out with the watchers
    let out = batcher.push::<u8>(BatchedMessage::new(vec![4], None));
    assert!(out.is_none());
    let out = batcher
        .push(BatchedMessage::new(vec![], Some(vec![7u8])))
        .unwrap();
    assert_eq!(out.batch, vec![4]);
    assert_eq!(out.flush, Some(vec![7u8]));

    // closing the uplink flushes the rest
    let mut batcher: Batcher<u32> = Batcher::new(10);
    batcher.push::<u8>(BatchedMessage::new(vec![9], None));
    let last: BatchedMessage<u32, u8> = batcher.finish();
    assert_eq!(last.batch, vec![9]);
    assert!(last.flush.is_none());
}

#[test]
fn auto_flusher_injects_after_quiet_period() {
    let mut flusher = AutoFlusher::new(10_000);
    assert_eq!(flusher.timer, FlusherTimer::Idle);

    // an ordinary message arms the timer; further ones leave the deadline
    flusher.on_message(false, 1_000);
    assert_eq!(flusher.timer, FlusherTimer::Armed(11_000));
    flusher.on_message(false, 5_000);
    assert_eq!(flusher.timer, FlusherTimer::Armed(11_000));

    // the deadline fires: a barrier is injected and the timer disarms
    assert!(flusher.on_deadline());
    assert_eq!(flusher.timer, FlusherTimer::Idle);
    assert!(!flusher.on_deadline());

    // a passing barrier disarms a running timer
    flusher.on_message(false, 20_000);
    flusher.on_message(true, 21_000);
    assert_eq!(flusher.timer, FlusherTimer::Idle);
}

#[test]
fn delivery_classifies_each_event() {
    let ok = QueuedEvent::new(event_with("ok", "{}"));
    let transient = QueuedEvent::new(event_with("transient", "{}"));
    let exhausted = QueuedEvent {
        event: event_with("exhausted", "{}"),
        attempts: 3,
        status: QueuedEventStatus::Retry,
    };
    let rejected = QueuedEvent::new(event_with("rejected", "{}"));
    let batch = vec![ok.clone(), transient.clone(), exhausted.clone(), rejected.clone()];
    let retriable = vec![transient.event.uuid, exhausted.event.uuid];
    let non_retriable = vec![rejected.event.uuid];

    let r = collect_delivery_response(batch, &retriable, &non_retriable, 3);
    assert_eq!(r.success, vec![ok]);
    assert_eq!(r.retry.len(), 1);
    assert_eq!(r.retry[0].event.uuid, transient.event.uuid);
    assert_eq!(r.retry[0].attempts, 1);
    assert_eq!(r.retry[0].status, QueuedEventStatus::Retry);
    assert_eq!(r.failure.len(), 2);
    assert_eq!(r.failure[0].event.uuid, exhausted.event.uuid);
    assert_eq!(r.failure[0].attempts, 4);
    assert_eq!(r.failure[1].event.uuid, rejected.event.uuid);
}

#[test]
fn ingestion_retry_succeeds_on_second_attempt() {
    // one event whose first delivery names it as failed and whose second
    // delivers: after two classifications it sits in the success bucket
    // and is never requeued again
    let event = QueuedEvent::new(event_with("login", "{\"user\":\"u1\"}"));
    let first = collect_delivery_response(
        vec![event.clone()],
        &vec![event.event.uuid],
        &Vec::new(),
        3,
    );
    assert!(first.success.is_empty());
    assert_eq!(first.retry.len(), 1);
    assert_eq!(first.retry[0].attempts, 1);

    let second =
        collect_delivery_response(first.retry, &Vec::new(), &Vec::new(), 3);
    assert_eq!(second.success.len(), 1);
    assert_eq!(second.success[0].event.uuid, event.event.uuid);
    assert!(second.retry.is_empty());
    assert!(second.failure.is_empty());
}

#[test]
fn retry_budget_drops_exhausted_events() {
    // an event at the attempt budget is failed, not requeued
    let spent = QueuedEvent {
        event: event_with("spent", "{}"),
        attempts: 3,
        status: QueuedEventStatus::Retry,
    };
    let r = collect_delivery_response(
        vec![spent.clone()],
        &vec![spent.event.uuid],
        &Vec::new(),
        3,
    );
    assert!(r.retry.is_empty());
    assert_eq!(r.failure.len(), 1);
}

#[test]
fn backoff_is_capped() {
    assert_eq!(retry_delay(5_000, 30_000, 1), 5_000);
    assert_eq!(retry_delay(5_000, 30_000, 2), 10_000);
    assert_eq!(retry_delay(5_000, 30_000, 3), 20_000);
    assert_eq!(retry_delay(5_000, 30_000, 4), 30_000);
    for attempts in 1..=20u8 {
        assert!(retry_delay(5_000, 30_000, attempts) <= 30_000);
    }
    assert_eq!(retry_delay(50_000, 30_000, 1), 30_000);
}

#[test]
fn status_codes_split_into_retriable_and_final() {
    for status in [400u16, 401, 403, 404, 405, 409, 422] {
        assert!(!classify_status(status));
    }
    for status in [500u16, 502, 503, 418] {
        assert!(classify_status(status));
    }
}

#[test]
fn oversized_events_are_rejected() {
    assert!(!event_too_large(4096));
    assert!(event_too_large(4097));
}

#[test]
fn context_values_must_be_primitive() {
    assert_eq!(validate_context_value(ContextValueKind::String), Ok(()));
    assert_eq!(validate_context_value(ContextValueKind::Number), Ok(()));
    assert_eq!(validate_context_value(ContextValueKind::Boolean), Ok(()));
    assert_eq!(validate_context_value(ContextValueKind::Null), Ok(()));
    assert_eq!(
        validate_context_value(ContextValueKind::Object),
        Err(ContextError::InvalidContextValueType)
    );
    assert_eq!(
        validate_context_value(ContextValueKind::Array),
        Err(ContextError::InvalidContextValueType)
    );
}

#[test]
fn dispatcher_maps_queue_errors() {
    let config = EventDispatcherConfig {
        sdk_key: "test-sdk-key".to_string(),
        ingestion_url: "https://example.invalid/v0/i".to_string(),
        delivery_interval_ms: 10_000,
        retry_interval_ms: 5_000,
        max_retry_delay_ms: 30_000,
        batch_size: 1,
    };
    let queue = VecEventQueue::new(VecEventQueueConfig {
        batch_size: 1,
        max_queue_size: 1,
        max_retries: 3,
    });
    let mut dispatcher = EventDispatcher::new(config, queue);
    assert_eq!(dispatcher.dispatch(event_with("first", "{}")), None);
    assert_eq!(
        dispatcher.dispatch(event_with("second", "{}")),
        Some(DispatcherError::QueueError(QueueError::QueueFull))
    );
}

#[test]
fn transport_failures_split_into_retriable_and_final() {
    assert!(classify_transport_failure(TransportFailure::Network));
    assert!(!classify_transport_failure(TransportFailure::InvalidRequest));
}
