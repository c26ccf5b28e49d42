//! The event-ingestion pipeline.
//!
//! Tracked events flow through four stages: an auto-flusher that injects
//! periodic flush barriers, a batcher that groups events, a delivery stage
//! that posts batches and classifies failures, and a retry stage with
//! capped exponential backoff. The modules here hold the decision logic of
//! each stage; the embedding application runs the channels, timers and
//! HTTP transfers around them.

pub mod auto_flusher;
pub mod batched_message;
pub mod batcher;
pub mod context;
pub mod delivery;
pub mod event;
pub mod event_dispatcher;
pub mod queued_event;
pub mod retry;
pub mod sdk_key_decoder;
pub mod vec_event_queue;
