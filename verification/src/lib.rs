//! Deterministic core of a feature-flag and contextual-bandit evaluation SDK.
//!
//! The library evaluates versioned targeting configurations locally: it turns
//! `(flag_key, subject_key, attributes)` into a typed variation by walking
//! allocations, rules, splits and shards, optionally selects a bandit action,
//! and provides the decision logic of the configuration-polling and
//! event-ingestion pipelines. All wall-clock readings, HTTP transfers and
//! task scheduling are supplied by the embedding application; the functions
//! here are pure state transformers with verified contracts.

pub mod attributes;
pub mod bandits;
pub mod configuration;
pub mod configuration_fetcher;
pub mod configuration_store;
pub mod edge;
pub mod eval_assignment;
pub mod eval_bandits;
pub mod eval_details;
pub mod event_ingestion;
pub mod events;
pub mod laws;
pub mod numbers;
pub mod poller;
pub mod rules;
pub mod sharder;
pub mod text;
pub mod ufc;

pub use sharder::get_md5_shard;
