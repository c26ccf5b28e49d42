//! An event accepted for ingestion.

use vstd::prelude::*;

use crate::ufc::Timestamp;

verus! {

/// One tracked event. The identifier is a 128-bit UUID value; the payload
/// is carried as its JSON source text and never inspected by the pipeline.
#[derive(Debug, Clone, PartialEq)]
pub struct Event {
    pub uuid: u128,
    pub timestamp: Timestamp,
    pub event_type: String,
    pub payload: String,
}

} // verus!
