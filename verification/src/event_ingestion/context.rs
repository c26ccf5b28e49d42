//! Validation of ingestion-context values.
//!
//! Callers may attach a context delivered with every ingestion request.
//! Context values are restricted to strings, numbers, booleans and null;
//! objects and arrays are rejected when attached.

use vstd::prelude::*;

verus! {

/// Why a context value was rejected.
#[derive(Debug, Clone, Copy, PartialEq, Eq, Structural)]
pub enum ContextError {
    /// The value is a JSON object or array.
    InvalidContextValueType,
}

/// The shape of a JSON value offered as a context value.
#[derive(Debug, Clone, Copy, PartialEq, Eq, Structural)]
pub enum ContextValueKind {
    String,
    Number,
    Boolean,
    Null,
    Object,
    Array,
}

/// Accepts primitive context values and rejects objects and arrays.
pub fn validate_context_value(kind: ContextValueKind) -> (r: Result<(), ContextError>)
    ensures
        r is Err <==> (kind == ContextValueKind::Object || kind == ContextValueKind::Array),
        r is Err ==> r == Err::<(), ContextError>(ContextError::InvalidContextValueType),
{
    match kind {
        ContextValueKind::Object | ContextValueKind::Array => Err(
            ContextError::InvalidContextValueType,
        ),
        _ => Ok(()),
    }
}

} // verus!
