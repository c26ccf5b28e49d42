//! The retry stage's decision logic.
//!
//! Retry candidates wait `base_retry_delay * 2^(attempts - 1)` before
//! re-entering the delivery stage, and never longer than
//! `max_retry_delay`.

use vstd::prelude::*;

use crate::event_ingestion::queued_event::QueuedEvent;

verus! {

/// A batch whose processing has finished: every event either succeeded,
/// failed terminally, or goes back for another delivery attempt.
#[derive(Debug, Clone, PartialEq)]
pub struct FinishedBatch {
    pub success: Vec<QueuedEvent>,
    pub failure: Vec<QueuedEvent>,
    pub retry: Vec<QueuedEvent>,
}

impl FinishedBatch {
    /// A batch with nothing in it.
    pub fn empty() -> (r: FinishedBatch)
        ensures
            r.success@.len() == 0,
            r.failure@.len() == 0,
            r.retry@.len() == 0,
    {
        FinishedBatch { success: Vec::new(), failure: Vec::new(), retry: Vec::new() }
    }

    /// A batch that is entirely retried.
    pub fn with_retry(retry: Vec<QueuedEvent>) -> (r: FinishedBatch)
        ensures
            r.retry == retry,
            r.success@.len() == 0,
            r.failure@.len() == 0,
    {
        FinishedBatch { success: Vec::new(), failure: Vec::new(), retry }
    }

    /// A batch that failed terminally.
    pub fn with_failure(failure: Vec<QueuedEvent>) -> (r: FinishedBatch)
        ensures
            r.failure == failure,
            r.success@.len() == 0,
            r.retry@.len() == 0,
    {
        FinishedBatch { success: Vec::new(), failure, retry: Vec::new() }
    }
}

/// Two to the `n`.
pub open spec fn pow2(n: nat) -> int
    decreases n,
{
    if n == 0 {
        1
    } else {
        2 * pow2((n - 1) as nat)
    }
}

/// The backoff before retry attempt `attempts` (counted from one):
/// `base * 2^(attempts - 1)`, capped at `max_delay`.
pub open spec fn backoff(base: u64, max_delay: u64, attempts: u8) -> int {
    let uncapped = base * pow2((attempts - 1) as nat);
    if uncapped > max_delay {
        max_delay as int
    } else {
        uncapped
    }
}

/// Computes the wait before a retry attempt. The result never exceeds
/// `max_delay`.
pub fn retry_delay(base: u64, max_delay: u64, attempts: u8) -> (r: u64)
    requires
        attempts >= 1,
    ensures
        r == backoff(base, max_delay, attempts),
        r <= max_delay,
{
    let mut delay: u64 = base;
    let mut k: u8 = 1;
    if delay > max_delay {
        proof {
            assert(pow2((attempts - 1) as nat) >= 1) by {
                lemma_pow2_ge_one((attempts - 1) as nat);
            }
            vstd::arithmetic::mul::lemma_mul_inequality(
                1,
                pow2((attempts - 1) as nat),
                base as int,
            );
            vstd::arithmetic::mul::lemma_mul_is_commutative(base as int, pow2((attempts - 1) as nat));
        }
        return max_delay;
    }
    while k < attempts
        invariant
            1 <= k <= attempts,
            delay == base * pow2((k - 1) as nat),
            delay <= max_delay,
        decreases attempts - k,
    {
        proof {
            assert(pow2(k as nat) == 2 * pow2((k - 1) as nat));
            vstd::arithmetic::mul::lemma_mul_is_associative(2, base as int, pow2((k - 1) as nat));
            vstd::arithmetic::mul::lemma_mul_is_associative(base as int, 2, pow2((k - 1) as nat));
            vstd::arithmetic::mul::lemma_mul_is_commutative(base as int, 2);
            vstd::arithmetic::mul::lemma_mul_is_commutative(base as int, pow2(k as nat));
            assert(base * pow2(k as nat) == 2 * delay);
            vstd::arithmetic::div_mod::lemma_fundamental_div_mod(max_delay as int, 2);
        }
        if delay > max_delay / 2 {
            // doubling any further saturates the cap
            proof {
                lemma_backoff_monotone(base as int, k as nat, (attempts - 1) as nat);
            }
            return max_delay;
        }
        delay = delay * 2;
        k = k + 1;
    }
    delay
}

proof fn lemma_pow2_ge_one(n: nat)
    ensures
        pow2(n) >= 1,
    decreases n,
{
    if n > 0 {
        lemma_pow2_ge_one((n - 1) as nat);
    }
}

/// Backoff grows with the attempt count (before capping).
proof fn lemma_backoff_monotone(base: int, a: nat, b: nat)
    requires
        a <= b,
        base >= 0,
    ensures
        base * pow2(a) <= base * pow2(b),
    decreases b,
{
    if a < b {
        lemma_backoff_monotone(base, a, (b - 1) as nat);
        lemma_pow2_ge_one((b - 1) as nat);
        vstd::arithmetic::mul::lemma_mul_inequality(pow2((b - 1) as nat), pow2(b), base);
        vstd::arithmetic::mul::lemma_mul_is_commutative(base, pow2((b - 1) as nat));
        vstd::arithmetic::mul::lemma_mul_is_commutative(base, pow2(b));
    }
}

} // verus!
