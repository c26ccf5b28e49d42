//! The configuration poller's decision logic.
//!
//! The poller periodically fetches a configuration, publishes the first
//! success, and sleeps a jittered interval between attempts. The thread,
//! the timer and the HTTP transfer live in the embedding application; the
//! state machine here decides what each fetch outcome means and how long
//! the next sleep is. On a sticky authorization failure the poller exits
//! for good, and a caller waiting for the first configuration then waits
//! forever (callers supply their own timeout).

use vstd::prelude::*;

use crate::configuration_fetcher::FetchClass;

verus! {

/// Default time between polls, in milliseconds.
pub const DEFAULT_POLL_INTERVAL_MS: u64 = 30_000;

/// Default upper bound of the random subtraction from the interval, in
/// milliseconds.
pub const DEFAULT_POLL_JITTER_MS: u64 = 3_000;

/// The poller's state.
#[derive(Debug, Clone, Copy, PartialEq, Eq, Structural)]
pub struct PollerThread {
    pub interval_ms: u64,
    pub jitter_ms: u64,
    /// Whether a configuration has been published yet.
    pub has_configuration: bool,
    /// Whether the loop has exited (stopped by the user or unauthorized).
    pub stopped: bool,
    /// Whether the loop exited because the key was rejected.
    pub unauthorized: bool,
}

impl PollerThread {
    /// Starts a poller: nothing published, loop running.
    pub fn start(interval_ms: u64, jitter_ms: u64) -> (r: PollerThread)
        requires
            jitter_ms <= interval_ms,
        ensures
            r.interval_ms == interval_ms,
            r.jitter_ms == jitter_ms,
            !r.has_configuration,
            !r.stopped,
            !r.unauthorized,
    {
        PollerThread {
            interval_ms,
            jitter_ms,
            has_configuration: false,
            stopped: false,
            unauthorized: false,
        }
    }

    /// The sleep before the next poll, given a random draw: the interval
    /// shortened by at most the jitter — never negative, never longer
    /// than the interval.
    pub fn next_sleep_ms(&self, jitter_draw: u64) -> (r: u64)
        requires
            self.jitter_ms <= self.interval_ms,
        ensures
            r == self.interval_ms - (if self.jitter_ms > 0 {
                jitter_draw % self.jitter_ms
            } else {
                0
            }),
            r <= self.interval_ms,
            self.jitter_ms > 0 ==> self.interval_ms - self.jitter_ms < r,
    {
        let jitter = if self.jitter_ms > 0 {
            jitter_draw % self.jitter_ms
        } else {
            0
        };
        self.interval_ms - jitter
    }

    /// Acts on one fetch outcome: a success is published (and the first
    /// one completes `wait_for_configuration`); a retriable failure, a
    /// non-retriable one and an unusable base URL leave the state alone to
    /// try again next poll; an authorization failure ends the loop
    /// permanently. Returns whether the fetched snapshot is to be
    /// published to the store.
    pub fn on_fetch_outcome(&mut self, outcome: FetchClass) -> (publish: bool)
        ensures
            publish == (outcome == FetchClass::Success),
            final(self).has_configuration == (old(self).has_configuration || outcome
                == FetchClass::Success),
            final(self).stopped == (old(self).stopped || outcome == FetchClass::Unauthorized),
            final(self).unauthorized == (old(self).unauthorized || outcome
                == FetchClass::Unauthorized),
            final(self).interval_ms == old(self).interval_ms,
            final(self).jitter_ms == old(self).jitter_ms,
    {
        match outcome {
            FetchClass::Success => {
                self.has_configuration = true;
                true
            },
            FetchClass::Unauthorized => {
                self.stopped = true;
                self.unauthorized = true;
                false
            },
            FetchClass::NonRetriable | FetchClass::Retriable | FetchClass::InvalidBaseUrl => false,
        }
    }

    /// Whether the first configuration has been published: what a blocked
    /// `wait_for_configuration` call observes when it wakes.
    pub fn wait_for_configuration(&self) -> (r: bool)
        ensures
            r == self.has_configuration,
    {
        self.has_configuration
    }

    /// Stops the poller without waiting for the loop to exit.
    pub fn stop(&mut self)
        ensures
            final(self).stopped,
            final(self).has_configuration == old(self).has_configuration,
            final(self).unauthorized == old(self).unauthorized,
            final(self).interval_ms == old(self).interval_ms,
            final(self).jitter_ms == old(self).jitter_ms,
    {
        self.stopped = true;
    }

    /// Stops the poller; the embedding application then joins the thread.
    pub fn shutdown(&mut self)
        ensures
            final(self).stopped,
            final(self).has_configuration == old(self).has_configuration,
            final(self).unauthorized == old(self).unauthorized,
            final(self).interval_ms == old(self).interval_ms,
            final(self).jitter_ms == old(self).jitter_ms,
    {
        self.stop();
    }
}

} // verus!
