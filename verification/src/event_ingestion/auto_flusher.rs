//! The auto-flushing stage.
//!
//! The auto-flusher forwards messages unchanged and makes sure a flush
//! barrier passes at least once every `period`: whenever no barrier has
//! been seen for that long, it injects an empty one. Its decision state is
//! either idle (the last message through was a barrier, no timer runs) or
//! armed with the deadline at which to inject.

use vstd::prelude::*;

verus! {

/// The auto-flusher's timer state.
#[derive(Debug, Clone, Copy, PartialEq, Eq, Structural)]
pub enum FlusherTimer {
    /// The last message through was a flush barrier; no timer runs.
    Idle,
    /// A flush barrier must pass no later than the held instant.
    Armed(i64),
}

/// The auto-flushing stage's state.
#[derive(Debug, Clone, Copy, PartialEq, Eq, Structural)]
pub struct AutoFlusher {
    /// Longest time the downstream may go without a flush barrier, in
    /// milliseconds.
    pub period: i64,
    pub timer: FlusherTimer,
}

impl AutoFlusher {
    /// A fresh stage: idle until the first ordinary message arrives.
    pub fn new(period: i64) -> (r: AutoFlusher)
        requires
            period >= 0,
        ensures
            r.period == period,
            r.timer == FlusherTimer::Idle,
    {
        AutoFlusher { period, timer: FlusherTimer::Idle }
    }

    /// A message passes through at time `now`. A barrier disarms the
    /// timer; an ordinary message arms it when idle and leaves a running
    /// timer untouched.
    pub fn on_message(&mut self, carries_flush: bool, now: i64)
        requires
            old(self).period >= 0,
            now + old(self).period <= i64::MAX,
        ensures
            final(self).period == old(self).period,
            final(self).timer == if carries_flush {
                FlusherTimer::Idle
            } else {
                match old(self).timer {
                    FlusherTimer::Idle => FlusherTimer::Armed((now + old(self).period) as i64),
                    FlusherTimer::Armed(t) => FlusherTimer::Armed(t),
                }
            },
    {
        if carries_flush {
            self.timer = FlusherTimer::Idle;
        } else {
            match self.timer {
                FlusherTimer::Idle => {
                    self.timer = FlusherTimer::Armed(now + self.period);
                },
                FlusherTimer::Armed(_) => {},
            }
        }
    }

    /// The armed deadline has been reached: an empty flush barrier is to
    /// be injected downstream, and the timer disarms until the next
    /// ordinary message.
    pub fn on_deadline(&mut self) -> (inject_flush: bool)
        ensures
            final(self).period == old(self).period,
            final(self).timer == FlusherTimer::Idle,
            inject_flush == (old(self).timer is Armed),
    {
        let was_armed = match self.timer {
            FlusherTimer::Armed(_) => true,
            FlusherTimer::Idle => false,
        };
        self.timer = FlusherTimer::Idle;
        was_armed
    }
}

} // verus!
