//! The cooperative epoch-deadline model: a per-engine counter advanced by
//! a background ticker at a fixed cadence, and a per-run deadline of one
//! past the counter at run start. A guest that never yields is preempted
//! as soon as the counter passes its deadline, so its unresponsiveness is
//! bounded by one tick interval plus scheduling slack; the wall-clock
//! budget enforced around the run is a separate, outer limit.

use vstd::prelude::*;

use crate::WorkerError;

verus! {

/// The engine-wide epoch counter.
#[derive(Clone, Copy, Debug, PartialEq, Eq, Structural)]
pub struct EpochClock {
    pub now: u64,
}

/// One run's deadline against the epoch clock.
#[derive(Clone, Copy, Debug, PartialEq, Eq, Structural)]
pub struct RunDeadline {
    pub deadline: u64,
}

/// What the background ticker does on each wakeup.
#[derive(Clone, Copy, Debug, PartialEq, Eq, Structural)]
pub enum TickerAction {
    /// Advance the engine's epoch counter.
    AdvanceEpoch,
    /// The stream is gone: stop ticking.
    Stop,
}

impl EpochClock {
    /// A fresh engine counter.
    pub fn new() -> (c: EpochClock)
        ensures
            c.now == 0,
    {
        EpochClock { now: 0 }
    }

    /// One tick of the background cadence.
    pub fn tick(&mut self)
        requires
            old(self).now < u64::MAX,
        ensures
            final(self).now == old(self).now + 1,
    {
        self.now = self.now + 1;
    }
}

impl RunDeadline {
    /// The deadline a run arms at start: one past the counter, so the
    /// next tick after start preempts it.
    pub fn for_run(clock: &EpochClock) -> (d: RunDeadline)
        requires
            clock.now < u64::MAX,
        ensures
            d.deadline == clock.now + 1,
    {
        RunDeadline { deadline: clock.now + 1 }
    }

    /// Whether the counter has reached this run's deadline: the check the
    /// sandbox makes at every cooperative yield point.
    pub fn expired(&self, clock: &EpochClock) -> (r: bool)
        ensures
            r == (clock.now >= self.deadline),
    {
        clock.now >= self.deadline
    }

    /// The deadline check as the run's caller sees it: an expired
    /// deadline is a deadline trap, never an unbounded hang.
    pub fn check(&self, clock: &EpochClock) -> (r: Result<(), WorkerError>)
        ensures
            r == if clock.now >= self.deadline {
                Result::<(), WorkerError>::Err(WorkerError::Trap)
            } else {
                Result::<(), WorkerError>::Ok(())
            },
    {
        if clock.now >= self.deadline {
            Err(WorkerError::Trap)
        } else {
            Ok(())
        }
    }
}

/// The ticker's decision: advance the counter until the stream it is
/// bound to signals shutdown, then stop.
pub fn ticker_step(stop_requested: bool) -> (a: TickerAction)
    ensures
        a == if stop_requested {
            TickerAction::Stop
        } else {
            TickerAction::AdvanceEpoch
        },
{
    if stop_requested {
        TickerAction::Stop
    } else {
        TickerAction::AdvanceEpoch
    }
}

/// A guest that never yields control is force-preempted within one
/// epoch-tick interval: a deadline armed when the counter stood at
/// `c0.now` has expired under every later counter value that one or more
/// ticks produce.
pub proof fn lemma_one_tick_preempts(d: RunDeadline, c0: EpochClock, c1: EpochClock)
    requires
        d.deadline == c0.now + 1,
        c1.now >= c0.now + 1,
    ensures
        c1.now >= d.deadline,
{
}

} // verus!
