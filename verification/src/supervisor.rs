//! Reconnect supervision: the capped exponential backoff schedule.
//!
//! The supervisor owns one upstream connection at a time.  Each attempt ends
//! in one of two ways: a clean close (the upstream finished the stream) or a
//! failure (connect, send or read error).  Before the next attempt the caller
//! sleeps for the delay this module computes: failures double the delay up to
//! a cap, a clean close resets it to the floor.  The sleeping itself is I/O
//! and stays outside the library; this module holds the decision logic.

use vstd::prelude::*;

verus! {

/// Smallest delay before a reconnect attempt, in seconds.
pub const BACKOFF_FLOOR_SECS: u64 = 1;

/// Largest delay before a reconnect attempt, in seconds.
pub const BACKOFF_CAP_SECS: u64 = 30;

/// How one connection attempt ended.
#[derive(Clone, Copy)]
pub enum StreamOutcome {
    /// The upstream closed the stream without an error.
    CleanClose,
    /// Connecting, subscribing or reading failed.
    Failed,
}

/// The delay (seconds) to sleep after an attempt that ended as `outcome`,
/// when the stored backoff was `backoff_secs`.
pub open spec fn retry_delay(backoff_secs: u64, outcome: StreamOutcome) -> u64 {
    match outcome {
        StreamOutcome::CleanClose => BACKOFF_FLOOR_SECS,
        StreamOutcome::Failed => backoff_secs,
    }
}

/// The backoff stored for the attempt after one that slept `delay` seconds:
/// doubled, capped at `BACKOFF_CAP_SECS`.
pub open spec fn next_backoff(delay: u64) -> u64 {
    if 2 * delay <= BACKOFF_CAP_SECS {
        (2 * delay) as u64
    } else {
        BACKOFF_CAP_SECS
    }
}

/// The reconnect state machine: all it carries between attempts is the
/// backoff to use if the next attempt fails.
pub struct StreamSupervisor {
    pub backoff_secs: u64,
}

impl StreamSupervisor {
    pub open spec fn wf(self) -> bool {
        BACKOFF_FLOOR_SECS <= self.backoff_secs <= BACKOFF_CAP_SECS
    }

    /// A fresh supervisor starts at the backoff floor.
    pub fn new() -> (s: Self)
        ensures
            s.wf(),
            s.backoff_secs == BACKOFF_FLOOR_SECS,
    {
        StreamSupervisor { backoff_secs: BACKOFF_FLOOR_SECS }
    }

    /// Record how the current attempt ended and return the delay to sleep
    /// before the next one.  A clean close resets the delay to the floor; a
    /// failure sleeps the stored backoff.  Either way the stored backoff for
    /// the attempt after next doubles from the returned delay, capped.
    pub fn on_disconnect(&mut self, outcome: StreamOutcome) -> (delay: u64)
        requires
            old(self).wf(),
        ensures
            final(self).wf(),
            delay == retry_delay(old(self).backoff_secs, outcome),
            final(self).backoff_secs == next_backoff(delay),
    {
        let delay: u64 = match outcome {
            StreamOutcome::CleanClose => BACKOFF_FLOOR_SECS,
            StreamOutcome::Failed => self.backoff_secs,
        };
        let doubled: u64 = 2 * delay;
        self.backoff_secs = if doubled <= BACKOFF_CAP_SECS {
            doubled
        } else {
            BACKOFF_CAP_SECS
        };
        delay
    }
}

/// The backoff stored after `k` consecutive failures, starting fresh.
pub open spec fn backoff_after_failures(k: nat) -> u64
    decreases k,
{
    if k == 0 {
        BACKOFF_FLOOR_SECS
    } else {
        next_backoff(retry_delay(backoff_after_failures((k - 1) as nat), StreamOutcome::Failed))
    }
}

/// `2^k` as a mathematical integer.
pub open spec fn pow2(k: nat) -> nat
    decreases k,
{
    if k == 0 {
        1
    } else {
        2 * pow2((k - 1) as nat)
    }
}

/// On consecutive failures the delays slept are 1, 2, 4, 8, 16, 30, 30, ...
/// seconds: the delay of failure number `k` (counting from zero) doubles
/// until it reaches the 30-second cap and stays there.
pub proof fn lemma_backoff_schedule(k: nat)
    ensures
        backoff_after_failures(k) == if k < 5 {
            pow2(k) as u64
        } else {
            BACKOFF_CAP_SECS
        },
    decreases k,
{
    reveal_with_fuel(pow2, 6);
    if k > 0 {
        lemma_backoff_schedule((k - 1) as nat);
    }
}

/// A clean close always resets the next delay to the one-second floor, no
/// matter how large the backoff had grown.
pub proof fn lemma_clean_close_resets(backoff_secs: u64)
    ensures
        retry_delay(backoff_secs, StreamOutcome::CleanClose) == BACKOFF_FLOOR_SECS,
{
}

} // verus!
