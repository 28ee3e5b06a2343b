//! The decisions of the polling loop: how long to sleep after a cycle so
//! that cycles start at a steady period, and whether to go on.

use vstd::prelude::*;

verus! {

/// The period between the starts of two cycles, in seconds; a failed
/// publication is retried after about as long.
pub const REFRESH_SECONDS: u64 = 20;

/// The period between the starts of two cycles, in milliseconds.
pub const REFRESH_PERIOD_MS: u64 = REFRESH_SECONDS * 1000;

/// What the loop does after a cycle.
#[derive(PartialEq, Eq, Structural, Clone, Copy, Debug)]
pub enum CycleDecision {
    /// A stop was asked for: leave the loop.
    Stop,
    /// Warn if the publication failed, sleep, then run the next cycle.
    Continue { warn_publish_failed: bool, sleep_ms: u64 },
}

/// The sleep that keeps the period: what is left of it after the cycle's own
/// time, or nothing where the cycle took the whole period or longer.
pub open spec fn sleep_spec(period_ms: u64, elapsed_ms: u64) -> u64 {
    if elapsed_ms < period_ms {
        (period_ms - elapsed_ms) as u64
    } else {
        0
    }
}

/// The decision after a cycle.
pub open spec fn decision_spec(stop_requested: bool, published: bool, elapsed_ms: u64) -> CycleDecision {
    if stop_requested {
        CycleDecision::Stop
    } else {
        CycleDecision::Continue {
            warn_publish_failed: !published,
            sleep_ms: sleep_spec(REFRESH_PERIOD_MS, elapsed_ms),
        }
    }
}

/// Computes the sleep after a cycle that took `elapsed_ms`.
pub fn sleep_duration(period_ms: u64, elapsed_ms: u64) -> (r: u64)
    ensures
        r == sleep_spec(period_ms, elapsed_ms),
{
    if elapsed_ms < period_ms {
        period_ms - elapsed_ms
    } else {
        0
    }
}

/// Decides what follows a cycle: a stop when one was asked for, else another
/// cycle after the sleep that keeps the period, with a warning when the
/// publication failed.
pub fn after_cycle(stop_requested: bool, published: bool, elapsed_ms: u64) -> (r: CycleDecision)
    ensures
        r == decision_spec(stop_requested, published, elapsed_ms),
{
    if stop_requested {
        CycleDecision::Stop
    } else {
        CycleDecision::Continue {
            warn_publish_failed: !published,
            sleep_ms: sleep_duration(REFRESH_PERIOD_MS, elapsed_ms),
        }
    }
}

/// The start of the next cycle is the period after the start of this one
/// whenever the cycle ends within the period; a cycle that overruns it is
/// followed at once.
pub proof fn lemma_cadence(period_ms: u64, elapsed_ms: u64)
    ensures
        elapsed_ms < period_ms ==> elapsed_ms + sleep_spec(period_ms, elapsed_ms) == period_ms,
        elapsed_ms >= period_ms ==> sleep_spec(period_ms, elapsed_ms) == 0,
{
}

/// A failed publication never ends the loop: unless a stop was asked for,
/// the next cycle runs, and it publishes again, whatever the outcome of this
/// one; the failure only adds a warning.
pub proof fn lemma_publish_failure_keeps_running(elapsed_ms: u64)
    ensures
        decision_spec(false, false, elapsed_ms) == (CycleDecision::Continue {
            warn_publish_failed: true,
            sleep_ms: sleep_spec(REFRESH_PERIOD_MS, elapsed_ms),
        }),
        decision_spec(false, true, elapsed_ms) == (CycleDecision::Continue {
            warn_publish_failed: false,
            sleep_ms: sleep_spec(REFRESH_PERIOD_MS, elapsed_ms),
        }),
{
}

} // verus!
