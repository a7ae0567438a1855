//! Sampling loop arithmetic. The loop itself ticks once a second, builds one
//! command per tick and hands it to the delivery queue; what is verified here
//! is the self-correcting sleep computation the cadence rests on.

use crate::codec::CollectorCommand;
use vstd::prelude::*;

verus! {

/// Target time between tick starts, in milliseconds.
pub const SAMPLE_PERIOD_MS: u64 = 1000;

/// How long to sleep after a tick whose processing took `elapsed_ms`: the
/// remainder of the period, and nothing when processing already overran it.
pub open spec fn spec_sleep_ms(elapsed_ms: int, period_ms: int) -> int {
    if elapsed_ms < period_ms {
        period_ms - elapsed_ms
    } else {
        0
    }
}

/// Computes the sleep that keeps the tick rate at one tick per period.
pub fn sleep_duration_ms(elapsed_ms: u64, period_ms: u64) -> (r: u64)
    ensures
        r == spec_sleep_ms(elapsed_ms as int, period_ms as int),
{
    if elapsed_ms < period_ms {
        period_ms - elapsed_ms
    } else {
        0
    }
}

/// Sampling cadence: whenever a tick's processing takes no longer than the
/// period, sleeping for the computed remainder starts the next tick exactly
/// one period after this one — the loop self-corrects for processing latency
/// instead of drifting by it.
pub proof fn lemma_cadence_self_corrects(tick_start: int, elapsed_ms: int, period_ms: int)
    requires
        0 <= elapsed_ms <= period_ms,
    ensures
        tick_start + elapsed_ms + spec_sleep_ms(elapsed_ms, period_ms) == tick_start + period_ms,
{
}

/// Builds the one command a tick reports: the sampled memory totals and the
/// bit pattern of the averaged CPU percentage, under this agent's identity.
pub fn make_sample(
    collector_id: u128,
    total_memory: u64,
    used_memory: u64,
    average_cpu_bits: u32,
) -> (c: CollectorCommand)
    ensures
        c == (CollectorCommand::SubmitData {
            collector_id,
            total_memory,
            used_memory,
            average_cpu_bits,
        }),
{
    CollectorCommand::SubmitData { collector_id, total_memory, used_memory, average_cpu_bits }
}

} // verus!
