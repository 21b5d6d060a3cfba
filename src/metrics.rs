//! Monotonic counters kept by the executors, for export as metrics.
use vstd::prelude::*;

verus! {

/// `c` raised by `n`, held at `u64::MAX` rather than wrapping.
pub open spec fn count_up(c: u64, n: u64) -> u64 {
    if c + n > u64::MAX {
        u64::MAX
    } else {
        (c + n) as u64
    }
}

/// Raises counter `c` by `n`.
pub fn add_count(c: u64, n: u64) -> (r: u64)
    ensures
        r == count_up(c, n),
{
    c.saturating_add(n)
}

/// Items put into and taken out of the general queue's two queues.
#[derive(Clone, Copy, Debug, PartialEq, Eq, Structural)]
pub struct QueueCounters {
    pub enqueued_repair: u64,
    pub enqueued_delete: u64,
    pub dequeued_repair: u64,
    pub dequeued_delete: u64,
}

/// All counts at zero.
pub open spec fn zero_counters() -> QueueCounters {
    QueueCounters { enqueued_repair: 0, enqueued_delete: 0, dequeued_repair: 0, dequeued_delete: 0 }
}

} // verus!
