//! Object versions, time values and the repair admission policy.
//!
//! Instants and durations are whole milliseconds: an instant counts from a
//! fixed origin chosen by the caller (the Unix epoch for wall-clock values).
use vstd::prelude::*;

verus! {

/// Version of an object, assigned by the segment's state machine at commit time.
#[derive(Clone, Copy, Debug, PartialEq, Eq, Hash, PartialOrd, Ord, Structural)]
pub struct ObjectVersion(pub u64);

/// Milliseconds in one second.
pub const MILLIS_PER_SECOND: u64 = 1000;

/// When repairs may start.
#[derive(Clone, Copy, Debug, PartialEq, Eq, Structural)]
pub enum RepairIdleness {
    /// No new repair starts.
    Disabled,
    /// A repair starts only after no repair has run for this many milliseconds.
    Threshold(u64),
}

} // verus!
