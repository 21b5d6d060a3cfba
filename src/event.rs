//! Committed metadata events that drive the synchronizer.
use vstd::prelude::*;

use crate::version::ObjectVersion;

verus! {

/// One entry of a state-machine snapshot: an object id and its current version.
#[derive(Clone, Debug)]
pub struct MachineEntry {
    pub id: String,
    pub version: ObjectVersion,
}

/// An event emitted by the segment's state machine when it commits a log entry.
#[derive(Clone, Debug)]
pub enum Event {
    /// An object was stored under `version`; its payload may still be on its way
    /// for `put_content_timeout` seconds.
    Putted { version: ObjectVersion, put_content_timeout: u64 },
    /// The object stored under `version` was deleted.
    Deleted { version: ObjectVersion },
    /// A snapshot of the state machine, valid for every version below `next_commit`.
    FullSync { machine: Vec<MachineEntry>, next_commit: u64 },
}

/// The versions that a state-machine snapshot refers to.
pub open spec fn snapshot_versions(machine: Seq<MachineEntry>) -> Set<u64> {
    Set::new(|v: u64| exists|i: int| 0 <= i < machine.len() && #[trigger] machine[i].version.0 == v)
}

} // verus!
