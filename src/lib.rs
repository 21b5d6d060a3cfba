//! Reconciliation logic of a storage node's segment synchronizer.
//!
//! The synchronizer observes committed metadata events of one segment replica
//! and decides which fragments its local device must delete, which versions
//! must be prepared for repair and repaired, and which fragments a full sweep
//! removes. Every decision is a verified step function over plain values; the
//! caller performs the device, timer and network work that a decision asks for
//! and reports back how it ended.
use vstd::prelude::*;

pub mod capacity;
pub mod event;
pub mod general_queue;
pub mod lump;
pub mod metrics;
pub mod repair_lock;
pub mod repair_queue;
pub mod segment_gc;
pub mod service;
pub mod synchronizer;
pub mod todo;
pub mod version;
