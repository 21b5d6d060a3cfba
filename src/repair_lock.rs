//! Process-wide counting permits that bound how many repairs run at once.
use vstd::prelude::*;

verus! {

/// Mathematical state of a permit pool.
pub struct RepairLockView {
    /// How many permits exist.
    pub capacity: u64,
    /// How many are held.
    pub in_use: u64,
}

/// No more permits are held than exist.
pub open spec fn lock_wf(l: RepairLockView) -> bool {
    l.in_use <= l.capacity
}

/// A pool after one acquisition attempt, and whether it succeeded.
pub open spec fn lock_acquire(l: RepairLockView) -> (RepairLockView, bool) {
    if l.in_use < l.capacity {
        (RepairLockView { in_use: (l.in_use + 1) as u64, ..l }, true)
    } else {
        (l, false)
    }
}

/// A pool after one permit came back; with none held it stays as it is.
pub open spec fn lock_release(l: RepairLockView) -> RepairLockView {
    if l.in_use > 0 {
        RepairLockView { in_use: (l.in_use - 1) as u64, ..l }
    } else {
        l
    }
}

/// A pool of repair permits shared by every synchronizer of a process.
///
/// Acquiring never blocks: it fails when every permit is held, and the caller
/// then tries again later.
pub struct RepairLockPool {
    capacity: u64,
    in_use: u64,
}

impl View for RepairLockPool {
    type V = RepairLockView;

    closed spec fn view(&self) -> RepairLockView {
        RepairLockView { capacity: self.capacity, in_use: self.in_use }
    }
}

impl RepairLockPool {
    /// A pool of `capacity` permits, none held.
    pub fn new(capacity: u64) -> (r: RepairLockPool)
        ensures
            r@ == (RepairLockView { capacity, in_use: 0 }),
            lock_wf(r@),
    {
        RepairLockPool { capacity, in_use: 0 }
    }

    /// How many permits exist.
    pub fn capacity(&self) -> (r: u64)
        ensures
            r == self@.capacity,
    {
        self.capacity
    }

    /// How many permits are held.
    pub fn in_use(&self) -> (r: u64)
        ensures
            r == self@.in_use,
    {
        self.in_use
    }

    /// Takes a permit if one is free; says whether it did.
    pub fn acquire_repair_lock(&mut self) -> (r: bool)
        requires
            lock_wf(old(self)@),
        ensures
            lock_wf(final(self)@),
            (final(self)@, r) == lock_acquire(old(self)@),
    {
        if self.in_use < self.capacity {
            self.in_use = self.in_use + 1;
            true
        } else {
            false
        }
    }

    /// Gives back one held permit.
    pub fn release_repair_lock(&mut self)
        requires
            lock_wf(old(self)@),
        ensures
            lock_wf(final(self)@),
            final(self)@ == lock_release(old(self)@),
    {
        if self.in_use > 0 {
            self.in_use = self.in_use - 1;
        }
    }
}

} // verus!
