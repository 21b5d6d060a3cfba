//! Returning memory of queues that have shrunk.
use vstd::prelude::*;

use std::collections::VecDeque;

verus! {

/// A queue keeps its allocation up to this capacity however empty it gets.
pub const SHRINK_MIN_CAPACITY: usize = 32;

/// Relies on `Vec::capacity`: the capacity is never below the length.
#[verifier::external_body]
fn vec_capacity<T>(v: &Vec<T>) -> (r: usize)
    ensures
        r >= v@.len(),
{
    v.capacity()
}

/// Relies on `Vec::shrink_to_fit`: the elements stay as they are.
#[verifier::external_body]
fn vec_shrink_to_fit<T>(v: &mut Vec<T>)
    ensures
        final(v)@ == old(v)@,
{
    v.shrink_to_fit()
}

/// Relies on `VecDeque::capacity`: the capacity is never below the length.
#[verifier::external_body]
fn deque_capacity<T>(v: &VecDeque<T>) -> (r: usize)
    ensures
        r >= v@.len(),
{
    v.capacity()
}

/// Relies on `VecDeque::shrink_to_fit`: the elements stay as they are.
#[verifier::external_body]
fn deque_shrink_to_fit<T>(v: &mut VecDeque<T>)
    ensures
        final(v)@ == old(v)@,
{
    v.shrink_to_fit()
}

/// A queue of capacity `capacity` holding `len` items should give memory back:
/// its capacity exceeds `SHRINK_MIN_CAPACITY` and it is less than half full.
pub fn should_shrink(capacity: usize, len: usize) -> (r: bool)
    ensures
        r == (capacity > SHRINK_MIN_CAPACITY && len < capacity / 2),
{
    capacity > SHRINK_MIN_CAPACITY && len < capacity / 2
}

/// Shrinks `v` when its capacity exceeds `SHRINK_MIN_CAPACITY` and its length
/// is below half of it; the elements stay as they are.
pub fn shrink_if_sparse<T>(v: &mut Vec<T>)
    ensures
        final(v)@ == old(v)@,
{
    if should_shrink(vec_capacity(v), v.len()) {
        vec_shrink_to_fit(v);
    }
}

/// Shrinks `v` when its capacity exceeds `SHRINK_MIN_CAPACITY` and its length
/// is below half of it; the elements stay as they are.
pub fn shrink_deque_if_sparse<T>(v: &mut VecDeque<T>)
    ensures
        final(v)@ == old(v)@,
{
    if should_shrink(deque_capacity(v), v.len()) {
        deque_shrink_to_fit(v);
    }
}

} // verus!
