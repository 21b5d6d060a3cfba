use frugalos_sync::capacity::{should_shrink, shrink_deque_if_sparse, shrink_if_sparse};
use std::collections::VecDeque;

#[test]
fn sparse_vector_gives_memory_back() {
    let mut v: Vec<u64> = Vec::with_capacity(100);
    v.push(7);
    shrink_if_sparse(&mut v);
    assert_eq!(v, vec![7]);
    assert!(v.capacity() < 100);
}

#[test]
fn small_or_dense_vector_keeps_its_memory() {
    let mut small: Vec<u64> = Vec::with_capacity(32);
    small.push(1);
    shrink_if_sparse(&mut small);
    assert!(small.capacity() >= 32);
    let mut dense: Vec<u64> = Vec::with_capacity(64);
    dense.extend(0..40);
    let before = dense.capacity();
    shrink_if_sparse(&mut dense);
    assert_eq!(dense.capacity(), before);
    assert_eq!(dense, (0..40).collect::<Vec<u64>>());
}

#[test]
fn sparse_deque_gives_memory_back() {
    let mut d: VecDeque<u64> = VecDeque::with_capacity(100);
    d.push_back(3);
    d.push_back(4);
    shrink_deque_if_sparse(&mut d);
    assert_eq!(d, VecDeque::from(vec![3, 4]));
    assert!(d.capacity() < 100);
}

#[test]
fn shrink_decision_follows_capacity_and_length() {
    assert!(should_shrink(64, 31));
    assert!(!should_shrink(64, 32));
    assert!(!should_shrink(32, 0));
    assert!(should_shrink(33, 15));
    assert!(!should_shrink(33, 16));
}
