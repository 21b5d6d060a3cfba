use frugalos_sync::repair_lock::RepairLockPool;
use frugalos_sync::repair_queue::RepairQueueExecutor;
use frugalos_sync::todo::Task;
use frugalos_sync::version::{ObjectVersion, RepairIdleness};

#[test]
fn repairs_pop_smallest_version_first() {
    let mut q = RepairQueueExecutor::new(0);
    q.push(ObjectVersion(5));
    q.push(ObjectVersion(3));
    q.push(ObjectVersion(4));
    assert_eq!(q.pop(), Some(ObjectVersion(3)));
    assert_eq!(q.pop(), Some(ObjectVersion(4)));
    assert_eq!(q.pop(), Some(ObjectVersion(5)));
    assert_eq!(q.pop(), None);
}

#[test]
fn repairs_start_in_ascending_order() {
    let mut q = RepairQueueExecutor::new(0);
    let mut locks = RepairLockPool::new(1);
    q.set_repair_idleness_threshold(RepairIdleness::Threshold(0));
    q.push(ObjectVersion(5));
    q.push(ObjectVersion(3));
    q.poll(false, true, 0, &mut locks);
    assert!(matches!(q.task(), Task::Repair { version: ObjectVersion(3) }));
    q.poll(true, true, 10, &mut locks);
    assert!(matches!(q.task(), Task::Repair { version: ObjectVersion(5) }));
    q.poll(true, true, 20, &mut locks);
    assert!(matches!(q.task(), Task::Idle));
    assert_eq!(locks.in_use(), 0);
}

#[test]
fn disabled_policy_starts_nothing() {
    let mut q = RepairQueueExecutor::new(0);
    let mut locks = RepairLockPool::new(1);
    q.push(ObjectVersion(1));
    q.poll(false, true, 1_000_000, &mut locks);
    assert!(matches!(q.task(), Task::Idle));
    assert_eq!(q.repair_idleness_threshold(), RepairIdleness::Disabled);
    assert_eq!(locks.in_use(), 0);
}

#[test]
fn idleness_gate_delays_repairs() {
    let t = 10_000;
    let mut q = RepairQueueExecutor::new(t);
    let mut locks = RepairLockPool::new(1);
    q.set_repair_idleness_threshold(RepairIdleness::Threshold(2_000));
    q.push(ObjectVersion(7));
    q.push(ObjectVersion(8));
    q.poll(false, true, t, &mut locks);
    assert!(matches!(q.task(), Task::Idle));
    q.poll(false, true, t + 1_999, &mut locks);
    assert!(matches!(q.task(), Task::Idle));
    q.poll(false, true, t + 2_000, &mut locks);
    assert!(matches!(q.task(), Task::Repair { version: ObjectVersion(7) }));
    q.poll(false, true, t + 3_000, &mut locks);
    assert!(matches!(q.task(), Task::Repair { version: ObjectVersion(7) }));
    q.poll(true, true, t + 4_000, &mut locks);
    assert!(matches!(q.task(), Task::Idle));
    q.poll(false, true, t + 5_999, &mut locks);
    assert!(matches!(q.task(), Task::Idle));
    q.poll(false, true, t + 6_000, &mut locks);
    assert!(matches!(q.task(), Task::Repair { version: ObjectVersion(8) }));
}

#[test]
fn global_lock_lets_one_repair_run() {
    let mut locks = RepairLockPool::new(1);
    let mut a = RepairQueueExecutor::new(0);
    let mut b = RepairQueueExecutor::new(0);
    a.set_repair_idleness_threshold(RepairIdleness::Threshold(0));
    b.set_repair_idleness_threshold(RepairIdleness::Threshold(0));
    a.push(ObjectVersion(4));
    b.push(ObjectVersion(4));
    a.poll(false, true, 0, &mut locks);
    b.poll(false, true, 0, &mut locks);
    assert!(matches!(a.task(), Task::Repair { version: ObjectVersion(4) }));
    assert!(matches!(b.task(), Task::Idle));
    assert_eq!(locks.in_use(), 1);
    b.poll(false, true, 5, &mut locks);
    assert!(matches!(b.task(), Task::Idle));
    a.poll(true, true, 10, &mut locks);
    assert!(matches!(a.task(), Task::Idle));
    assert_eq!(locks.in_use(), 0);
    b.poll(false, true, 10, &mut locks);
    assert!(matches!(b.task(), Task::Repair { version: ObjectVersion(4) }));
    assert_eq!(locks.in_use(), 1);
    assert!(locks.in_use() <= locks.capacity());
}

#[test]
fn lock_pool_counts_permits() {
    let mut locks = RepairLockPool::new(2);
    assert!(locks.acquire_repair_lock());
    assert!(locks.acquire_repair_lock());
    assert!(!locks.acquire_repair_lock());
    assert_eq!(locks.in_use(), 2);
    locks.release_repair_lock();
    assert_eq!(locks.in_use(), 1);
    assert!(locks.acquire_repair_lock());
    locks.release_repair_lock();
    locks.release_repair_lock();
    locks.release_repair_lock();
    assert_eq!(locks.in_use(), 0);
}

#[test]
fn failed_repairs_are_counted() {
    let mut q = RepairQueueExecutor::new(0);
    let mut locks = RepairLockPool::new(1);
    q.set_repair_idleness_threshold(RepairIdleness::Threshold(0));
    q.push(ObjectVersion(1));
    q.push(ObjectVersion(2));
    q.poll(false, false, 0, &mut locks);
    assert_eq!(q.failures(), 0);
    q.poll(true, false, 1, &mut locks);
    assert_eq!(q.failures(), 1);
    assert!(matches!(q.task(), Task::Repair { version: ObjectVersion(2) }));
    q.poll(true, true, 2, &mut locks);
    assert_eq!(q.failures(), 1);
    q.poll(true, false, 3, &mut locks);
    assert_eq!(q.failures(), 1);
}
