use frugalos_sync::event::{Event, MachineEntry};
use frugalos_sync::lump::{LocalNodeId, LumpId};
use frugalos_sync::repair_lock::RepairLockPool;
use frugalos_sync::synchronizer::Synchronizer;
use frugalos_sync::todo::Task;
use frugalos_sync::version::{ObjectVersion, RepairIdleness};

const NODE: LocalNodeId = LocalNodeId(0x0a0b0c);

fn full_sync(next_commit: u64) -> Event {
    Event::FullSync {
        machine: vec![
            MachineEntry { id: "a".to_owned(), version: ObjectVersion(5) },
            MachineEntry { id: "b".to_owned(), version: ObjectVersion(9) },
        ],
        next_commit,
    }
}

#[test]
fn synchronizer_deletes_a_put_deleted_before_repair() {
    let mut sync = Synchronizer::new(NODE, false, 10, 0);
    let mut locks = RepairLockPool::new(1);
    sync.set_repair_idleness_threshold(RepairIdleness::Threshold(0));
    sync.handle_event(&Event::Putted { version: ObjectVersion(10), put_content_timeout: 30 }, 0);
    sync.handle_event(&Event::Deleted { version: ObjectVersion(10) }, 1_000);
    sync.poll(false, false, false, true, 2_000, &mut locks);
    match sync.general_task() {
        Task::Delete { versions } => {
            assert_eq!(versions, &vec![ObjectVersion(10)]);
            let id = LumpId::content(NODE, versions[0]);
            assert_eq!(id.0, (1u128 << 120) | (0x0a0b0cu128 << 64) | 10);
        },
        _ => panic!("expected a deletion"),
    }
    sync.poll(true, false, false, true, 3_000, &mut locks);
    assert!(matches!(sync.general_task(), Task::Idle));
    assert!(matches!(sync.repair_task(), Task::Idle));
}

#[test]
fn synchronizer_moves_prepared_versions_to_repair() {
    let mut sync = Synchronizer::new(NODE, false, 10, 0);
    let mut locks = RepairLockPool::new(1);
    sync.set_repair_idleness_threshold(RepairIdleness::Threshold(0));
    sync.handle_event(&Event::Putted { version: ObjectVersion(5), put_content_timeout: 0 }, 0);
    sync.handle_event(&Event::Putted { version: ObjectVersion(3), put_content_timeout: 0 }, 0);
    sync.poll(false, false, false, true, 0, &mut locks);
    assert!(matches!(sync.general_task(), Task::RepairPrep { version: ObjectVersion(3) }));
    sync.poll(true, true, false, true, 1, &mut locks);
    assert!(matches!(sync.repair_task(), Task::Repair { version: ObjectVersion(3) }));
    sync.poll(false, false, false, true, 2, &mut locks);
    assert!(matches!(sync.general_task(), Task::RepairPrep { version: ObjectVersion(5) }));
    sync.poll(true, true, true, true, 3, &mut locks);
    assert!(matches!(sync.repair_task(), Task::Repair { version: ObjectVersion(5) }));
    assert_eq!(locks.in_use(), 1);
    sync.poll(false, false, true, true, 4, &mut locks);
    assert!(matches!(sync.repair_task(), Task::Idle));
    assert_eq!(locks.in_use(), 0);
}

#[test]
fn synchronizer_full_sync_runs_one_sweep() {
    let mut sync = Synchronizer::new(NODE, false, 100, 0);
    let mut locks = RepairLockPool::new(1);
    assert!(!sync.segment_gc_needs_listing());
    sync.handle_event(&full_sync(12), 0);
    assert!(sync.segment_gc_needs_listing());
    sync.handle_event(&full_sync(100), 0);
    let listing: Vec<LumpId> =
        [5u64, 9, 11, 13].iter().map(|v| LumpId::content(NODE, ObjectVersion(*v))).collect();
    sync.set_segment_gc_listing(listing);
    assert!(!sync.segment_gc_needs_listing());
    let deleted = sync.poll(false, false, false, true, 0, &mut locks);
    assert_eq!(deleted, vec![LumpId::content(NODE, ObjectVersion(11))]);
    assert!(sync.poll(false, false, false, true, 1, &mut locks).is_empty());
    sync.handle_event(&full_sync(100), 2);
    assert!(sync.segment_gc_needs_listing());
}

#[test]
fn metadata_segment_ignores_events() {
    let mut sync = Synchronizer::new(NODE, true, 10, 0);
    let mut locks = RepairLockPool::new(1);
    sync.handle_event(&Event::Deleted { version: ObjectVersion(1) }, 0);
    sync.handle_event(&full_sync(12), 0);
    assert!(!sync.segment_gc_needs_listing());
    sync.poll(false, false, false, true, 0, &mut locks);
    assert!(matches!(sync.general_task(), Task::Idle));
}

#[test]
fn successful_repair_ends_candidacy() {
    let mut sync = Synchronizer::new(NODE, false, 10, 0);
    let mut locks = RepairLockPool::new(1);
    sync.set_repair_idleness_threshold(RepairIdleness::Threshold(0));
    sync.handle_event(&Event::Putted { version: ObjectVersion(1), put_content_timeout: 0 }, 0);
    sync.handle_event(&Event::Putted { version: ObjectVersion(2), put_content_timeout: 0 }, 0);
    assert!(sync.is_repair_candidate(ObjectVersion(1)));
    sync.poll(false, false, false, false, 0, &mut locks);
    sync.poll(true, true, false, false, 1, &mut locks);
    assert!(matches!(sync.repair_task(), Task::Repair { version: ObjectVersion(1) }));
    sync.poll(false, false, true, true, 2, &mut locks);
    assert!(!sync.is_repair_candidate(ObjectVersion(1)));
    assert_eq!(sync.repair_failures(), 0);
    sync.poll(true, true, false, false, 3, &mut locks);
    assert!(matches!(sync.repair_task(), Task::Repair { version: ObjectVersion(2) }));
    sync.poll(false, false, true, false, 4, &mut locks);
    assert!(sync.is_repair_candidate(ObjectVersion(2)));
    assert_eq!(sync.repair_failures(), 1);
}

#[test]
fn queue_counters_follow_pushes_and_pops() {
    let mut sync = Synchronizer::new(NODE, false, 10, 0);
    let mut locks = RepairLockPool::new(1);
    sync.handle_event(&Event::Putted { version: ObjectVersion(3), put_content_timeout: 10 }, 0);
    sync.handle_event(&Event::Deleted { version: ObjectVersion(7) }, 0);
    let c = sync.general_counters();
    assert_eq!((c.enqueued_repair, c.enqueued_delete, c.dequeued_repair, c.dequeued_delete), (1, 1, 0, 0));
    sync.poll(false, false, false, false, 0, &mut locks);
    let c = sync.general_counters();
    assert_eq!((c.enqueued_repair, c.dequeued_repair), (2, 1));
    sync.poll(true, false, false, false, 10_000, &mut locks);
    let c = sync.general_counters();
    assert_eq!((c.enqueued_repair, c.dequeued_repair, c.dequeued_delete), (2, 2, 0));
    sync.poll(true, false, false, false, 10_001, &mut locks);
    let c = sync.general_counters();
    assert_eq!((c.enqueued_delete, c.dequeued_delete), (1, 1));
}

#[test]
fn sweep_counts_reset_when_it_ends() {
    let mut sync = Synchronizer::new(NODE, false, 2, 0);
    let mut locks = RepairLockPool::new(1);
    sync.handle_event(&full_sync(12), 0);
    let listing: Vec<LumpId> =
        [1u64, 5, 9, 11, 13].iter().map(|v| LumpId::content(NODE, ObjectVersion(*v))).collect();
    sync.set_segment_gc_listing(listing);
    assert_eq!(sync.segment_gc_counts(), (0, 0));
    sync.poll(false, false, false, false, 0, &mut locks);
    assert_eq!(sync.segment_gc_counts(), (2, 1));
    sync.poll(false, false, false, false, 1, &mut locks);
    assert_eq!(sync.segment_gc_counts(), (4, 2));
    sync.poll(false, false, false, false, 2, &mut locks);
    assert_eq!(sync.segment_gc_counts(), (0, 0));
    assert!(!sync.segment_gc_needs_listing());
}
