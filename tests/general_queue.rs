use frugalos_sync::event::Event;
use frugalos_sync::general_queue::GeneralQueueExecutor;
use frugalos_sync::todo::{MAX_WAIT_MILLIS, Task, TodoItem};
use frugalos_sync::version::ObjectVersion;

fn putted(version: u64, timeout: u64) -> Event {
    Event::Putted { version: ObjectVersion(version), put_content_timeout: timeout }
}

fn deleted(version: u64) -> Event {
    Event::Deleted { version: ObjectVersion(version) }
}

#[test]
fn put_then_delete_before_repair_never_prepares() {
    let mut q = GeneralQueueExecutor::new();
    q.push(&putted(10, 30), 0);
    q.push(&deleted(10), 5_000);
    let mut now = 6_000;
    let mut deletions = Vec::new();
    for _ in 0..10 {
        assert!(!matches!(q.task(), Task::RepairPrep { .. }));
        if let Task::Delete { versions } = q.task() {
            deletions.push(versions.clone());
        }
        assert_eq!(q.poll(false, now), None);
        now += 40_000;
    }
    assert_eq!(deletions, vec![vec![ObjectVersion(10)]]);
    assert!(matches!(q.task(), Task::Idle));
}

#[test]
fn pending_put_makes_the_queue_wait_until_its_start() {
    let mut q = GeneralQueueExecutor::new();
    q.push(&putted(7, 30), 1_000);
    assert_eq!(q.poll(false, 2_000), None);
    assert!(matches!(q.task(), Task::Wait { until: 31_000 }));
    assert_eq!(q.poll(false, 31_000), None);
    assert!(matches!(q.task(), Task::RepairPrep { version: ObjectVersion(7) }));
    assert_eq!(q.poll(true, 32_000), Some(ObjectVersion(7)));
    assert!(matches!(q.task(), Task::Idle));
}

#[test]
fn wait_never_exceeds_sixty_seconds() {
    let mut q = GeneralQueueExecutor::new();
    q.push(&putted(1, 3_600), 500);
    q.poll(false, 500);
    assert!(matches!(q.task(), Task::Wait { until } if *until == 500 + MAX_WAIT_MILLIS));
    assert_eq!(MAX_WAIT_MILLIS, 60_000);
}

#[test]
fn prepared_version_is_handed_on_only_when_needed() {
    let mut q = GeneralQueueExecutor::new();
    q.push(&putted(4, 0), 0);
    q.poll(false, 0);
    assert!(matches!(q.task(), Task::RepairPrep { version: ObjectVersion(4) }));
    assert_eq!(q.poll(false, 10), None);
    assert!(matches!(q.task(), Task::Idle));
}

#[test]
fn preparations_come_before_deletions_and_in_start_order() {
    let mut q = GeneralQueueExecutor::new();
    q.push(&deleted(1), 0);
    q.push(&putted(5, 0), 0);
    q.push(&putted(3, 0), 0);
    q.poll(false, 0);
    assert!(matches!(q.task(), Task::RepairPrep { version: ObjectVersion(3) }));
    q.poll(false, 0);
    assert!(matches!(q.task(), Task::RepairPrep { version: ObjectVersion(5) }));
    q.poll(false, 0);
    assert!(matches!(q.task(), Task::Delete { versions } if versions == &vec![ObjectVersion(1)]));
}

#[test]
fn deletions_keep_arrival_order() {
    let mut q = GeneralQueueExecutor::new();
    q.push(&deleted(9), 0);
    q.push(&deleted(2), 0);
    assert!(matches!(q.pop(0), Some(TodoItem::DeleteContent { versions }) if versions == vec![ObjectVersion(9)]));
    assert!(matches!(q.pop(0), Some(TodoItem::DeleteContent { versions }) if versions == vec![ObjectVersion(2)]));
    assert!(q.pop(0).is_none());
}

#[test]
fn empty_queue_stays_idle() {
    let mut q = GeneralQueueExecutor::new();
    assert_eq!(q.poll(false, 100), None);
    assert!(matches!(q.task(), Task::Idle));
}

#[test]
fn todo_item_from_put_waits_its_timeout() {
    let item = TodoItem::new(&putted(3, 2), 1_000);
    assert!(matches!(item, TodoItem::RepairContent { start_time: 3_000, version: ObjectVersion(3) }));
    assert_eq!(item.wait_time(1_500), Some(1_500));
    assert_eq!(item.wait_time(3_000), None);
    let del = TodoItem::new(&deleted(8), 1_000);
    assert!(matches!(&del, TodoItem::DeleteContent { versions } if versions == &vec![ObjectVersion(8)]));
    assert_eq!(del.wait_time(0), None);
}
