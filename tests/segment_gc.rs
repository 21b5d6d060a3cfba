use frugalos_sync::event::MachineEntry;
use frugalos_sync::lump::{LocalNodeId, LumpId};
use frugalos_sync::segment_gc::SegmentGc;
use frugalos_sync::version::ObjectVersion;

fn machine() -> Vec<MachineEntry> {
    vec![
        MachineEntry { id: "a".to_owned(), version: ObjectVersion(5) },
        MachineEntry { id: "b".to_owned(), version: ObjectVersion(9) },
    ]
}

fn lumps(node: LocalNodeId, versions: &[u64]) -> Vec<LumpId> {
    versions.iter().map(|v| LumpId::content(node, ObjectVersion(*v))).collect()
}

fn sweep(gc: &mut SegmentGc) -> Vec<LumpId> {
    let mut deleted = Vec::new();
    while !gc.is_done() {
        deleted.extend(gc.poll());
    }
    deleted
}

#[test]
fn full_sync_gc_deletes_only_absent_committed_versions() {
    let node = LocalNodeId(3);
    let mut gc = SegmentGc::new(node, &machine(), 12, 100);
    assert!(gc.needs_listing());
    gc.set_listing(lumps(node, &[5, 9, 11, 13]));
    assert!(!gc.needs_listing());
    assert_eq!(gc.poll(), lumps(node, &[11]));
    assert!(gc.is_done());
    assert_eq!(gc.counts(), (4, 1));
}

#[test]
fn gc_step_bounds_each_poll() {
    let node = LocalNodeId(3);
    let mut gc = SegmentGc::new(node, &machine(), 12, 1);
    gc.set_listing(lumps(node, &[1, 5, 9, 11, 13]));
    assert_eq!(gc.poll(), lumps(node, &[1]));
    assert!(!gc.is_done());
    assert_eq!(gc.poll(), Vec::<LumpId>::new());
    assert_eq!(gc.poll(), Vec::<LumpId>::new());
    assert_eq!(gc.poll(), lumps(node, &[11]));
    assert!(!gc.is_done());
    assert_eq!(gc.poll(), Vec::<LumpId>::new());
    assert!(gc.is_done());
}

#[test]
fn gc_spares_live_and_uncommitted_versions() {
    let node = LocalNodeId(3);
    let gc = SegmentGc::new(node, &machine(), 12, 10);
    assert!(!gc.should_delete(LumpId::content(node, ObjectVersion(5))));
    assert!(!gc.should_delete(LumpId::content(node, ObjectVersion(12))));
    assert!(!gc.should_delete(LumpId::content(node, ObjectVersion(13))));
    assert!(gc.should_delete(LumpId::content(node, ObjectVersion(0))));
    assert!(!gc.should_delete(LumpId::content(LocalNodeId(4), ObjectVersion(11))));
    assert!(!gc.should_delete(LumpId(11)));
}

#[test]
fn second_gc_pass_deletes_nothing() {
    let node = LocalNodeId(3);
    let device = lumps(node, &[2, 5, 7, 9, 11, 13]);
    let mut first = SegmentGc::new(node, &machine(), 12, 2);
    first.set_listing(device.clone());
    let deleted = sweep(&mut first);
    assert_eq!(deleted, lumps(node, &[2, 7, 11]));
    let left: Vec<LumpId> = device.into_iter().filter(|l| !deleted.contains(l)).collect();
    let mut second = SegmentGc::new(node, &machine(), 12, 2);
    second.set_listing(left);
    assert!(sweep(&mut second).is_empty());
}

#[test]
fn gc_leaves_exactly_the_live_versions() {
    let node = LocalNodeId(3);
    let device = lumps(node, &[1, 5, 6, 9, 10]);
    let mut gc = SegmentGc::new(node, &machine(), 12, 3);
    gc.set_listing(device.clone());
    let deleted = sweep(&mut gc);
    let mut left: Vec<u64> = device
        .into_iter()
        .filter(|l| !deleted.contains(l))
        .map(|l| l.version().0)
        .collect();
    left.sort();
    assert_eq!(left, vec![5, 9]);
}

#[test]
fn gc_with_empty_listing_is_done_at_once() {
    let mut gc = SegmentGc::new(LocalNodeId(1), &Vec::new(), 5, 4);
    assert!(!gc.is_done());
    gc.set_listing(Vec::new());
    assert!(gc.is_done());
    assert!(gc.poll().is_empty());
}
