use frugalos_sync::lump::LocalNodeId;
use frugalos_sync::service::{Command, Service};

fn three_nodes() -> Service {
    let mut service = Service::new();
    for id in 1..=3 {
        assert!(service.handle_command(Command::AddNode(LocalNodeId(id))));
    }
    service
}

#[test]
fn two_phase_shutdown_exits_after_all_snapshots() {
    let mut service = three_nodes();
    let stopping = service.stop();
    assert_eq!(stopping, vec![LocalNodeId(1), LocalNodeId(2), LocalNodeId(3)]);
    assert!(service.is_stopping());
    assert_eq!(service.stop_completed(LocalNodeId(2)), None);
    assert_eq!(service.stop_completed(LocalNodeId(2)), None);
    assert_eq!(service.stop_completed(LocalNodeId(1)), None);
    assert_eq!(
        service.stop_completed(LocalNodeId(3)),
        Some(vec![LocalNodeId(1), LocalNodeId(2), LocalNodeId(3)])
    );
    assert_eq!(service.stop_completed(LocalNodeId(3)), None);
    for id in 1..=3 {
        assert!(!service.is_finished());
        assert!(service.handle_command(Command::RemoveNode(LocalNodeId(id))));
    }
    assert!(service.is_finished());
}

#[test]
fn nodes_added_after_stop_are_ignored() {
    let mut service = three_nodes();
    service.stop();
    assert!(!service.handle_command(Command::AddNode(LocalNodeId(9))));
    assert_eq!(service.nodes(), &vec![LocalNodeId(1), LocalNodeId(2), LocalNodeId(3)]);
}

#[test]
fn snapshot_request_reaches_every_node() {
    let mut service = three_nodes();
    assert_eq!(service.take_snapshot(), vec![LocalNodeId(1), LocalNodeId(2), LocalNodeId(3)]);
    assert!(service.is_stopping());
    assert_eq!(service.stop_completed(LocalNodeId(1)), None);
}

#[test]
fn registry_keeps_each_node_once() {
    let mut service = Service::new();
    assert!(service.handle_command(Command::AddNode(LocalNodeId(4))));
    assert!(service.handle_command(Command::AddNode(LocalNodeId(4))));
    assert_eq!(service.nodes(), &vec![LocalNodeId(4)]);
    assert!(!service.handle_command(Command::RemoveNode(LocalNodeId(5))));
    assert!(service.handle_command(Command::RemoveNode(LocalNodeId(4))));
    assert!(service.nodes().is_empty());
    assert!(!service.is_finished());
}

#[test]
fn stopping_an_empty_service_finishes_it() {
    let mut service = Service::new();
    assert!(service.stop().is_empty());
    assert!(service.is_finished());
}
