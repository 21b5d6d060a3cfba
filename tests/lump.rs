use frugalos_sync::lump::{LUMP_NAMESPACE_CONTENT, LUMP_NAMESPACE_RAFTLOG, LocalNodeId, LumpId};
use frugalos_sync::version::ObjectVersion;

#[test]
fn content_lump_id_layout() {
    let id = LumpId::content(LocalNodeId(0x00ff_eedd_ccbb_aa99), ObjectVersion(0x0102_0304_0506_0708));
    assert_eq!(id.0, 0x01ff_eedd_ccbb_aa99_0102_0304_0506_0708);
    assert!(format!("{:032x}", id.0).starts_with("01"));
    assert_eq!(id.kind(), LUMP_NAMESPACE_CONTENT);
    assert_eq!(id.node(), LocalNodeId(0x00ff_eedd_ccbb_aa99));
    assert_eq!(id.version(), ObjectVersion(0x0102_0304_0506_0708));
    assert!(id.is_content_of(LocalNodeId(0x00ff_eedd_ccbb_aa99)));
    assert!(!id.is_content_of(LocalNodeId(1)));
}

#[test]
fn raft_log_lump_is_not_content() {
    let id = LumpId(0x0000_0000_0000_0001_0000_0000_0000_0005);
    assert_eq!(id.kind(), LUMP_NAMESPACE_RAFTLOG);
    assert!(!id.is_content_of(LocalNodeId(1)));
    assert_eq!(id.version(), ObjectVersion(5));
}
