//! Layout of the 128-bit identifiers under which fragments are stored on a device.
//!
//! A content identifier is laid out, from the most significant byte down, as
//! one namespace byte, the seven bytes of the local node id, and the eight
//! bytes of the object version.
use vstd::prelude::*;

use crate::version::ObjectVersion;

verus! {

/// Namespace byte of the consensus log's own fragments.
pub const LUMP_NAMESPACE_RAFTLOG: u8 = 0;

/// Namespace byte of object payload fragments.
pub const LUMP_NAMESPACE_CONTENT: u8 = 1;

/// Exclusive upper bound of a local node id: it has seven bytes.
pub const LOCAL_NODE_ID_LIMIT: u64 = 0x100_0000_0000_0000;

/// Identifier of a replica on this host; its seven bytes prefix every fragment it stores.
#[derive(Clone, Copy, Debug, PartialEq, Eq, Hash, PartialOrd, Ord, Structural)]
pub struct LocalNodeId(pub u64);

impl LocalNodeId {
    /// The id fits in seven bytes.
    pub open spec fn wf(self) -> bool {
        self.0 < LOCAL_NODE_ID_LIMIT
    }
}

/// Identifier of one fragment on a device.
#[derive(Clone, Copy, Debug, PartialEq, Eq, Hash, PartialOrd, Ord, Structural)]
pub struct LumpId(pub u128);

/// The identifier of the payload fragment of `version` held for node `node`.
pub open spec fn content_lump_value(node: u64, version: u64) -> u128 {
    ((LUMP_NAMESPACE_CONTENT as u128) << 120u128) | ((node as u128) << 64u128) | (version as u128)
}

/// The namespace byte of an identifier.
pub open spec fn lump_kind(id: u128) -> u8 {
    (id >> 120u128) as u8
}

/// The local node id held in an identifier.
pub open spec fn lump_node(id: u128) -> u64 {
    ((id >> 64u128) as u64) & 0xff_ffff_ffff_ffffu64
}

/// The object version held in an identifier.
pub open spec fn lump_version(id: u128) -> u64 {
    id as u64
}

/// Whether `id` names a payload fragment of node `node`.
pub open spec fn is_content_of(node: u64, id: u128) -> bool {
    lump_kind(id) == LUMP_NAMESPACE_CONTENT && lump_node(id) == node
}

/// The three fields of a content identifier read back as they were written.
pub proof fn lemma_content_lump_fields(node: u64, version: u64)
    requires
        node < LOCAL_NODE_ID_LIMIT,
    ensures
        lump_kind(content_lump_value(node, version)) == LUMP_NAMESPACE_CONTENT,
        lump_node(content_lump_value(node, version)) == node,
        lump_version(content_lump_value(node, version)) == version,
        is_content_of(node, content_lump_value(node, version)),
{
    let x = content_lump_value(node, version);
    assert(((x >> 120u128) as u8) == 1u8 && (((x >> 64u128) as u64) & 0xff_ffff_ffff_ffffu64)
        == node && (x as u64) == version) by (bit_vector)
        requires
            x == (1u128 << 120u128) | ((node as u128) << 64u128) | (version as u128),
            node < 0x100_0000_0000_0000u64,
    ;
}

impl LumpId {
    /// The identifier of the payload fragment of `version` on node `node`.
    pub fn content(node: LocalNodeId, version: ObjectVersion) -> (r: LumpId)
        requires
            node.wf(),
        ensures
            r.0 == content_lump_value(node.0, version.0),
            lump_version(r.0) == version.0,
            is_content_of(node.0, r.0),
    {
        proof {
            lemma_content_lump_fields(node.0, version.0);
        }
        LumpId(((LUMP_NAMESPACE_CONTENT as u128) << 120u128) | ((node.0 as u128) << 64u128) | (
        version.0 as u128))
    }

    /// The object version held in this identifier.
    pub fn version(&self) -> (r: ObjectVersion)
        ensures
            r.0 == lump_version(self.0),
    {
        ObjectVersion(self.0 as u64)
    }

    /// The namespace byte of this identifier.
    pub fn kind(&self) -> (r: u8)
        ensures
            r == lump_kind(self.0),
    {
        (self.0 >> 120u128) as u8
    }

    /// The local node id held in this identifier.
    pub fn node(&self) -> (r: LocalNodeId)
        ensures
            r.0 == lump_node(self.0),
            r.wf(),
    {
        let id: u128 = self.0;
        let n = ((id >> 64u128) as u64) & 0xff_ffff_ffff_ffffu64;
        assert(n < 0x100_0000_0000_0000u64) by (bit_vector)
            requires
                n == ((id >> 64u128) as u64) & 0xff_ffff_ffff_ffffu64,
        ;
        LocalNodeId(n)
    }

    /// Whether this identifier names a payload fragment of node `node`.
    pub fn is_content_of(&self, node: LocalNodeId) -> (r: bool)
        ensures
            r == is_content_of(node.0, self.0),
    {
        self.kind() == LUMP_NAMESPACE_CONTENT && self.node().0 == node.0
    }
}

} // verus!
