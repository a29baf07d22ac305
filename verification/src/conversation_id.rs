//! Identifiers of conversations, messages and nodes.
use vstd::prelude::*;

verus! {

/// Identifies a message, in every conversation it appears in.
#[derive(Debug, Clone, Copy, PartialEq, Eq, PartialOrd, Ord, Hash, Structural)]
pub struct MessageId(pub u64);

/// Identifies a node of the mesh.
#[derive(Debug, Clone, Copy, PartialEq, Eq, PartialOrd, Ord, Hash, Structural)]
pub struct NodeId(pub u64);

/// The index of a channel on the connected device.
#[derive(Debug, Clone, Copy, PartialEq, Eq, PartialOrd, Ord, Hash, Structural)]
pub struct ChannelIndex(pub u32);

/// Whom a conversation is with: everybody on a channel, or one node.
#[derive(Debug, Clone, Copy, PartialEq, Eq, Hash, Structural)]
pub enum ConversationId {
    Channel(ChannelIndex),
    Node(NodeId),
}

impl From<u64> for MessageId {
    fn from(id: u64) -> (message_id: MessageId) {
        MessageId(id)
    }
}

impl vstd::std_specs::convert::FromSpecImpl<u64> for MessageId {
    open spec fn obeys_from_spec() -> bool {
        true
    }

    open spec fn from_spec(id: u64) -> MessageId {
        MessageId(id)
    }
}

impl From<u64> for NodeId {
    fn from(id: u64) -> (node_id: NodeId) {
        NodeId(id)
    }
}

impl vstd::std_specs::convert::FromSpecImpl<u64> for NodeId {
    open spec fn obeys_from_spec() -> bool {
        true
    }

    open spec fn from_spec(id: u64) -> NodeId {
        NodeId(id)
    }
}

impl From<u32> for ChannelIndex {
    fn from(index: u32) -> (channel_index: ChannelIndex) {
        ChannelIndex(index)
    }
}

impl vstd::std_specs::convert::FromSpecImpl<u32> for ChannelIndex {
    open spec fn obeys_from_spec() -> bool {
        true
    }

    open spec fn from_spec(index: u32) -> ChannelIndex {
        ChannelIndex(index)
    }
}

impl Default for NodeId {
    fn default() -> (node_id: NodeId)
        ensures
            node_id == NodeId(0),
    {
        NodeId(0)
    }
}

impl Default for ConversationId {
    /// The first channel.
    fn default() -> (id: ConversationId)
        ensures
            id == ConversationId::Channel(ChannelIndex(0)),
    {
        ConversationId::Channel(ChannelIndex(0))
    }
}

} // verus!
