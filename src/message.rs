//! The messages that shards exchange.

use vstd::prelude::*;
use crate::key::{Key, SHARD_MAX};
use crate::request::ReqId;

verus! {

/// A message for one shard; the shard is named by one of its fields.
#[derive(PartialEq, Eq, Structural, Clone, Copy, Debug)]
pub enum ShardMessage {
    /// Allocate a node on `shard` and report its key.
    AddNode { shard: u16, req_id: ReqId },
    /// One hop of a union walk: `node` is the current ancestor of the node
    /// the walk started from, `child` the node one level below it (equal to
    /// `node` on the first hop), `to` the node to link the root under.
    Union { node: Key, to: Key, child: Key, req_id: ReqId },
    /// Make `to` the head of `node`'s child list.
    SetChild { node: Key, to: Key, req_id: ReqId },
    /// Set `node`'s next sibling to `to`; completes a union.
    SetSibling { node: Key, to: Key, req_id: ReqId },
    /// Path compression: point `node` at its ancestor `to`.
    SetParent { node: Key, to: Key },
    /// One hop of a find walk, with the same `child` convention as `Union`.
    Find { node: Key, child: Key, req_id: ReqId },
    /// Stop the shard once its queued work is done.
    GracefulShutdown { shard: u16, req_id: ReqId },
}

impl ShardMessage {
    /// The shard this message is for.
    pub open spec fn target_of(self) -> int {
        match self {
            ShardMessage::AddNode { shard, .. } => shard as int,
            ShardMessage::Union { node, .. } => node.shard_of(),
            ShardMessage::SetChild { node, .. } => node.shard_of(),
            ShardMessage::SetSibling { node, .. } => node.shard_of(),
            ShardMessage::SetParent { node, .. } => node.shard_of(),
            ShardMessage::Find { node, .. } => node.shard_of(),
            ShardMessage::GracefulShutdown { shard, .. } => shard as int,
        }
    }

    pub fn target_shard(&self) -> (r: usize)
        ensures
            r == self.target_of(),
            r <= SHARD_MAX,
    {
        match *self {
            ShardMessage::Union { node, .. } => node.shard(),
            ShardMessage::SetChild { node, .. } => node.shard(),
            ShardMessage::SetSibling { node, .. } => node.shard(),
            ShardMessage::SetParent { node, .. } => node.shard(),
            ShardMessage::Find { node, .. } => node.shard(),
            ShardMessage::AddNode { shard, .. } => shard as usize,
            ShardMessage::GracefulShutdown { shard, .. } => shard as usize,
        }
    }
}

} // verus!
