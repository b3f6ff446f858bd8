//! The shard state machine: how one shard processes one message, reading and
//! writing its own storage and sending the walk's next hop, path
//! compression and completions onward.

use vstd::prelude::*;
use crate::batching::{BatchingView, MessageBatching};
use crate::key::{Key, LOCAL_ID_MAX};
use crate::message::ShardMessage;
use crate::request::{DriverMessage, ReqId};
use crate::storage::{Field, NodeData, Storage, fresh_node, holds, link, node_of, set_field};
use crate::system::System;

verus! {

/// Every link stored in `nodes` names a shard below `n_shards`.
pub open spec fn links_routable(nodes: Seq<NodeData>, n_shards: int) -> bool {
    forall|i: int|
        0 <= i < nodes.len() ==> {
            &&& 0 <= (#[trigger] nodes[i]).parent.shard_of() < n_shards
            &&& 0 <= nodes[i].child.shard_of() < n_shards
            &&& 0 <= nodes[i].sibling.shard_of() < n_shards
        }
}

/// The sibling link a new head of `parent`'s child list gets: the previous
/// head, or the new child itself (the end-of-list marker) when `prev_head`
/// shows the list was empty.
pub open spec fn new_head_sibling(parent: Key, child: Key, prev_head: Key) -> Key {
    if prev_head == parent {
        child
    } else {
        prev_head
    }
}

/// The abstract state of a shard worker.
pub ghost struct ShardView {
    pub batching: BatchingView,
    pub pending: Seq<ShardMessage>,
    pub shard_idx: int,
    pub nodes: Seq<NodeData>,
}

impl ShardView {
    /// Number of shards in the system.
    pub open spec fn n_shards(self) -> int {
        self.batching.shard_bufs.len() as int
    }

    /// Number of drivers in the system.
    pub open spec fn n_drivers(self) -> int {
        self.batching.driver_bufs.len() as int
    }

    /// `k` names a shard of the system.
    pub open spec fn routable(self, k: Key) -> bool {
        0 <= k.shard_of() < self.n_shards()
    }

    /// `r` names a driver of the system.
    pub open spec fn answerable(self, r: ReqId) -> bool {
        0 <= r.driver_of() < self.n_drivers()
    }

    /// `k` is a node of this shard that its storage holds.
    pub open spec fn owns(self, k: Key) -> bool {
        k.shard_of() == self.shard_idx && holds(self.nodes, k)
    }

    pub open spec fn wf(self) -> bool {
        &&& 0 <= self.shard_idx < self.n_shards()
        &&& links_routable(self.nodes, self.n_shards())
    }

    /// The messages this shard can process: addressed to it, naming nodes
    /// it holds, and naming only shards and drivers of the system.
    pub open spec fn accepts(self, m: ShardMessage) -> bool {
        match m {
            ShardMessage::AddNode { shard, req_id } => {
                &&& shard == self.shard_idx
                &&& self.nodes.len() <= LOCAL_ID_MAX
                &&& self.answerable(req_id)
            },
            ShardMessage::Union { node, to, child, req_id } => {
                &&& self.owns(node)
                &&& self.routable(to)
                &&& self.routable(child)
                &&& self.answerable(req_id)
            },
            ShardMessage::SetChild { node, to, .. } => self.owns(node) && self.routable(to),
            ShardMessage::SetSibling { node, to, req_id } => {
                &&& self.owns(node)
                &&& self.routable(to)
                &&& self.answerable(req_id)
            },
            ShardMessage::SetParent { node, to } => self.owns(node) && self.routable(to),
            ShardMessage::Find { node, child, req_id } => {
                &&& self.owns(node)
                &&& self.routable(child)
                &&& self.answerable(req_id)
            },
            ShardMessage::GracefulShutdown { shard, req_id } => {
                shard == self.shard_idx && self.answerable(req_id)
            },
        }
    }

    /// Sends a message to a shard: to the local stack when it is this
    /// shard, otherwise to the outbound buffers.
    pub open spec fn emit(self, m: ShardMessage) -> ShardView {
        if m.target_of() == self.shard_idx {
            ShardView { pending: self.pending.push(m), ..self }
        } else {
            ShardView { batching: self.batching.send_shard(m), ..self }
        }
    }

    /// Sends a completion to a driver.
    pub open spec fn notify(self, m: DriverMessage) -> ShardView {
        ShardView { batching: self.batching.send_driver(m), ..self }
    }

    /// Sets one link of `key`.
    pub open spec fn write(self, key: Key, f: Field, v: Key) -> ShardView {
        ShardView { nodes: set_field(self.nodes, key, f, v), ..self }
    }

    /// Path compression after a hop from `child` through `node` to
    /// `parent`: none on the first hop, where `child` is `node`.
    pub open spec fn compress(self, node: Key, child: Key, parent: Key) -> ShardView {
        if child != node {
            self.emit(ShardMessage::SetParent { node: child, to: parent })
        } else {
            self
        }
    }

    /// The effect of processing one message: the next state, and the
    /// request id of a shutdown request.
    pub open spec fn step(self, m: ShardMessage) -> (ShardView, Option<ReqId>) {
        match m {
            ShardMessage::AddNode { shard, req_id } => {
                let k = Key::of(shard as int, self.nodes.len() as int);
                let s = ShardView { nodes: self.nodes.push(fresh_node(k)), ..self };
                (s.notify(DriverMessage::AddNodeDone { req_id, response: k }), None)
            },
            ShardMessage::Union { node, to, child, req_id } => {
                match link(node_of(self.nodes, node).parent, node) {
                    None => if to == node {
                        // The root is already in `to`'s class: nothing to link.
                        let s = self.notify(DriverMessage::UnionDone { req_id });
                        (s.compress(node, child, to), None)
                    } else {
                        let s = self.write(node, Field::Parent, to).emit(
                            ShardMessage::SetChild { node: to, to: node, req_id },
                        );
                        (s.compress(node, child, to), None)
                    },
                    Some(p) => {
                        let s = self.emit(ShardMessage::Union { node: p, to, child: node, req_id });
                        (s.compress(node, child, p), None)
                    },
                }
            },
            ShardMessage::SetChild { node, to, req_id } => {
                let prev = node_of(self.nodes, node).child;
                let s = self.write(node, Field::Child, to).emit(
                    ShardMessage::SetSibling { node: to, to: new_head_sibling(node, to, prev), req_id },
                );
                (s, None)
            },
            ShardMessage::SetSibling { node, to, req_id } => {
                (self.write(node, Field::Sibling, to).notify(DriverMessage::UnionDone { req_id }), None)
            },
            ShardMessage::SetParent { node, to } => (self.write(node, Field::Parent, to), None),
            ShardMessage::Find { node, child, req_id } => {
                match link(node_of(self.nodes, node).parent, node) {
                    None => (self.notify(DriverMessage::FindDone { req_id, response: node }), None),
                    Some(p) => {
                        let s = self.emit(ShardMessage::Find { node: p, child: node, req_id });
                        (s.compress(node, child, p), None)
                    },
                }
            },
            ShardMessage::GracefulShutdown { req_id, .. } => (self, Some(req_id)),
        }
    }
}

/// One shard worker: its storage, its outbound buffers and the stack of
/// messages it sent to itself.
pub struct UnionFindShardData<S> {
    pub other_shard_batching: MessageBatching,
    pub current_shard_pending_messages: Vec<ShardMessage>,
    pub shard_idx: usize,
    pub storage: S,
}

impl<S: Storage> UnionFindShardData<S> {
    pub open spec fn view(&self) -> ShardView {
        ShardView {
            batching: self.other_shard_batching@,
            pending: self.current_shard_pending_messages@,
            shard_idx: self.shard_idx as int,
            nodes: self.storage.nodes(),
        }
    }

    /// A worker for shard `shard_idx` of `system` over `storage`.
    pub fn new(system: &System, shard_idx: usize, storage: S) -> (r: Self)
        ensures
            r.view() == (ShardView {
                batching: MessageBatching::new_view(system),
                pending: Seq::<ShardMessage>::empty(),
                shard_idx: shard_idx as int,
                nodes: storage.nodes(),
            }),
    {
        UnionFindShardData {
            other_shard_batching: MessageBatching::new(system),
            current_shard_pending_messages: Vec::new(),
            shard_idx,
            storage,
        }
    }

    fn send(&mut self, message: ShardMessage)
        requires
            old(self).view().batching.routes_shard(message),
        ensures
            final(self).view() == old(self).view().emit(message),
    {
        let target_shard = message.target_shard();
        if target_shard == self.shard_idx {
            self.current_shard_pending_messages.push(message);
        } else {
            self.other_shard_batching.send_to_shard(message);
        }
    }

    fn send_to_driver(&mut self, message: DriverMessage)
        requires
            old(self).view().batching.routes_driver(message),
        ensures
            final(self).view() == old(self).view().notify(message),
    {
        self.other_shard_batching.send_to_driver(message);
    }
    /// Processes one message. Returns the request id of a shutdown request,
    /// and nothing for every other message.
    pub fn process_message(&mut self, message: ShardMessage) -> (r: Option<ReqId>)
        requires
            old(self).view().wf(),
            old(self).view().accepts(message),
        ensures
            final(self).view().wf(),
            (final(self).view(), r) == old(self).view().step(message),
    {
        let ghost s0 = self.view();
        match message {
            ShardMessage::AddNode { shard, req_id } => {
                let new_node = self.storage.add_node(shard as usize);
                proof {
                    assert(new_node.shard_of() == shard as int) by {
                        crate::key::lemma_of_parts(shard as int, s0.nodes.len() as int);
                    }
                    assert(self.view().nodes =~= s0.nodes.push(fresh_node(new_node)));
                }
                self.send_to_driver(DriverMessage::AddNodeDone { req_id, response: new_node });
            },
            ShardMessage::Union { node, to, child, req_id } => {
                let parent = match self.storage.get_parent(node) {
                    None => {
                        if to == node {
                            self.send_to_driver(DriverMessage::UnionDone { req_id });
                        } else {
                            self.storage.set_parent(node, to);
                            self.send(ShardMessage::SetChild { node: to, to: node, req_id });
                        }
                        to
                    },
                    Some(parent) => {
                        self.send(ShardMessage::Union { node: parent, to, child: node, req_id });
                        parent
                    },
                };
                if child != node {
                    self.send(ShardMessage::SetParent { node: child, to: parent });
                }
            },
            ShardMessage::SetChild { node, to, req_id } => {
                let prev_child = self.storage.swap_child(node, to);
                let sibling = if prev_child == node {
                    to
                } else {
                    prev_child
                };
                self.send(ShardMessage::SetSibling { node: to, to: sibling, req_id });
            },
            ShardMessage::SetSibling { node, to, req_id } => {
                self.storage.set_sibling(node, to);
                self.send_to_driver(DriverMessage::UnionDone { req_id });
            },
            ShardMessage::SetParent { node, to } => {
                self.storage.set_parent(node, to);
            },
            ShardMessage::Find { node, child, req_id } => {
                match self.storage.get_parent(node) {
                    None => {
                        self.send_to_driver(DriverMessage::FindDone { req_id, response: node });
                    },
                    Some(parent) => {
                        self.send(ShardMessage::Find { node: parent, child: node, req_id });
                        if child != node {
                            self.send(ShardMessage::SetParent { node: child, to: parent });
                        }
                    },
                }
            },
            ShardMessage::GracefulShutdown { shard, req_id } => {
                return Some(req_id);
            },
        }
        None
    }

    /// `key` names a shard of the system.
    fn routable_key(&self, key: Key) -> (r: bool)
        ensures
            r == self.view().routable(key),
    {
        key.shard() < self.other_shard_batching.n_shards()
    }

    /// `key` is a node that this shard holds.
    fn owns_key(&self, key: Key) -> (r: bool)
        ensures
            r == self.view().owns(key),
    {
        key.shard() == self.shard_idx && key.shard_specific_id() < self.storage.node_count() as u64
    }

    /// `req_id` names a driver of the system.
    fn answerable_req(&self, req_id: ReqId) -> (r: bool)
        ensures
            r == self.view().answerable(req_id),
    {
        req_id.driver() < self.other_shard_batching.n_drivers()
    }

    /// Whether this shard can process `message` (see `ShardView::accepts`).
    pub fn accepts_message(&self, message: &ShardMessage) -> (r: bool)
        ensures
            r == self.view().accepts(*message),
    {
        match *message {
            ShardMessage::AddNode { shard, req_id } => {
                shard as usize == self.shard_idx && self.storage.node_count() as u64 <= LOCAL_ID_MAX
                    && self.answerable_req(req_id)
            },
            ShardMessage::Union { node, to, child, req_id } => {
                self.owns_key(node) && self.routable_key(to) && self.routable_key(child)
                    && self.answerable_req(req_id)
            },
            ShardMessage::SetChild { node, to, .. } => self.owns_key(node) && self.routable_key(to),
            ShardMessage::SetSibling { node, to, req_id } => {
                self.owns_key(node) && self.routable_key(to) && self.answerable_req(req_id)
            },
            ShardMessage::SetParent { node, to } => self.owns_key(node) && self.routable_key(to),
            ShardMessage::Find { node, child, req_id } => {
                self.owns_key(node) && self.routable_key(child) && self.answerable_req(req_id)
            },
            ShardMessage::GracefulShutdown { shard, req_id } => {
                shard as usize == self.shard_idx && self.answerable_req(req_id)
            },
        }
    }

    /// Ends one round of the worker loop: flushes the outbound buffers and,
    /// after a shutdown request, sends its `ShutdownDone` and flushes again.
    /// Returns whether the worker stops.
    pub fn end_round(&mut self, should_stop: Option<ReqId>) -> (r: bool)
        requires
            old(self).view().wf(),
            should_stop matches Some(req_id) ==> old(self).view().answerable(req_id),
        ensures
            final(self).view().wf(),
            r == should_stop.is_some(),
            final(self).view() == match should_stop {
                None => ShardView { batching: old(self).view().batching.flushed(), ..old(self).view() },
                Some(req_id) => ShardView {
                    batching: old(self).view().batching.flushed().send_driver(
                        DriverMessage::ShutdownDone { req_id },
                    ).flushed(),
                    ..old(self).view()
                },
            },
    {
        self.other_shard_batching.flush();
        match should_stop {
            None => false,
            Some(req_id) => {
                self.other_shard_batching.send_to_driver(DriverMessage::ShutdownDone { req_id });
                self.other_shard_batching.flush();
                true
            },
        }
    }

    /// Takes the most recent message this shard sent to itself.
    pub fn next_local(&mut self) -> (r: Option<ShardMessage>)
        ensures
            old(self).view().pending.len() == 0 ==> r.is_none() && final(self).view() == old(
                self,
            ).view(),
            old(self).view().pending.len() > 0 ==> r == Some(old(self).view().pending.last())
                && final(self).view() == (ShardView {
                pending: old(self).view().pending.drop_last(),
                ..old(self).view()
            }),
    {
        self.current_shard_pending_messages.pop()
    }
}

} // verus!
