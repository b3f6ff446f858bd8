//! The client-facing side of one driver: it turns requests into shard
//! messages. Completions come back through the driver's own queue; the
//! caller matches them to requests by the request ids it chose.

use vstd::prelude::*;
use crate::batching::{BatchingView, MessageBatching};
use crate::key::{Key, LOCAL_ID_MAX};
use crate::message::ShardMessage;
use crate::request::{DRIVER_MAX, DriverMessage, ReqId};
use crate::system::System;

verus! {

/// The outbound state after a shutdown request to each of the shards
/// below `n`, in shard order.
pub open spec fn shutdowns_sent(b: BatchingView, req_id: ReqId, n: nat) -> BatchingView
    decreases n,
{
    if n == 0 {
        b
    } else {
        shutdowns_sent(b, req_id, (n - 1) as nat).send_shard(
            ShardMessage::GracefulShutdown { shard: (n - 1) as u16, req_id },
        )
    }
}

/// One driver: its id and its outbound buffers.
pub struct Driver {
    driver_id: usize,
    batching: MessageBatching,
}

impl Driver {
    pub closed spec fn id_of(&self) -> int {
        self.driver_id as int
    }

    /// The driver's outbound buffers.
    pub closed spec fn outbox(&self) -> BatchingView {
        self.batching@
    }

    /// The request id this driver gives a client's counter `id`.
    pub open spec fn req_of(&self, id: u64) -> ReqId {
        ReqId::of(self.id_of(), id as int)
    }

    /// Driver `driver_id` of `system`.
    pub fn new(system: &System, driver_id: usize) -> (r: Driver)
        requires
            driver_id <= DRIVER_MAX,
        ensures
            r.id_of() == driver_id,
            r.outbox() == MessageBatching::new_view(system),
    {
        Driver { driver_id, batching: MessageBatching::new(system) }
    }

    pub fn driver_id(&self) -> (r: usize)
        ensures
            r == self.id_of(),
    {
        self.driver_id
    }

    /// Number of shards this driver can address.
    pub fn n_shards(&self) -> (r: usize)
        ensures
            r == self.outbox().shard_bufs.len(),
    {
        self.batching.n_shards()
    }

    /// Asks shard `shard` for a new node.
    pub fn add_node(&mut self, req_id: u64, shard: u16)
        requires
            old(self).id_of() <= DRIVER_MAX,
            req_id <= LOCAL_ID_MAX,
            shard < old(self).outbox().shard_bufs.len(),
        ensures
            final(self).id_of() == old(self).id_of(),
            final(self).outbox() == old(self).outbox().send_shard(
                ShardMessage::AddNode { shard, req_id: old(self).req_of(req_id) },
            ),
    {
        let req_id = ReqId::new(self.driver_id, req_id);
        self.batching.send_to_shard(ShardMessage::AddNode { shard, req_id });
    }

    /// Merges the classes of `node` and `to`.
    pub fn union(&mut self, req_id: u64, node: Key, to: Key)
        requires
            old(self).id_of() <= DRIVER_MAX,
            req_id <= LOCAL_ID_MAX,
            node.shard_of() < old(self).outbox().shard_bufs.len(),
        ensures
            final(self).id_of() == old(self).id_of(),
            final(self).outbox() == old(self).outbox().send_shard(
                ShardMessage::Union { node, to, child: node, req_id: old(self).req_of(req_id) },
            ),
    {
        let req_id = ReqId::new(self.driver_id, req_id);
        self.batching.send_to_shard(ShardMessage::Union { node, to, child: node, req_id });
    }

    /// Asks for the root of `node`'s class.
    pub fn find(&mut self, req_id: u64, node: Key)
        requires
            old(self).id_of() <= DRIVER_MAX,
            req_id <= LOCAL_ID_MAX,
            node.shard_of() < old(self).outbox().shard_bufs.len(),
        ensures
            final(self).id_of() == old(self).id_of(),
            final(self).outbox() == old(self).outbox().send_shard(
                ShardMessage::Find { node, child: node, req_id: old(self).req_of(req_id) },
            ),
    {
        let req_id = ReqId::new(self.driver_id, req_id);
        self.batching.send_to_shard(ShardMessage::Find { node, child: node, req_id });
    }

    pub fn flush(&mut self)
        ensures
            final(self).id_of() == old(self).id_of(),
            final(self).outbox() == old(self).outbox().flushed(),
    {
        self.batching.flush();
    }

    /// Sends a shutdown request, under one request id, to every shard in
    /// shard order, then flushes. Each shard answers with one
    /// `ShutdownDone`.
    pub fn shutdown_all(&mut self, req_id: u64)
        requires
            old(self).id_of() <= DRIVER_MAX,
            req_id <= LOCAL_ID_MAX,
            old(self).outbox().shard_bufs.len() <= 0x10000,
        ensures
            final(self).id_of() == old(self).id_of(),
            final(self).outbox() == shutdowns_sent(
                old(self).outbox(),
                old(self).req_of(req_id),
                old(self).outbox().shard_bufs.len(),
            ).flushed(),
    {
        let req_id = ReqId::new(self.driver_id, req_id);
        let n = self.batching.n_shards();
        let ghost b0 = self.batching@;
        let mut i: usize = 0;
        while i < n
            invariant
                n == b0.shard_bufs.len(),
                n <= 0x10000,
                i <= n,
                self.driver_id == old(self).driver_id,
                self.batching@ == shutdowns_sent(b0, req_id, i as nat),
                self.batching@.shard_bufs.len() == n,
            decreases n - i,
        {
            self.batching.send_to_shard(ShardMessage::GracefulShutdown { shard: i as u16, req_id });
            i = i + 1;
        }
        self.batching.flush();
    }

    /// Takes the batches ready for shards, oldest first.
    pub fn take_shard_batches(&mut self) -> (r: Vec<(usize, Vec<ShardMessage>)>)
        ensures
            crate::batching::out_view(r@) == old(self).outbox().shard_out,
            final(self).id_of() == old(self).id_of(),
            final(self).outbox() == (BatchingView { shard_out: Seq::empty(), ..old(self).outbox() }),
    {
        self.batching.take_shard_batches()
    }
}

} // verus!
