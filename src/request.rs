//! Request ids and the completions that shards send back to drivers.

use vstd::prelude::*;
use crate::key::{Key, LOCAL_ID_MAX, LOCAL_SPAN, lemma_join_word, lemma_split_word};

verus! {

/// Largest driver id.
pub const DRIVER_MAX: usize = 0xFFFF;

/// A request identifier: the high 16 bits name the driver that issued the
/// request, the low 48 bits a counter chosen by that driver's client.
#[derive(PartialEq, Eq, Structural, Clone, Copy, PartialOrd, Ord, Hash, Debug)]
pub struct ReqId {
    pub inner: u64,
}

impl ReqId {
    /// The driver that issued this request.
    pub open spec fn driver_of(self) -> int {
        self.inner as int / LOCAL_SPAN as int
    }

    /// The driver-local counter of this request.
    pub open spec fn local_of(self) -> int {
        self.inner as int % LOCAL_SPAN as int
    }

    /// The request id with the given driver and driver-local counter.
    pub open spec fn of(driver: int, local: int) -> ReqId {
        ReqId { inner: (driver * LOCAL_SPAN + local) as u64 }
    }

    pub fn new(driver: usize, shard_specific_id: u64) -> (r: ReqId)
        requires
            driver <= DRIVER_MAX,
            shard_specific_id <= LOCAL_ID_MAX,
        ensures
            r == ReqId::of(driver as int, shard_specific_id as int),
            r.driver_of() == driver,
            r.local_of() == shard_specific_id,
    {
        let hi = driver as u64;
        proof {
            lemma_join_word(hi, shard_specific_id);
            lemma_split_word((hi << 48u64) | shard_specific_id);
        }
        ReqId { inner: (hi << 48u64) | shard_specific_id }
    }

    pub fn driver(self) -> (r: usize)
        ensures
            r == self.driver_of(),
            r <= DRIVER_MAX,
    {
        proof {
            lemma_split_word(self.inner);
        }
        (self.inner >> 48u64) as usize
    }

    pub fn driver_specific_id(self) -> (r: u64)
        ensures
            r == self.local_of(),
            r <= LOCAL_ID_MAX,
    {
        proof {
            lemma_split_word(self.inner);
        }
        self.inner & 0xFFFF_FFFF_FFFFu64
    }
}

/// A completion, routed to the driver named by its request id.
#[derive(PartialEq, Eq, Structural, Clone, Copy, Debug)]
pub enum DriverMessage {
    UnionDone { req_id: ReqId },
    FindDone { req_id: ReqId, response: Key },
    AddNodeDone { req_id: ReqId, response: Key },
    ShutdownDone { req_id: ReqId },
}

impl DriverMessage {
    /// The request this completion answers.
    pub open spec fn req_of(self) -> ReqId {
        match self {
            DriverMessage::UnionDone { req_id } => req_id,
            DriverMessage::FindDone { req_id, .. } => req_id,
            DriverMessage::AddNodeDone { req_id, .. } => req_id,
            DriverMessage::ShutdownDone { req_id } => req_id,
        }
    }

    /// The driver this completion is delivered to.
    pub open spec fn target_of(self) -> int {
        self.req_of().driver_of()
    }

    pub fn target_driver(&self) -> (r: usize)
        ensures
            r == self.target_of(),
            r <= DRIVER_MAX,
    {
        match *self {
            DriverMessage::UnionDone { req_id } => req_id.driver(),
            DriverMessage::FindDone { req_id, .. } => req_id.driver(),
            DriverMessage::AddNodeDone { req_id, .. } => req_id.driver(),
            DriverMessage::ShutdownDone { req_id } => req_id.driver(),
        }
    }
}

} // verus!
