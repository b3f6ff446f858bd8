//! The messages peers exchange, and the rules of the mesh: the greeting the
//! initiator sends each peer, what a peer accepts while the mesh is being
//! built, and where an inbound batch goes once it is.

use vstd::prelude::*;
use crate::message::ShardMessage;
use crate::request::DriverMessage;
use crate::system::System;

verus! {

/// An IP address as raw bytes.
#[derive(PartialEq, Eq, Clone, Copy, Debug)]
pub enum PeerIp {
    V4([u8; 4]),
    V6([u8; 16]),
}

/// Where a peer listens.
#[derive(PartialEq, Eq, Clone, Copy, Debug)]
pub struct PeerAddr {
    pub ip: PeerIp,
    pub port: u16,
}

/// One frame's contents.
#[derive(PartialEq, Eq, Debug)]
#[allow(inconsistent_fields)]
pub enum NetworkMessage {
    /// From the initiator to peer `id`: the shards each peer hosts, and the
    /// peers numbered after `id`, in order, which `id` dials.
    Hello { id: u16, num_shard_per_system: u16, connect_to: Vec<PeerAddr> },
    /// The first frame on a connection between two peers: the dialer's id.
    Id { id: u16 },
    DriverMessages { driver_idx: u16, batch: Vec<DriverMessage> },
    ShardMessages { shard_id: u16, batch: Vec<ShardMessage> },
}

/// A frame that breaks the protocol; the connection it came on is closed.
#[derive(PartialEq, Eq, Clone, Copy, Debug)]
pub enum ProtocolError {
    /// The initiator's first frame was not a `Hello`.
    ExpectedHello,
    /// A peer's first frame was not an `Id`.
    ExpectedId,
    /// An `Id` from a peer that should not dial this one, or did already.
    UnexpectedPeer { id: u16 },
    /// A `Hello` or `Id` after the mesh was built.
    LateGreeting,
    /// A batch for a shard id outside the system.
    UnknownShard { shard_id: u16 },
    /// A batch for a driver id outside the system.
    UnknownDriver { driver_idx: u16 },
}

/// Where an inbound batch is delivered.
#[allow(inconsistent_fields)]
pub enum Inbound {
    ToShard { shard_id: usize, batch: Vec<ShardMessage> },
    ToDriver { driver_idx: usize, batch: Vec<DriverMessage> },
}

/// The `Hello` the initiator sends to peer `id` (peers are numbered from 1
/// in the order of `peers`): the peers after it.
pub fn hello(peers: &Vec<PeerAddr>, id: usize, num_shard_per_system: u16) -> (r: NetworkMessage)
    requires
        1 <= id <= peers@.len(),
        id <= 0xFFFF,
    ensures
        r matches NetworkMessage::Hello { id: i, num_shard_per_system: k, connect_to } && i == id
            && k == num_shard_per_system && connect_to@ == peers@.subrange(id as int, peers@.len() as int),
{
    let mut connect_to: Vec<PeerAddr> = Vec::new();
    let mut j: usize = id;
    while j < peers.len()
        invariant
            id <= j <= peers@.len(),
            connect_to@ == peers@.subrange(id as int, j as int),
        decreases peers@.len() - j,
    {
        connect_to.push(peers[j]);
        assert(peers@.subrange(id as int, j + 1) =~= peers@.subrange(id as int, j as int).push(peers@[j as int]));
        j = j + 1;
    }
    NetworkMessage::Hello { id: id as u16, num_shard_per_system, connect_to }
}

/// Reads the initiator's first frame: this peer's id, the shards per peer
/// and the peers to dial.
pub fn read_hello(msg: NetworkMessage) -> (r: Result<(u16, u16, Vec<PeerAddr>), ProtocolError>)
    ensures
        match msg {
            NetworkMessage::Hello { id, num_shard_per_system, connect_to } => r == Ok::<
                (u16, u16, Vec<PeerAddr>),
                ProtocolError,
            >((id, num_shard_per_system, connect_to)),
            _ => r == Err::<(u16, u16, Vec<PeerAddr>), ProtocolError>(ProtocolError::ExpectedHello),
        },
{
    match msg {
        NetworkMessage::Hello { id, num_shard_per_system, connect_to } => Ok((id, num_shard_per_system, connect_to)),
        _ => Err(ProtocolError::ExpectedHello),
    }
}

/// Reads the first frame of a connection that a lower-numbered peer opened
/// to peer `self_id`, which has already accepted the peers in `known`.
pub fn read_peer_id(msg: &NetworkMessage, self_id: u16, known: &Vec<u16>) -> (r: Result<u16, ProtocolError>)
    ensures
        match *msg {
            NetworkMessage::Id { id } => if 1 <= id < self_id && !known@.contains(id) {
                r == Ok::<u16, ProtocolError>(id)
            } else {
                r == Err::<u16, ProtocolError>(ProtocolError::UnexpectedPeer { id })
            },
            _ => r == Err::<u16, ProtocolError>(ProtocolError::ExpectedId),
        },
{
    match msg {
        NetworkMessage::Id { id } => {
            let id = *id;
            if id < 1 || id >= self_id {
                return Err(ProtocolError::UnexpectedPeer { id });
            }
            let mut i: usize = 0;
            while i < known.len()
                invariant
                    i <= known@.len(),
                    *msg matches NetworkMessage::Id { id: x } && x == id,
                    forall|j: int| 0 <= j < i ==> known@[j] != id,
                decreases known@.len() - i,
            {
                if known[i] == id {
                    assert(known@[i as int] == id);
                    return Err(ProtocolError::UnexpectedPeer { id });
                }
                i = i + 1;
            }
            Ok(id)
        },
        _ => Err(ProtocolError::ExpectedId),
    }
}

/// Where a frame received after the mesh was built goes: a batch to the
/// shard or driver it names; a greeting breaks the protocol.
pub fn route_inbound(msg: NetworkMessage, system: &System) -> (r: Result<Inbound, ProtocolError>)
    ensures
        match msg {
            NetworkMessage::Hello { .. } => r matches Err(ProtocolError::LateGreeting),
            NetworkMessage::Id { .. } => r matches Err(ProtocolError::LateGreeting),
            NetworkMessage::DriverMessages { driver_idx, batch } => if driver_idx < system.n_drivers_of() {
                r matches Ok(Inbound::ToDriver { driver_idx: d, batch: b }) && d == driver_idx && b == batch
            } else {
                r == Err::<Inbound, ProtocolError>(ProtocolError::UnknownDriver { driver_idx })
            },
            NetworkMessage::ShardMessages { shard_id, batch } => if shard_id < system.n_shards_of() {
                r matches Ok(Inbound::ToShard { shard_id: s, batch: b }) && s == shard_id && b == batch
            } else {
                r == Err::<Inbound, ProtocolError>(ProtocolError::UnknownShard { shard_id })
            },
        },
{
    match msg {
        NetworkMessage::Hello { .. } => Err(ProtocolError::LateGreeting),
        NetworkMessage::Id { .. } => Err(ProtocolError::LateGreeting),
        NetworkMessage::DriverMessages { driver_idx, batch } => {
            if (driver_idx as usize) < system.n_drivers() {
                Ok(Inbound::ToDriver { driver_idx: driver_idx as usize, batch })
            } else {
                Err(ProtocolError::UnknownDriver { driver_idx })
            }
        },
        NetworkMessage::ShardMessages { shard_id, batch } => {
            if (shard_id as usize) < system.n_shards() {
                Ok(Inbound::ToShard { shard_id: shard_id as usize, batch })
            } else {
                Err(ProtocolError::UnknownShard { shard_id })
            }
        },
    }
}

} // verus!
