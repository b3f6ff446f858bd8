//! A sharded union-find whose operations travel as one-hop messages between
//! shards: the key encoding, the per-shard storage, the shard state machine,
//! outbound batching, endpoint tables, the mesh protocol and wire framing;
//! and, over a model of all shards' parent links, the laws the protocol
//! keeps.

pub mod key;
pub mod request;
pub mod message;
pub mod storage;
pub mod system;
pub mod batching;
pub mod shard;
pub mod driver;
pub mod frame;
pub mod forest;
pub mod protocol;
pub mod network;
