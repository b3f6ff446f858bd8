use big_uf::key::Key;
use big_uf::message::ShardMessage;
use big_uf::network::{
    hello, read_hello, read_peer_id, route_inbound, Inbound, NetworkMessage, PeerAddr, PeerIp,
    ProtocolError,
};
use big_uf::request::{DriverMessage, ReqId};
use big_uf::system::System;

fn addr(last: u8, port: u16) -> PeerAddr {
    PeerAddr { ip: PeerIp::V4([127, 0, 0, last]), port }
}

#[test]
fn hello_lists_the_later_peers() {
    let peers = vec![addr(1, 10000), addr(2, 10001), addr(3, 10002)];
    assert_eq!(
        hello(&peers, 1, 4),
        NetworkMessage::Hello { id: 1, num_shard_per_system: 4, connect_to: vec![addr(2, 10001), addr(3, 10002)] }
    );
    assert_eq!(
        hello(&peers, 3, 4),
        NetworkMessage::Hello { id: 3, num_shard_per_system: 4, connect_to: vec![] }
    );
}

#[test]
fn first_frame_must_be_hello() {
    let ok = read_hello(NetworkMessage::Hello { id: 2, num_shard_per_system: 3, connect_to: vec![addr(9, 1)] });
    assert_eq!(ok, Ok((2, 3, vec![addr(9, 1)])));
    assert_eq!(read_hello(NetworkMessage::Id { id: 1 }), Err(ProtocolError::ExpectedHello));
}

#[test]
fn peers_dial_in_with_lower_ids_once() {
    let known = vec![1u16];
    assert_eq!(read_peer_id(&NetworkMessage::Id { id: 2 }, 3, &known), Ok(2));
    assert_eq!(
        read_peer_id(&NetworkMessage::Id { id: 1 }, 3, &known),
        Err(ProtocolError::UnexpectedPeer { id: 1 })
    );
    assert_eq!(
        read_peer_id(&NetworkMessage::Id { id: 0 }, 3, &known),
        Err(ProtocolError::UnexpectedPeer { id: 0 })
    );
    assert_eq!(
        read_peer_id(&NetworkMessage::Id { id: 3 }, 3, &known),
        Err(ProtocolError::UnexpectedPeer { id: 3 })
    );
    let greeting = NetworkMessage::Hello { id: 1, num_shard_per_system: 1, connect_to: vec![] };
    assert_eq!(read_peer_id(&greeting, 3, &known), Err(ProtocolError::ExpectedId));
}

#[test]
fn inbound_batches_reach_their_endpoint() {
    let system = System::mesh(1, 2, 2);
    let r = ReqId::new(0, 1);
    let done = vec![DriverMessage::UnionDone { req_id: r }];
    match route_inbound(NetworkMessage::DriverMessages { driver_idx: 0, batch: done.clone() }, &system) {
        Ok(Inbound::ToDriver { driver_idx, batch }) => {
            assert_eq!(driver_idx, 0);
            assert_eq!(batch, done);
        }
        _ => panic!("driver batch was not routed"),
    }
    let work = vec![ShardMessage::SetParent { node: Key::new(3, 0), to: Key::new(2, 0) }];
    match route_inbound(NetworkMessage::ShardMessages { shard_id: 3, batch: work.clone() }, &system) {
        Ok(Inbound::ToShard { shard_id, batch }) => {
            assert_eq!(shard_id, 3);
            assert_eq!(batch, work);
        }
        _ => panic!("shard batch was not routed"),
    }
}

#[test]
fn inbound_rejects_greetings_and_unknown_ids() {
    let system = System::mesh(0, 2, 1);
    assert!(matches!(
        route_inbound(NetworkMessage::Id { id: 1 }, &system),
        Err(ProtocolError::LateGreeting)
    ));
    assert!(matches!(
        route_inbound(NetworkMessage::Hello { id: 1, num_shard_per_system: 1, connect_to: vec![] }, &system),
        Err(ProtocolError::LateGreeting)
    ));
    assert!(matches!(
        route_inbound(NetworkMessage::ShardMessages { shard_id: 2, batch: vec![] }, &system),
        Err(ProtocolError::UnknownShard { shard_id: 2 })
    ));
    assert!(matches!(
        route_inbound(NetworkMessage::DriverMessages { driver_idx: 1, batch: vec![] }, &system),
        Err(ProtocolError::UnknownDriver { driver_idx: 1 })
    ));
}
