use big_uf::batching::MessageBatching;
use big_uf::driver::Driver;
use big_uf::frame::{decode_frame, encode_frame};
use big_uf::key::Key;
use big_uf::message::ShardMessage;
use big_uf::request::{DriverMessage, ReqId};
use big_uf::storage::{RamStorage, Storage};
use big_uf::system::{Endpoint, System};

#[test]
fn key_packs_shard_and_local_id() {
    let k = Key::new(3, 7);
    assert_eq!(k.inner, (3u64 << 48) | 7);
    assert_eq!(k.shard(), 3);
    assert_eq!(k.shard_specific_id(), 7);
}

#[test]
fn key_largest_parts() {
    let k = Key::new(0xFFFF, 0xFFFF_FFFF_FFFF);
    assert_eq!(k.inner, u64::MAX);
    assert_eq!(k.shard(), 0xFFFF);
    assert_eq!(k.shard_specific_id(), 0xFFFF_FFFF_FFFF);
    let low = Key::new(0, 0x1_0000_0000);
    assert_eq!(low.shard(), 0);
    assert_eq!(low.shard_specific_id(), 0x1_0000_0000);
}

#[test]
fn keys_order_by_shard_first() {
    assert!(Key::new(0, 5) < Key::new(1, 0));
    assert!(Key::new(2, 1) < Key::new(2, 2));
}

#[test]
fn req_id_packs_driver_and_counter() {
    let r = ReqId::new(5, 123_456);
    assert_eq!(r.inner, (5u64 << 48) | 123_456);
    assert_eq!(r.driver(), 5);
    assert_eq!(r.driver_specific_id(), 123_456);
}

#[test]
fn completions_go_to_the_issuing_driver() {
    let r = ReqId::new(2, 9);
    let k = Key::new(1, 1);
    assert_eq!(DriverMessage::UnionDone { req_id: r }.target_driver(), 2);
    assert_eq!(DriverMessage::FindDone { req_id: r, response: k }.target_driver(), 2);
    assert_eq!(DriverMessage::AddNodeDone { req_id: r, response: k }.target_driver(), 2);
    assert_eq!(DriverMessage::ShutdownDone { req_id: r }.target_driver(), 2);
}

#[test]
fn shard_messages_go_to_the_owner_of_their_node() {
    let r = ReqId::new(0, 1);
    let a = Key::new(4, 0);
    let b = Key::new(6, 0);
    assert_eq!(ShardMessage::AddNode { shard: 3, req_id: r }.target_shard(), 3);
    assert_eq!(ShardMessage::Union { node: a, to: b, child: a, req_id: r }.target_shard(), 4);
    assert_eq!(ShardMessage::SetChild { node: b, to: a, req_id: r }.target_shard(), 6);
    assert_eq!(ShardMessage::SetSibling { node: a, to: b, req_id: r }.target_shard(), 4);
    assert_eq!(ShardMessage::SetParent { node: b, to: a }.target_shard(), 6);
    assert_eq!(ShardMessage::Find { node: a, child: a, req_id: r }.target_shard(), 4);
    assert_eq!(ShardMessage::GracefulShutdown { shard: 7, req_id: r }.target_shard(), 7);
}

#[test]
fn ram_storage_fresh_nodes_are_roots() {
    let mut s = RamStorage::default();
    let a = s.add_node(2);
    let b = s.add_node(2);
    assert_eq!(a, Key::new(2, 0));
    assert_eq!(b, Key::new(2, 1));
    assert_eq!(s.node_count(), 2);
    assert_eq!(s.get_parent(a), None);
    assert_eq!(s.get_child(a), None);
    assert_eq!(s.get_sibling(a), None);
}

#[test]
fn ram_storage_links() {
    let mut s = RamStorage::default();
    let a = s.add_node(0);
    let b = s.add_node(0);
    s.set_parent(a, b);
    assert_eq!(s.get_parent(a), Some(b));
    assert_eq!(s.get_parent(b), None);
    assert_eq!(s.swap_child(b, a), b);
    assert_eq!(s.get_child(b), Some(a));
    assert_eq!(s.swap_child(b, b), a);
    assert_eq!(s.get_child(b), None);
    s.set_sibling(a, b);
    assert_eq!(s.get_sibling(a), Some(b));
    s.set_parent(a, a);
    assert_eq!(s.get_parent(a), None);
}

#[test]
fn batching_hands_over_full_buffers() {
    let system = System::local_shards(1, 2);
    let mut b = MessageBatching::new(&system);
    assert_eq!(b.batch_len, 50_000);
    b.batch_len = 2;
    let r = ReqId::new(0, 0);
    let m = |i: u64| ShardMessage::SetParent { node: Key::new(1, i), to: Key::new(1, 0) };
    b.send_to_shard(m(1));
    b.send_to_shard(m(2));
    assert!(b.take_shard_batches().is_empty());
    b.send_to_shard(m(3));
    let ready = b.take_shard_batches();
    assert_eq!(ready, vec![(1, vec![m(1), m(2), m(3)])]);
    b.send_to_shard(m(4));
    b.send_to_shard(ShardMessage::AddNode { shard: 0, req_id: r });
    b.send_to_driver(DriverMessage::UnionDone { req_id: r });
    assert!(b.take_shard_batches().is_empty());
    b.flush();
    assert_eq!(
        b.take_shard_batches(),
        vec![(0, vec![ShardMessage::AddNode { shard: 0, req_id: r }]), (1, vec![m(4)])]
    );
    assert_eq!(b.take_driver_batches(), vec![(0, vec![DriverMessage::UnionDone { req_id: r }])]);
    b.flush();
    assert!(b.take_shard_batches().is_empty());
    assert!(b.take_driver_batches().is_empty());
}

#[test]
fn local_tables_point_at_local_queues() {
    let system = System::local_shards(2, 3);
    assert_eq!(system.n_drivers(), 2);
    assert_eq!(system.n_shards(), 3);
    assert_eq!(system.shard(2), Endpoint::Local { index: 2 });
    assert_eq!(system.driver(1), Endpoint::Local { index: 1 });
}

#[test]
fn mesh_tables_split_shards_by_peer() {
    let initiator = System::mesh(0, 3, 2);
    assert_eq!(initiator.n_shards(), 6);
    assert_eq!(initiator.n_drivers(), 1);
    assert_eq!(initiator.driver(0), Endpoint::Local { index: 0 });
    assert_eq!(initiator.shard(1), Endpoint::Local { index: 1 });
    assert_eq!(initiator.shard(2), Endpoint::Remote { peer: 1, id: 2 });
    assert_eq!(initiator.shard(5), Endpoint::Remote { peer: 2, id: 5 });
    let peer = System::mesh(1, 3, 2);
    assert_eq!(peer.driver(0), Endpoint::Remote { peer: 0, id: 0 });
    assert_eq!(peer.shard(0), Endpoint::Remote { peer: 0, id: 0 });
    assert_eq!(peer.shard(2), Endpoint::Local { index: 0 });
    assert_eq!(peer.shard(3), Endpoint::Local { index: 1 });
    assert_eq!(peer.shard(4), Endpoint::Remote { peer: 2, id: 4 });
}

#[test]
fn frame_prefixes_little_endian_length() {
    assert_eq!(encode_frame(&[1, 2, 3]), vec![3, 0, 0, 0, 1, 2, 3]);
    let big = vec![7u8; 300];
    let framed = encode_frame(&big);
    assert_eq!(&framed[..4], &[44, 1, 0, 0]);
    assert_eq!(framed.len(), 304);
    assert_eq!(encode_frame(&[]), vec![0, 0, 0, 0]);
}

#[test]
fn frame_decodes_what_was_encoded() {
    let payload = vec![9u8, 8, 7, 6, 5];
    let mut buf = encode_frame(&payload);
    buf.extend_from_slice(&[1, 2]);
    let (data, used) = decode_frame(&buf).unwrap();
    assert_eq!(data, payload);
    assert_eq!(used, 9);
}

#[test]
fn frame_waits_for_more_bytes() {
    assert_eq!(decode_frame(&[]), None);
    assert_eq!(decode_frame(&[5, 0, 0]), None);
    assert_eq!(decode_frame(&[5, 0, 0, 0, 1, 2]), None);
    assert_eq!(decode_frame(&[0, 0, 0, 0]), Some((vec![], 4)));
    assert_eq!(decode_frame(&[0, 1, 0, 0]), None);
}

#[test]
fn driver_turns_requests_into_first_hops() {
    let system = System::local_shards(2, 2);
    let mut d = Driver::new(&system, 1);
    assert_eq!(d.driver_id(), 1);
    assert_eq!(d.n_shards(), 2);
    let a = Key::new(0, 3);
    let b = Key::new(1, 4);
    d.add_node(10, 1);
    d.union(11, a, b);
    d.find(12, b);
    d.flush();
    let r = |i: u64| ReqId::new(1, i);
    assert_eq!(
        d.take_shard_batches(),
        vec![
            (0, vec![ShardMessage::Union { node: a, to: b, child: a, req_id: r(11) }]),
            (
                1,
                vec![
                    ShardMessage::AddNode { shard: 1, req_id: r(10) },
                    ShardMessage::Find { node: b, child: b, req_id: r(12) },
                ]
            ),
        ]
    );
}

#[test]
fn driver_shutdown_reaches_every_shard() {
    let system = System::local_shards(1, 3);
    let mut d = Driver::new(&system, 0);
    d.shutdown_all(4);
    let r = ReqId::new(0, 4);
    assert_eq!(
        d.take_shard_batches(),
        vec![
            (0, vec![ShardMessage::GracefulShutdown { shard: 0, req_id: r }]),
            (1, vec![ShardMessage::GracefulShutdown { shard: 1, req_id: r }]),
            (2, vec![ShardMessage::GracefulShutdown { shard: 2, req_id: r }]),
        ]
    );
}
