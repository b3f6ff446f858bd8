use std::collections::{HashSet, VecDeque};

use big_uf::driver::Driver;
use big_uf::key::Key;
use big_uf::message::ShardMessage;
use big_uf::request::DriverMessage;
use big_uf::shard::UnionFindShardData;
use big_uf::storage::{RamStorage, Storage};
use big_uf::system::System;

/// Shards and drivers of one process, with batches routed by hand.
struct Cluster {
    shards: Vec<UnionFindShardData<RamStorage>>,
    drivers: Vec<Driver>,
    inboxes: Vec<VecDeque<Vec<ShardMessage>>>,
    completions: Vec<Vec<DriverMessage>>,
    stopped: Vec<bool>,
}

impl Cluster {
    fn new(n_drivers: usize, n_shards: u16) -> Cluster {
        let system = System::local_shards(n_drivers, n_shards);
        Cluster {
            shards: (0..n_shards as usize)
                .map(|i| UnionFindShardData::new(&system, i, RamStorage::default()))
                .collect(),
            drivers: (0..n_drivers).map(|d| Driver::new(&system, d)).collect(),
            inboxes: (0..n_shards).map(|_| VecDeque::new()).collect(),
            completions: (0..n_drivers).map(|_| Vec::new()).collect(),
            stopped: vec![false; n_shards as usize],
        }
    }

    fn flush_driver(&mut self, d: usize) {
        self.drivers[d].flush();
        for (dest, batch) in self.drivers[d].take_shard_batches() {
            self.inboxes[dest].push_back(batch);
        }
    }

    fn run_shard_round(&mut self, i: usize) {
        let mut should_stop = None;
        while let Some(batch) = self.inboxes[i].pop_front() {
            for msg in batch {
                let shard = &mut self.shards[i];
                assert!(shard.accepts_message(&msg));
                should_stop = should_stop.or(shard.process_message(msg));
                while let Some(local) = shard.next_local() {
                    assert!(shard.accepts_message(&local));
                    should_stop = should_stop.or(shard.process_message(local));
                }
            }
        }
        let stop = self.shards[i].end_round(should_stop);
        let shard_batches = self.shards[i].other_shard_batching.take_shard_batches();
        let driver_batches = self.shards[i].other_shard_batching.take_driver_batches();
        for (dest, batch) in shard_batches {
            self.inboxes[dest].push_back(batch);
        }
        for (dest, batch) in driver_batches {
            self.completions[dest].extend(batch);
        }
        if stop {
            self.stopped[i] = true;
        }
    }

    fn settle(&mut self) {
        for d in 0..self.drivers.len() {
            self.flush_driver(d);
        }
        while let Some(i) = (0..self.inboxes.len()).find(|&i| !self.inboxes[i].is_empty()) {
            self.run_shard_round(i);
        }
    }

    fn take_completions(&mut self, d: usize) -> Vec<DriverMessage> {
        std::mem::take(&mut self.completions[d])
    }

    fn find(&mut self, req: u64, node: Key) -> Key {
        self.drivers[0].find(req, node);
        self.settle();
        let done = self.take_completions(0);
        assert_eq!(done.len(), 1);
        match done[0] {
            DriverMessage::FindDone { req_id, response } => {
                assert_eq!(req_id.driver_specific_id(), req);
                response
            }
            other => panic!("unexpected completion {:?}", other),
        }
    }

    fn add_node(&mut self, req: u64, shard: u16) -> Key {
        self.drivers[0].add_node(req, shard);
        self.settle();
        let done = self.take_completions(0);
        assert_eq!(done.len(), 1);
        match done[0] {
            DriverMessage::AddNodeDone { req_id, response } => {
                assert_eq!(req_id.driver_specific_id(), req);
                response
            }
            other => panic!("unexpected completion {:?}", other),
        }
    }

    fn union(&mut self, req: u64, a: Key, b: Key) {
        self.drivers[0].union(req, a, b);
        self.settle();
        let done = self.take_completions(0);
        assert_eq!(done.len(), 1);
        match done[0] {
            DriverMessage::UnionDone { req_id } => assert_eq!(req_id.driver_specific_id(), req),
            other => panic!("unexpected completion {:?}", other),
        }
    }

    fn parent_of(&self, k: Key) -> Option<Key> {
        self.shards[k.shard()].storage.get_parent(k)
    }
}

#[test]
fn two_shards_add_union_find() {
    let mut c = Cluster::new(1, 2);
    let k0 = c.add_node(0, 0);
    assert_eq!(k0, Key::new(0, 0));
    let k1 = c.add_node(1, 1);
    assert_eq!(k1, Key::new(1, 0));
    c.union(2, k0, k1);
    assert_eq!(c.find(3, k0), Key::new(1, 0));
}

#[test]
fn chain_of_unions_shares_a_root() {
    let mut c = Cluster::new(1, 2);
    let k0 = c.add_node(0, 0);
    let k1 = c.add_node(1, 1);
    let k2 = c.add_node(2, 0);
    c.union(3, k0, k1);
    c.union(4, k2, k1);
    let r0 = c.find(5, k0);
    let r2 = c.find(6, k2);
    assert_eq!(r0, r2);
    assert_eq!(c.find(7, k1), r0);
}

#[test]
fn self_union_keeps_node_its_own_root() {
    let mut c = Cluster::new(1, 2);
    let k = c.add_node(0, 1);
    c.union(1, k, k);
    assert_eq!(c.find(2, k), k);
    assert_eq!(c.parent_of(k), None);
}

#[test]
fn two_drivers_get_distinct_keys() {
    let mut c = Cluster::new(2, 4);
    for d in 0..2 {
        for id in 0..1000u64 {
            c.drivers[d].add_node(id, (id % 4) as u16);
        }
    }
    c.settle();
    let mut keys = HashSet::new();
    for d in 0..2 {
        let done = c.take_completions(d);
        assert_eq!(done.len(), 1000);
        for msg in done {
            match msg {
                DriverMessage::AddNodeDone { req_id, response } => {
                    assert_eq!(req_id.driver(), d);
                    keys.insert(response);
                }
                other => panic!("unexpected completion {:?}", other),
            }
        }
    }
    assert_eq!(keys.len(), 2000);
}

#[test]
fn shutdown_answers_once_per_shard() {
    let mut c = Cluster::new(1, 3);
    let a = c.add_node(0, 0);
    let b = c.add_node(1, 2);
    c.union(2, a, b);
    c.drivers[0].shutdown_all(9);
    c.settle();
    let done = c.take_completions(0);
    assert_eq!(done.len(), 3);
    for msg in done {
        assert!(matches!(msg, DriverMessage::ShutdownDone { req_id } if req_id.driver_specific_id() == 9));
    }
    assert_eq!(c.stopped, vec![true, true, true]);
}

#[test]
fn each_request_completes_exactly_once() {
    let mut c = Cluster::new(1, 3);
    for id in 0..30u64 {
        c.drivers[0].add_node(id, (id % 3) as u16);
    }
    c.settle();
    let keys: Vec<Key> = c
        .take_completions(0)
        .into_iter()
        .map(|m| match m {
            DriverMessage::AddNodeDone { response, .. } => response,
            other => panic!("unexpected completion {:?}", other),
        })
        .collect();
    assert_eq!(keys.len(), 30);
    for i in 0..29u64 {
        c.drivers[0].union(100 + i, keys[i as usize], keys[i as usize + 1]);
    }
    c.settle();
    let unions = c.take_completions(0);
    assert_eq!(unions.len(), 29);
    let mut ids: Vec<u64> = unions
        .iter()
        .map(|m| match m {
            DriverMessage::UnionDone { req_id } => req_id.driver_specific_id(),
            other => panic!("unexpected completion {:?}", other),
        })
        .collect();
    ids.sort();
    assert_eq!(ids, (100..129).collect::<Vec<u64>>());
    for (i, k) in keys.iter().enumerate() {
        c.drivers[0].find(200 + i as u64, *k);
    }
    c.settle();
    let finds = c.take_completions(0);
    assert_eq!(finds.len(), 30);
    let roots: HashSet<Key> = finds
        .iter()
        .map(|m| match m {
            DriverMessage::FindDone { response, .. } => *response,
            other => panic!("unexpected completion {:?}", other),
        })
        .collect();
    assert_eq!(roots.len(), 1);
}

#[test]
fn every_node_reaches_a_root_after_unions() {
    let mut c = Cluster::new(1, 2);
    let keys: Vec<Key> = (0..8u64).map(|i| c.add_node(i, (i % 2) as u16)).collect();
    c.union(10, keys[0], keys[1]);
    c.union(11, keys[2], keys[3]);
    c.union(12, keys[0], keys[3]);
    c.union(13, keys[4], keys[0]);
    for k in &keys {
        let mut cur = *k;
        let mut steps = 0;
        while let Some(p) = c.parent_of(cur) {
            cur = p;
            steps += 1;
            assert!(steps <= keys.len());
        }
    }
}

#[test]
fn find_compresses_without_changing_roots() {
    let mut c = Cluster::new(1, 2);
    let a = c.add_node(0, 0);
    let b = c.add_node(1, 1);
    let d = c.add_node(2, 0);
    c.union(3, a, b);
    c.union(4, b, d);
    assert_eq!(c.parent_of(a), Some(b));
    assert_eq!(c.parent_of(b), Some(d));
    let before = c.find(5, a);
    assert_eq!(before, d);
    assert_eq!(c.parent_of(a), Some(d));
    assert_eq!(c.find(6, a), d);
    assert_eq!(c.find(7, b), d);
}

#[test]
fn linked_roots_are_listed_as_children() {
    let mut c = Cluster::new(1, 2);
    let p = c.add_node(0, 0);
    let x = c.add_node(1, 1);
    let y = c.add_node(2, 0);
    assert_eq!(c.shards[0].storage.get_child(p), None);
    c.union(3, x, p);
    c.union(4, y, p);
    let mut listed = Vec::new();
    let mut cur = c.shards[0].storage.get_child(p).unwrap();
    loop {
        listed.push(cur);
        match c.shards[cur.shard()].storage.get_sibling(cur) {
            Some(next) if next != p => cur = next,
            _ => break,
        }
    }
    assert_eq!(listed, vec![y, x]);
}

fn children_of(c: &Cluster, p: Key) -> Vec<Key> {
    let mut listed = Vec::new();
    let mut next = c.shards[p.shard()].storage.get_child(p);
    while let Some(cur) = next {
        if cur == p {
            break;
        }
        listed.push(cur);
        next = c.shards[cur.shard()].storage.get_sibling(cur);
    }
    listed
}

#[test]
fn self_union_keeps_root_children_listed() {
    let mut c = Cluster::new(1, 2);
    let p = c.add_node(0, 0);
    let x = c.add_node(1, 1);
    let y = c.add_node(2, 0);
    c.union(3, x, p);
    c.union(4, y, p);
    assert_eq!(children_of(&c, p), vec![y, x]);
    c.union(5, p, p);
    assert_eq!(children_of(&c, p), vec![y, x]);
    assert_eq!(c.parent_of(p), None);
    assert_eq!(c.find(6, x), p);
}

#[test]
fn union_with_own_root_changes_nothing() {
    let mut c = Cluster::new(1, 2);
    let p = c.add_node(0, 0);
    let x = c.add_node(1, 1);
    c.union(2, x, p);
    c.union(3, x, p);
    assert_eq!(children_of(&c, p), vec![x]);
    assert_eq!(c.parent_of(x), Some(p));
    assert_eq!(c.parent_of(p), None);
    assert_eq!(c.find(4, x), p);
}

#[test]
fn child_list_ends_in_self_reference() {
    let mut c = Cluster::new(1, 2);
    let p = c.add_node(0, 0);
    let x = c.add_node(1, 1);
    c.union(2, x, p);
    assert_eq!(c.shards[0].storage.get_child(p), Some(x));
    assert_eq!(c.shards[1].storage.get_sibling(x), None);
    let y = c.add_node(3, 0);
    c.union(4, y, p);
    assert_eq!(c.shards[0].storage.get_child(p), Some(y));
    assert_eq!(c.shards[0].storage.get_sibling(y), Some(x));
    assert_eq!(c.shards[1].storage.get_sibling(x), None);
}
