//! Per-shard node storage: for each key, its parent, the head of its child
//! list and its next sibling. A field that refers to the node itself means
//! "none".

use vstd::prelude::*;
use crate::key::{Key, LOCAL_ID_MAX, SHARD_MAX};

verus! {

/// The three links of one node.
#[derive(PartialEq, Eq, Structural, Clone, Copy, Debug)]
pub struct NodeData {
    pub parent: Key,
    pub sibling: Key,
    pub child: Key,
}

/// Names one of the three links of a node.
#[derive(PartialEq, Eq, Structural, Clone, Copy, Debug)]
pub enum Field {
    Parent,
    Sibling,
    Child,
}

/// The stored value of one link.
pub open spec fn field_of(d: NodeData, f: Field) -> Key {
    match f {
        Field::Parent => d.parent,
        Field::Sibling => d.sibling,
        Field::Child => d.child,
    }
}

/// `d` with one link replaced.
pub open spec fn with_field(d: NodeData, f: Field, v: Key) -> NodeData {
    match f {
        Field::Parent => NodeData { parent: v, ..d },
        Field::Sibling => NodeData { sibling: v, ..d },
        Field::Child => NodeData { child: v, ..d },
    }
}

/// A link as the accessors report it: none when it refers to the node itself.
pub open spec fn link(stored: Key, key: Key) -> Option<Key> {
    if stored == key {
        None
    } else {
        Some(stored)
    }
}

/// The node of `key` is stored in `nodes`.
pub open spec fn holds(nodes: Seq<NodeData>, key: Key) -> bool {
    0 <= key.local_of() < nodes.len()
}

/// The record of `key` in `nodes`.
pub open spec fn node_of(nodes: Seq<NodeData>, key: Key) -> NodeData {
    nodes[key.local_of()]
}

/// `nodes` after one link of `key` was set to `v`.
pub open spec fn set_field(nodes: Seq<NodeData>, key: Key, f: Field, v: Key) -> Seq<NodeData> {
    nodes.update(key.local_of(), with_field(nodes[key.local_of()], f, v))
}

/// A fresh node: all three links refer to itself.
pub open spec fn fresh_node(key: Key) -> NodeData {
    NodeData { parent: key, sibling: key, child: key }
}

/// The contract every storage backend meets. `nodes()` is the sequence of
/// node records, indexed by shard-local id.
pub trait Storage: Sized {
    spec fn nodes(&self) -> Seq<NodeData>;

    fn set_parent(&mut self, key: Key, value: Key)
        requires
            holds(old(self).nodes(), key),
        ensures
            final(self).nodes() == set_field(old(self).nodes(), key, Field::Parent, value),
    ;

    fn set_sibling(&mut self, key: Key, value: Key)
        requires
            holds(old(self).nodes(), key),
        ensures
            final(self).nodes() == set_field(old(self).nodes(), key, Field::Sibling, value),
    ;

    /// Sets the head of `key`'s child list and returns the stored head it
    /// replaced (the key itself when the list was empty).
    fn swap_child(&mut self, key: Key, value: Key) -> (r: Key)
        requires
            holds(old(self).nodes(), key),
        ensures
            r == node_of(old(self).nodes(), key).child,
            final(self).nodes() == set_field(old(self).nodes(), key, Field::Child, value),
    ;

    fn get_parent(&self, key: Key) -> (r: Option<Key>)
        requires
            holds(self.nodes(), key),
        ensures
            r == link(node_of(self.nodes(), key).parent, key),
    ;

    fn get_sibling(&self, key: Key) -> (r: Option<Key>)
        requires
            holds(self.nodes(), key),
        ensures
            r == link(node_of(self.nodes(), key).sibling, key),
    ;

    fn get_child(&self, key: Key) -> (r: Option<Key>)
        requires
            holds(self.nodes(), key),
        ensures
            r == link(node_of(self.nodes(), key).child, key),
    ;

    /// Number of nodes stored.
    fn node_count(&self) -> (r: usize)
        ensures
            r == self.nodes().len(),
    ;

    /// Allocates the next local id on `shard`; the new node is its own
    /// parent, child and sibling.
    fn add_node(&mut self, shard: usize) -> (r: Key)
        requires
            shard <= SHARD_MAX,
            old(self).nodes().len() <= LOCAL_ID_MAX,
        ensures
            r == Key::of(shard as int, old(self).nodes().len() as int),
            final(self).nodes() == old(self).nodes().push(fresh_node(r)),
    ;
}

/// In-memory storage: a vector indexed by shard-local id.
pub struct RamStorage {
    store: Vec<NodeData>,
}

impl RamStorage {
    fn get(&self, key: Key, field: Field) -> (r: Option<Key>)
        requires
            holds(self.store@, key),
        ensures
            r == link(field_of(node_of(self.store@, key), field), key),
    {
        let id = key.shard_specific_id();
        let len = self.store.len();
        assert(id < len);
        let idx = id as usize;
        let d = self.store[idx];
        assert(d == node_of(self.store@, key));
        let x = match field {
            Field::Parent => d.parent,
            Field::Sibling => d.sibling,
            Field::Child => d.child,
        };
        if x == key {
            None
        } else {
            Some(x)
        }
    }

    fn set(&mut self, key: Key, field: Field, value: Key) -> (r: Key)
        requires
            holds(old(self).store@, key),
        ensures
            r == field_of(node_of(old(self).store@, key), field),
            final(self).store@ == set_field(old(self).store@, key, field, value),
    {
        let id = key.shard_specific_id();
        let len = self.store.len();
        assert(id < len);
        let idx = id as usize;
        let d = self.store[idx];
        let (updated, prev) = match field {
            Field::Parent => (NodeData { parent: value, ..d }, d.parent),
            Field::Sibling => (NodeData { sibling: value, ..d }, d.sibling),
            Field::Child => (NodeData { child: value, ..d }, d.child),
        };
        self.store.set(idx, updated);
        prev
    }
}

impl Default for RamStorage {
    fn default() -> (r: RamStorage)
        ensures
            r.nodes() == Seq::<NodeData>::empty(),
    {
        RamStorage { store: Vec::new() }
    }
}

impl Storage for RamStorage {
    closed spec fn nodes(&self) -> Seq<NodeData> {
        self.store@
    }

    fn set_parent(&mut self, key: Key, value: Key) {
        self.set(key, Field::Parent, value);
    }

    fn set_sibling(&mut self, key: Key, value: Key) {
        self.set(key, Field::Sibling, value);
    }

    fn swap_child(&mut self, key: Key, value: Key) -> (r: Key) {
        self.set(key, Field::Child, value)
    }

    fn get_parent(&self, key: Key) -> (r: Option<Key>) {
        self.get(key, Field::Parent)
    }

    fn get_sibling(&self, key: Key) -> (r: Option<Key>) {
        self.get(key, Field::Sibling)
    }

    fn get_child(&self, key: Key) -> (r: Option<Key>) {
        self.get(key, Field::Child)
    }

    fn node_count(&self) -> (r: usize) {
        self.store.len()
    }

    fn add_node(&mut self, shard: usize) -> (r: Key) {
        let shard_specific_id = self.store.len() as u64;
        let key = Key::new(shard, shard_specific_id);
        self.store.push(NodeData { parent: key, sibling: key, child: key });
        key
    }
}

} // verus!
