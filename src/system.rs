//! The endpoint tables of one process: for every shard id and driver id,
//! where its batches go.

use vstd::prelude::*;

verus! {

/// Where the batches for one shard or driver are delivered.
#[derive(PartialEq, Eq, Structural, Clone, Copy, Debug)]
pub enum Endpoint {
    /// An in-process queue, by its index among this process's local queues.
    Local { index: usize },
    /// The forwarder of peer `peer`, with the global id at the far end.
    Remote { peer: u16, id: u16 },
}

/// The endpoint of shard `s` as seen from peer `self_id`, where peer `p`
/// owns the `k` shard ids from `p * k` on.
pub open spec fn shard_endpoint(self_id: int, k: int, s: int) -> Endpoint {
    if s / k == self_id {
        Endpoint::Local { index: (s % k) as usize }
    } else {
        Endpoint::Remote { peer: (s / k) as u16, id: s as u16 }
    }
}

/// The endpoint of driver 0, which lives on peer 0, as seen from `self_id`.
pub open spec fn driver_endpoint(self_id: int) -> Endpoint {
    if self_id == 0 {
        Endpoint::Local { index: 0 }
    } else {
        Endpoint::Remote { peer: 0, id: 0 }
    }
}

/// The endpoint tables, indexed by global shard id and global driver id.
pub struct System {
    drivers: Vec<Endpoint>,
    shards: Vec<Endpoint>,
}

impl System {
    pub closed spec fn shards_of(&self) -> Seq<Endpoint> {
        self.shards@
    }

    pub closed spec fn drivers_of(&self) -> Seq<Endpoint> {
        self.drivers@
    }

    pub open spec fn n_shards_of(&self) -> nat {
        self.shards_of().len()
    }

    pub open spec fn n_drivers_of(&self) -> nat {
        self.drivers_of().len()
    }

    /// Tables for one process that hosts every shard and every driver.
    pub fn local_shards(n_drivers: usize, n_shards: u16) -> (r: System)
        ensures
            r.n_drivers_of() == n_drivers,
            r.n_shards_of() == n_shards,
            forall|i: int| 0 <= i < n_drivers ==> r.drivers_of()[i] == (Endpoint::Local { index: i as usize }),
            forall|i: int| 0 <= i < n_shards ==> r.shards_of()[i] == (Endpoint::Local { index: i as usize }),
    {
        let mut drivers: Vec<Endpoint> = Vec::new();
        let mut i: usize = 0;
        while i < n_drivers
            invariant
                i <= n_drivers,
                drivers@.len() == i,
                forall|j: int| 0 <= j < i ==> drivers@[j] == (Endpoint::Local { index: j as usize }),
            decreases n_drivers - i,
        {
            drivers.push(Endpoint::Local { index: i });
            i = i + 1;
        }
        let mut shards: Vec<Endpoint> = Vec::new();
        let mut s: u16 = 0;
        while s < n_shards
            invariant
                s <= n_shards,
                shards@.len() == s,
                forall|j: int| 0 <= j < s ==> shards@[j] == (Endpoint::Local { index: j as usize }),
            decreases n_shards - s,
        {
            shards.push(Endpoint::Local { index: s as usize });
            s = s + 1;
        }
        System { drivers, shards }
    }

    /// Tables for peer `self_id` of a mesh of `n_peers` peers that each host
    /// `num_shard_per_system` shards; driver 0 lives on peer 0.
    pub fn mesh(self_id: u16, n_peers: u16, num_shard_per_system: u16) -> (r: System)
        requires
            num_shard_per_system > 0,
            self_id < n_peers,
            n_peers as int * num_shard_per_system as int <= 0x10000,
        ensures
            r.n_drivers_of() == 1,
            r.drivers_of()[0] == driver_endpoint(self_id as int),
            r.n_shards_of() == n_peers * num_shard_per_system,
            forall|s: int|
                0 <= s < r.n_shards_of() ==> r.shards_of()[s] == shard_endpoint(
                    self_id as int,
                    num_shard_per_system as int,
                    s,
                ),
    {
        let driver = if self_id == 0 {
            Endpoint::Local { index: 0 }
        } else {
            Endpoint::Remote { peer: 0, id: 0 }
        };
        let drivers = vec![driver];
        let k = num_shard_per_system as u32;
        let total = n_peers as u32 * k;
        let mut shards: Vec<Endpoint> = Vec::new();
        let mut s: u32 = 0;
        while s < total
            invariant
                k > 0,
                total == n_peers * k,
                total <= 0x10000,
                s <= total,
                shards@.len() == s,
                forall|j: int| 0 <= j < s ==> shards@[j] == shard_endpoint(self_id as int, k as int, j),
            decreases total - s,
        {
            let owner = s / k;
            proof {
                assert(owner <= s);
            }
            if owner == self_id as u32 {
                shards.push(Endpoint::Local { index: (s % k) as usize });
            } else {
                shards.push(Endpoint::Remote { peer: owner as u16, id: s as u16 });
            }
            s = s + 1;
        }
        System { drivers, shards }
    }

    /// The endpoint of shard `shard_id`.
    pub fn shard(&self, shard_id: usize) -> (r: Endpoint)
        requires
            shard_id < self.n_shards_of(),
        ensures
            r == self.shards_of()[shard_id as int],
    {
        self.shards[shard_id]
    }

    /// The endpoint of driver `driver_id`.
    pub fn driver(&self, driver_id: usize) -> (r: Endpoint)
        requires
            driver_id < self.n_drivers_of(),
        ensures
            r == self.drivers_of()[driver_id as int],
    {
        self.drivers[driver_id]
    }

    pub fn n_shards(&self) -> (r: usize)
        ensures
            r == self.n_shards_of(),
    {
        self.shards.len()
    }

    pub fn n_drivers(&self) -> (r: usize)
        ensures
            r == self.n_drivers_of(),
    {
        self.drivers.len()
    }
}

} // verus!
