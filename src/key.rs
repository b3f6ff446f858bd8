//! Node keys: the high 16 bits name the owning shard, the low 48 bits a
//! shard-local sequence number.

use vstd::prelude::*;

verus! {

/// Number of distinct shard-local ids (two to the 48th).
pub const LOCAL_SPAN: u64 = 0x1_0000_0000_0000;

/// Largest shard-local id.
pub const LOCAL_ID_MAX: u64 = 0xFFFF_FFFF_FFFF;

/// Largest shard id.
pub const SHARD_MAX: usize = 0xFFFF;

/// Splitting a 64-bit word into its high 16 and low 48 bits.
pub proof fn lemma_split_word(x: u64)
    ensures
        x >> 48u64 == x / 0x1_0000_0000_0000u64,
        x & 0xFFFF_FFFF_FFFFu64 == x % 0x1_0000_0000_0000u64,
        x >> 48u64 <= 0xFFFFu64,
{
    assert(x >> 48u64 == x / 0x1_0000_0000_0000u64) by (bit_vector);
    assert(x & 0xFFFF_FFFF_FFFFu64 == x % 0x1_0000_0000_0000u64) by (bit_vector);
    assert(x >> 48u64 <= 0xFFFFu64) by (bit_vector);
}

/// Joining a 16-bit high part and a 48-bit low part into one word.
pub proof fn lemma_join_word(hi: u64, lo: u64)
    requires
        hi <= 0xFFFF,
        lo <= 0xFFFF_FFFF_FFFF,
    ensures
        (hi << 48u64) | lo == hi * 0x1_0000_0000_0000u64 + lo,
        ((hi << 48u64) | lo) >> 48u64 == hi,
        ((hi << 48u64) | lo) & 0xFFFF_FFFF_FFFFu64 == lo,
{
    assert((hi << 48u64) | lo == hi * 0x1_0000_0000_0000u64 + lo) by (bit_vector)
        requires
            hi <= 0xFFFF,
            lo <= 0xFFFF_FFFF_FFFF,
    ;
    assert(((hi << 48u64) | lo) >> 48u64 == hi) by (bit_vector)
        requires
            hi <= 0xFFFF,
            lo <= 0xFFFF_FFFF_FFFF,
    ;
    assert(((hi << 48u64) | lo) & 0xFFFF_FFFF_FFFFu64 == lo) by (bit_vector)
        requires
            hi <= 0xFFFF,
            lo <= 0xFFFF_FFFF_FFFF,
    ;
}

/// The shard and local id of a key built from them.
pub proof fn lemma_of_parts(shard: int, local: int)
    requires
        0 <= shard <= SHARD_MAX,
        0 <= local <= LOCAL_ID_MAX,
    ensures
        Key::of(shard, local).shard_of() == shard,
        Key::of(shard, local).local_of() == local,
{
    let x = shard * LOCAL_SPAN + local;
    assert(0 <= x <= 0xFFFF_FFFF_FFFF_FFFF) by (nonlinear_arith)
        requires
            0 <= shard <= 0xFFFF,
            0 <= local <= 0xFFFF_FFFF_FFFF,
            x == shard * 0x1_0000_0000_0000 + local,
    ;
    assert(x / (LOCAL_SPAN as int) == shard && x % (LOCAL_SPAN as int) == local) by (nonlinear_arith)
        requires
            0 <= local < 0x1_0000_0000_0000,
            x == shard * 0x1_0000_0000_0000 + local,
    ;
}

/// A node identifier, stable on the wire as one `u64`.
#[derive(PartialEq, Eq, Structural, Clone, Copy, PartialOrd, Ord, Hash, Debug)]
pub struct Key {
    pub inner: u64,
}

impl Key {
    /// The shard that owns this key.
    pub open spec fn shard_of(self) -> int {
        self.inner as int / LOCAL_SPAN as int
    }

    /// The shard-local sequence number of this key.
    pub open spec fn local_of(self) -> int {
        self.inner as int % LOCAL_SPAN as int
    }

    /// The key with the given shard and local id.
    pub open spec fn of(shard: int, local: int) -> Key {
        Key { inner: (shard * LOCAL_SPAN + local) as u64 }
    }

    pub fn new(shard: usize, shard_specific_id: u64) -> (r: Key)
        requires
            shard <= SHARD_MAX,
            shard_specific_id <= LOCAL_ID_MAX,
        ensures
            r == Key::of(shard as int, shard_specific_id as int),
            r.shard_of() == shard,
            r.local_of() == shard_specific_id,
    {
        let hi = shard as u64;
        proof {
            lemma_join_word(hi, shard_specific_id);
            lemma_split_word((hi << 48u64) | shard_specific_id);
        }
        Key { inner: (hi << 48u64) | shard_specific_id }
    }

    pub fn shard(self) -> (r: usize)
        ensures
            r == self.shard_of(),
            r <= SHARD_MAX,
    {
        proof {
            lemma_split_word(self.inner);
        }
        (self.inner >> 48u64) as usize
    }

    pub fn shard_specific_id(self) -> (r: u64)
        ensures
            r == self.local_of(),
            r <= LOCAL_ID_MAX,
    {
        proof {
            lemma_split_word(self.inner);
        }
        self.inner & 0xFFFF_FFFF_FFFFu64
    }
}

} // verus!
