//! Shard routing: a stable, deterministic hash of a key, reduced modulo the
//! shard count.  Routing is a pure function of the key bytes and the shard
//! count, so a key always maps to the same shard for the lifetime of a store.

use vstd::prelude::*;

verus! {

/// Offset basis of the 64-bit FNV-1a hash.
pub const FNV_OFFSET_BASIS: u64 = 0xcbf29ce484222325;

/// Prime of the 64-bit FNV-1a hash.
pub const FNV_PRIME: u64 = 0x100000001b3;

/// One FNV-1a step: fold one byte into the running hash.
pub open spec fn fnv1a_step(h: u64, b: u8) -> u64 {
    vstd::wrapping::u64_specs::wrapping_mul(h ^ (b as u64), FNV_PRIME)
}

/// The 64-bit FNV-1a hash of a byte sequence.
pub open spec fn fnv1a(bytes: Seq<u8>) -> u64
    decreases bytes.len(),
{
    if bytes.len() == 0 {
        FNV_OFFSET_BASIS
    } else {
        fnv1a_step(fnv1a(bytes.drop_last()), bytes.last())
    }
}

/// Hash of a key: stable and deterministic, a function of the key bytes alone.
pub fn hash(key: &Vec<u8>) -> (h: u64)
    ensures
        h == fnv1a(key@),
{
    let mut h: u64 = FNV_OFFSET_BASIS;
    let mut i: usize = 0;
    while i < key.len()
        invariant
            i <= key@.len(),
            h == fnv1a(key@.take(i as int)),
        decreases key@.len() - i,
    {
        proof {
            assert(key@.take(i + 1).drop_last() =~= key@.take(i as int));
            assert(key@.take(i + 1).last() == key@[i as int]);
        }
        h = (h ^ (key[i] as u64)).wrapping_mul(FNV_PRIME);
        i = i + 1;
    }
    proof {
        assert(key@.take(key@.len() as int) =~= key@);
    }
    h
}

/// The shard index a key routes to, among `num_shards` shards.
pub open spec fn route_spec(key: Seq<u8>, num_shards: int) -> int
    recommends
        num_shards > 0,
{
    fnv1a(key) as int % num_shards
}

/// Route a key to its shard: the hash of the key reduced modulo the shard
/// count.
pub fn route(key: &Vec<u8>, num_shards: usize) -> (i: usize)
    requires
        num_shards > 0,
    ensures
        i as int == route_spec(key@, num_shards as int),
        i < num_shards,
{
    (hash(key) % (num_shards as u64)) as usize
}

/// Routing determinism: the shard index depends only on the key bytes and the
/// shard count, so a key routes to the same shard on every call for the
/// lifetime of a store.
pub proof fn lemma_route_deterministic(k1: Seq<u8>, k2: Seq<u8>, num_shards: int)
    requires
        k1 == k2,
        num_shards > 0,
    ensures
        route_spec(k1, num_shards) == route_spec(k2, num_shards),
{
}

/// The shard index is always in range for a positive shard count.
pub proof fn lemma_route_in_range(key: Seq<u8>, num_shards: int)
    requires
        num_shards > 0,
    ensures
        0 <= route_spec(key, num_shards) < num_shards,
{
}

} // verus!
