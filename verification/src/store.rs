//! The sharded in-memory store.
//!
//! A [`Shard`] owns one partition of the key space: a mapping from byte-string
//! keys to byte-blob values, abstracted as a `Map<Seq<u8>, Seq<u8>>`.  A
//! [`ShardedStore`] holds a fixed, positive number of shards and routes every
//! key to one of them by the stable hash of [`crate::routing`]; because
//! routing is a pure function of the key and the shard count, operations on
//! one key always land on the same shard, and operations on keys that route
//! to different shards touch disjoint shards.

use vstd::prelude::*;

use crate::routing::route;
use crate::routing::route_spec;

verus! {

/// Whether some entry of `s` has `k` as its key.
pub open spec fn has_key(s: Seq<(Vec<u8>, Vec<u8>)>, k: Seq<u8>) -> bool {
    exists|i: int| 0 <= i < s.len() && (#[trigger] s[i]).0@ == k
}

/// An index of an entry of `s` whose key is `k`.
pub closed spec fn key_index(s: Seq<(Vec<u8>, Vec<u8>)>, k: Seq<u8>) -> int {
    choose|i: int| 0 <= i < s.len() && (#[trigger] s[i]).0@ == k
}

/// One partition of the key space: an owned mapping from key to value.
///
/// In the running system each shard sits behind its own mutual-exclusion
/// lock, held only for the duration of a single read or write; the shard
/// itself is purely sequential.
pub struct Shard {
    entries: Vec<(Vec<u8>, Vec<u8>)>,
}

impl View for Shard {
    type V = Map<Seq<u8>, Seq<u8>>;

    closed spec fn view(&self) -> Map<Seq<u8>, Seq<u8>> {
        Map::new(
            |k: Seq<u8>| has_key(self.entries@, k),
            |k: Seq<u8>| self.entries@[key_index(self.entries@, k)].1@,
        )
    }
}

/// Byte-wise equality of two keys.
fn bytes_eq(a: &Vec<u8>, b: &Vec<u8>) -> (r: bool)
    ensures
        r <==> a@ == b@,
{
    if a.len() != b.len() {
        return false;
    }
    let mut i: usize = 0;
    while i < a.len()
        invariant
            a@.len() == b@.len(),
            i <= a@.len(),
            forall|j: int| 0 <= j < i ==> a@[j] == b@[j],
        decreases a@.len() - i,
    {
        if a[i] != b[i] {
            return false;
        }
        i = i + 1;
    }
    proof {
        assert(a@ =~= b@);
    }
    true
}

/// A fresh copy of a stored value, returned to the caller so the stored
/// value is never exposed as a mutable alias.
fn copy_bytes(src: &Vec<u8>) -> (r: Vec<u8>)
    ensures
        r@ == src@,
{
    let mut r: Vec<u8> = Vec::new();
    let mut i: usize = 0;
    while i < src.len()
        invariant
            i <= src@.len(),
            r@ =~= src@.take(i as int),
        decreases src@.len() - i,
    {
        r.push(src[i]);
        i = i + 1;
    }
    proof {
        assert(src@.take(src@.len() as int) =~= src@);
    }
    r
}

impl Shard {
    /// No two entries share a key, so the mapping is well defined.
    pub closed spec fn wf(&self) -> bool {
        forall|i: int, j: int|
            0 <= i < self.entries@.len() && 0 <= j < self.entries@.len() && i != j ==> (
            #[trigger] self.entries@[i]).0@ != (#[trigger] self.entries@[j]).0@
    }

    /// An empty shard.
    pub fn new() -> (s: Shard)
        ensures
            s.wf(),
            s@ == Map::<Seq<u8>, Seq<u8>>::empty(),
    {
        let s = Shard { entries: Vec::new() };
        proof {
            assert(s@ =~= Map::<Seq<u8>, Seq<u8>>::empty());
        }
        s
    }

    /// The index of the entry holding `key`, if one does.
    fn find(&self, key: &Vec<u8>) -> (r: Option<usize>)
        ensures
            match r {
                Some(i) => i < self.entries@.len() && self.entries@[i as int].0@ == key@,
                None => !has_key(self.entries@, key@),
            },
    {
        let mut i: usize = 0;
        while i < self.entries.len()
            invariant
                i <= self.entries@.len(),
                forall|j: int| 0 <= j < i ==> (#[trigger] self.entries@[j]).0@ != key@,
            decreases self.entries@.len() - i,
        {
            if bytes_eq(&self.entries[i].0, key) {
                return Some(i);
            }
            i = i + 1;
        }
        None
    }

    /// Look the key up and return a copy of its value, if present.
    pub fn get(&self, key: &Vec<u8>) -> (r: Option<Vec<u8>>)
        requires
            self.wf(),
        ensures
            match r {
                Some(v) => self@.contains_key(key@) && v@ == self@[key@],
                None => !self@.contains_key(key@),
            },
    {
        match self.find(key) {
            Some(i) => {
                let v = copy_bytes(&self.entries[i].1);
                proof {
                    assert(has_key(self.entries@, key@));
                    let j = key_index(self.entries@, key@);
                    assert(0 <= j < self.entries@.len() && self.entries@[j].0@ == key@);
                    assert(j == i as int);
                }
                Some(v)
            },
            None => None,
        }
    }

    /// Insert the value under the key, overwriting any previous value.
    pub fn set(&mut self, key: Vec<u8>, value: Vec<u8>)
        requires
            old(self).wf(),
        ensures
            final(self).wf(),
            final(self)@ == old(self)@.insert(key@, value@),
    {
        let found = self.find(&key);
        match found {
            Some(i) => {
                self.entries.set(i, (key, value));
                proof {
                    self.lemma_set_updates_view(old(self), i as int, key@, value@);
                }
            },
            None => {
                self.entries.push((key, value));
                proof {
                    self.lemma_push_updates_view(old(self), key@, value@);
                }
            },
        }
    }

    /// After replacing the entry at `i`, whose key was already `k`, the shard
    /// maps `k` to `v` and every other key as before.
    proof fn lemma_set_updates_view(&self, pre: &Shard, i: int, k: Seq<u8>, v: Seq<u8>)
        requires
            pre.wf(),
            0 <= i < pre.entries@.len(),
            pre.entries@[i].0@ == k,
            self.entries@.len() == pre.entries@.len(),
            self.entries@[i].0@ == k,
            self.entries@[i].1@ == v,
            forall|a: int|
                0 <= a < pre.entries@.len() && a != i ==> #[trigger] self.entries@[a]
                    == pre.entries@[a],
        ensures
            self.wf(),
            self@ == pre@.insert(k, v),
    {
        let s0 = pre.entries@;
        let s1 = self.entries@;
        assert(forall|a: int| 0 <= a < s1.len() ==> (#[trigger] s1[a]).0@ == s0[a].0@);
        assert(self.wf());
        assert forall|q: Seq<u8>| #[trigger]
            self@.contains_key(q) == pre@.insert(k, v).contains_key(q) by {
            if has_key(s1, q) {
                let a = choose|a: int| 0 <= a < s1.len() && (#[trigger] s1[a]).0@ == q;
                assert(s0[a].0@ == q);
                assert(has_key(s0, q));
            }
            if has_key(s0, q) {
                let a = choose|a: int| 0 <= a < s0.len() && (#[trigger] s0[a]).0@ == q;
                assert(s1[a].0@ == q);
                assert(has_key(s1, q));
            }
            assert(has_key(s0, k));
        }
        assert forall|q: Seq<u8>| self@.contains_key(q) implies #[trigger] self@[q] == pre@.insert(
            k,
            v,
        )[q] by {
            let a = key_index(s1, q);
            assert(0 <= a < s1.len() && s1[a].0@ == q);
            if q == k {
                assert(a == i);
                assert(self@[q] == v);
            } else {
                assert(a != i);
                let b = key_index(s0, q);
                assert(0 <= b < s0.len() && s0[b].0@ == q);
                assert(s1[b].0@ == s0[b].0@);
                assert(b == a);
                assert(self@[q] == s1[a].1@);
                assert(s1[a].1@ == s0[a].1@);
                assert(pre@[q] == s0[b].1@);
            }
        }
        assert(self@ =~= pre@.insert(k, v));
    }

    /// After appending an entry whose key `k` was absent, the shard maps `k`
    /// to `v` and every other key as before.
    proof fn lemma_push_updates_view(&self, pre: &Shard, k: Seq<u8>, v: Seq<u8>)
        requires
            pre.wf(),
            !has_key(pre.entries@, k),
            self.entries@.len() == pre.entries@.len() + 1,
            self.entries@.last().0@ == k,
            self.entries@.last().1@ == v,
            forall|a: int|
                0 <= a < pre.entries@.len() ==> #[trigger] self.entries@[a] == pre.entries@[a],
        ensures
            self.wf(),
            self@ == pre@.insert(k, v),
    {
        let s0 = pre.entries@;
        let s1 = self.entries@;
        let n = s0.len() as int;
        assert forall|i: int, j: int|
            0 <= i < s1.len() && 0 <= j < s1.len() && i != j implies (#[trigger] s1[i]).0@ != (
        #[trigger] s1[j]).0@ by {
            if i < n && j < n {
                assert(s0[i].0@ != s0[j].0@);
            } else if i == n {
                assert(s1[j] == s0[j]);
                assert(s0[j].0@ != k) by {
                    if s0[j].0@ == k {
                        assert(has_key(s0, k));
                    }
                }
            } else {
                assert(j == n);
                assert(s1[i] == s0[i]);
                assert(s0[i].0@ != k) by {
                    if s0[i].0@ == k {
                        assert(has_key(s0, k));
                    }
                }
            }
        }
        assert forall|q: Seq<u8>| #[trigger]
            self@.contains_key(q) == pre@.insert(k, v).contains_key(q) by {
            if has_key(s1, q) {
                let a = choose|a: int| 0 <= a < s1.len() && (#[trigger] s1[a]).0@ == q;
                if a < n {
                    assert(s0[a].0@ == q);
                    assert(has_key(s0, q));
                } else {
                    assert(q == k);
                }
            }
            if has_key(s0, q) {
                let a = choose|a: int| 0 <= a < s0.len() && (#[trigger] s0[a]).0@ == q;
                assert(s1[a].0@ == q);
                assert(has_key(s1, q));
            }
            assert(s1[n].0@ == k);
            assert(has_key(s1, k));
        }
        assert forall|q: Seq<u8>| self@.contains_key(q) implies #[trigger] self@[q] == pre@.insert(
            k,
            v,
        )[q] by {
            let a = key_index(s1, q);
            assert(0 <= a < s1.len() && s1[a].0@ == q);
            if q == k {
                assert(a == n);
                assert(self@[q] == v);
            } else {
                assert(a != n);
                let b = key_index(s0, q);
                assert(0 <= b < s0.len() && s0[b].0@ == q);
                assert(s1[b].0@ == s0[b].0@);
                assert(b == a);
                assert(self@[q] == s1[a].1@);
                assert(s1[a].1@ == s0[a].1@);
                assert(pre@[q] == s0[b].1@);
            }
        }
        assert(self@ =~= pre@.insert(k, v));
    }
}

/// A fixed-size collection of shards, shared by every connection handler.
///
/// The shard count is fixed at construction; routing is a pure function of
/// the key and that count, so a key maps to the same shard for the lifetime
/// of the store.
pub struct ShardedStore {
    shards: Vec<Shard>,
}

impl View for ShardedStore {
    type V = Map<Seq<u8>, Seq<u8>>;

    closed spec fn view(&self) -> Map<Seq<u8>, Seq<u8>> {
        Map::new(
            |k: Seq<u8>| self.shards@[route_spec(k, self.shards@.len() as int)]@.contains_key(k),
            |k: Seq<u8>| self.shards@[route_spec(k, self.shards@.len() as int)]@[k],
        )
    }
}

impl ShardedStore {
    /// The fixed number of shards.
    pub closed spec fn shard_count(&self) -> int {
        self.shards@.len() as int
    }

    /// The mapping held by shard `i`.
    pub closed spec fn shard_at(&self, i: int) -> Map<Seq<u8>, Seq<u8>> {
        self.shards@[i]@
    }

    /// A positive number of shards, each one well formed.
    pub closed spec fn wf(&self) -> bool {
        self.shards@.len() > 0 && forall|i: int|
            0 <= i < self.shards@.len() ==> (#[trigger] self.shards@[i]).wf()
    }

    /// The number of shards, as an executable value.
    pub fn num_shards(&self) -> (n: usize)
        ensures
            n == self.shard_count(),
    {
        self.shards.len()
    }

    /// Look a key up in its routed shard and return a copy of its value.
    ///
    /// The key is absent from the store exactly when the call returns
    /// nothing.
    pub fn get(&self, key: &Vec<u8>) -> (r: Option<Vec<u8>>)
        requires
            self.wf(),
        ensures
            match r {
                Some(v) => self@.contains_key(key@) && v@ == self@[key@],
                None => !self@.contains_key(key@),
            },
    {
        let idx = route(key, self.shards.len());
        self.shards[idx].get(key)
    }

    /// Insert or overwrite a key in its routed shard.
    ///
    /// Every shard other than the routed one is left untouched, so
    /// operations on keys that route to different shards never interfere.
    pub fn set(&mut self, key: Vec<u8>, value: Vec<u8>)
        requires
            old(self).wf(),
        ensures
            final(self).wf(),
            final(self).shard_count() == old(self).shard_count(),
            final(self)@ == old(self)@.insert(key@, value@),
            forall|i: int|
                0 <= i < old(self).shard_count() && i != route_spec(
                    key@,
                    old(self).shard_count(),
                ) ==> final(self).shard_at(i) == old(self).shard_at(i),
    {
        let ghost pre = *self;
        let n = self.shards.len();
        let idx = route(&key, n);
        self.shards[idx].set(key, value);
        proof {
            let nn = pre.shards@.len() as int;
            assert forall|q: Seq<u8>| #[trigger]
                self@.contains_key(q) == pre@.insert(key@, value@).contains_key(q) by {
                if route_spec(q, nn) == idx as int {
                    assert(self.shards@[idx as int]@ == pre.shards@[idx as int]@.insert(
                        key@,
                        value@,
                    ));
                } else {
                    assert(self.shards@[route_spec(q, nn)] == pre.shards@[route_spec(q, nn)]);
                    assert(q != key@);
                }
            }
            assert forall|q: Seq<u8>| self@.contains_key(q) implies #[trigger] self@[q]
                == pre@.insert(key@, value@)[q] by {
                if route_spec(q, nn) == idx as int {
                    assert(self.shards@[idx as int]@ == pre.shards@[idx as int]@.insert(
                        key@,
                        value@,
                    ));
                } else {
                    assert(self.shards@[route_spec(q, nn)] == pre.shards@[route_spec(q, nn)]);
                    assert(q != key@);
                }
            }
            assert(self@ =~= pre@.insert(key@, value@));
        }
    }
}

/// Build a store of `num_shards` empty shards.
///
/// The shard count is a deployment tuning knob trading lock contention
/// against per-shard overhead; it has no effect on what the store maps.
pub fn new_sharded_db(num_shards: usize) -> (db: ShardedStore)
    requires
        num_shards > 0,
    ensures
        db.wf(),
        db.shard_count() == num_shards,
        db@ == Map::<Seq<u8>, Seq<u8>>::empty(),
{
    let mut shards: Vec<Shard> = Vec::new();
    let mut i: usize = 0;
    while i < num_shards
        invariant
            i <= num_shards,
            shards@.len() == i,
            forall|j: int|
                0 <= j < i ==> (#[trigger] shards@[j]).wf() && shards@[j]@ == Map::<
                    Seq<u8>,
                    Seq<u8>,
                >::empty(),
        decreases num_shards - i,
    {
        shards.push(Shard::new());
        i = i + 1;
    }
    let db = ShardedStore { shards };
    proof {
        assert forall|q: Seq<u8>| !(#[trigger] db@.contains_key(q)) by {
            assert(0 <= route_spec(q, db.shards@.len() as int) < db.shards@.len());
        }
        assert(db@ =~= Map::<Seq<u8>, Seq<u8>>::empty());
    }
    db
}

/// The mapping after a sequence of writes, applied oldest first.
pub open spec fn apply_writes(
    m: Map<Seq<u8>, Seq<u8>>,
    ops: Seq<(Seq<u8>, Seq<u8>)>,
) -> Map<Seq<u8>, Seq<u8>>
    decreases ops.len(),
{
    if ops.len() == 0 {
        m
    } else {
        apply_writes(m, ops.drop_last()).insert(ops.last().0, ops.last().1)
    }
}

/// A write followed by a read of the same key, with no intervening write to
/// that key, returns exactly the written value.
pub proof fn lemma_set_then_get(m: Map<Seq<u8>, Seq<u8>>, k: Seq<u8>, v: Seq<u8>)
    ensures
        m.insert(k, v).contains_key(k),
        m.insert(k, v)[k] == v,
{
}

/// A key that no write ever touched is absent, whatever else was written.
pub proof fn lemma_unwritten_key_absent(ops: Seq<(Seq<u8>, Seq<u8>)>, k: Seq<u8>)
    requires
        forall|i: int| 0 <= i < ops.len() ==> (#[trigger] ops[i]).0 != k,
    ensures
        !apply_writes(Map::<Seq<u8>, Seq<u8>>::empty(), ops).contains_key(k),
    decreases ops.len(),
{
    lemma_writes_preserve_absence(Map::<Seq<u8>, Seq<u8>>::empty(), ops, k);
}

/// Writes to other keys never make a key appear.
pub proof fn lemma_writes_preserve_absence(
    m: Map<Seq<u8>, Seq<u8>>,
    ops: Seq<(Seq<u8>, Seq<u8>)>,
    k: Seq<u8>,
)
    requires
        !m.contains_key(k),
        forall|i: int| 0 <= i < ops.len() ==> (#[trigger] ops[i]).0 != k,
    ensures
        !apply_writes(m, ops).contains_key(k),
    decreases ops.len(),
{
    if ops.len() > 0 {
        lemma_writes_preserve_absence(m, ops.drop_last(), k);
    }
}

/// Whatever order concurrent writes to one key are serialized in, the store
/// is left holding the value of the write applied last — always one of the
/// written values, never a value nobody wrote.
pub proof fn lemma_last_write_wins(
    m: Map<Seq<u8>, Seq<u8>>,
    ops: Seq<(Seq<u8>, Seq<u8>)>,
    k: Seq<u8>,
)
    requires
        ops.len() > 0,
        forall|i: int| 0 <= i < ops.len() ==> (#[trigger] ops[i]).0 == k,
    ensures
        apply_writes(m, ops).contains_key(k),
        apply_writes(m, ops)[k] == ops.last().1,
        exists|i: int| 0 <= i < ops.len() && apply_writes(m, ops)[k] == (#[trigger] ops[i]).1,
{
    assert(ops.last() == ops[ops.len() - 1]);
    assert(apply_writes(m, ops)[k] == ops[ops.len() - 1].1);
}

} // verus!
