//! What a user of the cache can plug in, and the defaults.

use std::collections::hash_map::RandomState;
use std::hash::{BuildHasher, Hash};
use std::marker::PhantomData;
use vstd::prelude::*;

verus! {

/// The hashing of keys. The cache stores the two hashes of a key, never the key.
///
/// The first hash is the index of the entry. The second tells apart keys that
/// share an index; zero stands for every key with that index, so a builder of
/// 64-bit hashes leaves it zero.
pub trait KeyBuilder<K> {
    fn build_key(&self, key: &K) -> (r: (u64, u64));
}

/// Evaluates what an item costs, for items that are inserted with a cost of zero.
pub trait Coster<V> {
    fn cost(&self, val: &V) -> (r: i64);
}

/// Decides whether a value that is in the cache is replaced.
pub trait UpdateValidator<V> {
    fn should_update(&self, prev: &V, curr: &V) -> (r: bool);
}

/// `BuildHasher::hash_one`: the hash of `key` under `state`. The state is seeded
/// at random, so nothing is claimed of the number. Left unsaid is that equal keys
/// have equal hashes under one state.
#[verifier::external_body]
fn hash_one<K: Hash>(state: &RandomState, key: &K) -> (r: u64) {
    state.hash_one(key)
}

/// `RandomState::new`: a hasher with random seeds, of which nothing is claimed.
#[verifier::external_body]
pub(crate) fn random_state() -> (r: RandomState) {
    RandomState::new()
}

/// Hashes any key into 128 bits.
pub struct DefaultKeyBuilder {
    index: RandomState,
    conflict: RandomState,
}

impl DefaultKeyBuilder {
    pub fn new() -> Self {
        DefaultKeyBuilder { index: random_state(), conflict: random_state() }
    }

    /// Whether `r` can be the hashes of `key`: the first under the state for
    /// indices, the second under the state for conflicts.
    pub closed spec fn hashes<K: Hash>(&self, key: &K, r: (u64, u64)) -> bool {
        &&& call_ensures(hash_one::<K>, (&self.index, key), r.0)
        &&& call_ensures(hash_one::<K>, (&self.conflict, key), r.1)
    }
}

impl<K: Hash + Eq> KeyBuilder<K> for DefaultKeyBuilder {
    fn build_key(&self, key: &K) -> (r: (u64, u64))
        ensures
            self.hashes(key, r),
    {
        (hash_one(&self.index, key), hash_one(&self.conflict, key))
    }
}

/// Both hashes of a default builder are hashes of the key: the first under its state
/// for indices, the second under its state for conflicts.
proof fn default_keys_are_hashed_twice<K: Hash + Eq>(
    b: &DefaultKeyBuilder,
    key: K,
    r: (u64, u64),
)
    requires
        call_ensures(<DefaultKeyBuilder as KeyBuilder<K>>::build_key, (b, &key), r),
    ensures
        call_ensures(hash_one::<K>, (&b.index, &key), r.0),
        call_ensures(hash_one::<K>, (&b.conflict, &key), r.1),
{
}

/// A key that is as good as its hash.
pub trait TransparentKey {
    fn to_u64(&self) -> (r: u64);
}

impl TransparentKey for u64 {
    fn to_u64(&self) -> (r: u64)
        ensures
            r == *self,
    {
        *self
    }
}

impl TransparentKey for u32 {
    fn to_u64(&self) -> (r: u64)
        ensures
            r == *self,
    {
        *self as u64
    }
}

impl TransparentKey for u16 {
    fn to_u64(&self) -> (r: u64)
        ensures
            r == *self,
    {
        *self as u64
    }
}

impl TransparentKey for u8 {
    fn to_u64(&self) -> (r: u64)
        ensures
            r == *self,
    {
        *self as u64
    }
}

/// Takes the key itself for its hash. Faster than hashing.
pub struct TransparentKeyBuilder;

impl<K: TransparentKey> KeyBuilder<K> for TransparentKeyBuilder {
    fn build_key(&self, key: &K) -> (r: (u64, u64))
        ensures
            call_ensures(K::to_u64, (key,), r.0),
            r.1 == 0,
    {
        (key.to_u64(), 0)
    }
}

/// Evaluates every item to zero.
pub struct DefaultCoster<V> {
    marker: PhantomData<V>,
}

impl<V> DefaultCoster<V> {
    pub fn new() -> Self {
        DefaultCoster { marker: PhantomData }
    }
}

impl<V> Coster<V> for DefaultCoster<V> {
    fn cost(&self, val: &V) -> (r: i64)
        ensures
            r == 0,
    {
        0
    }
}

/// Always lets the new value replace the old one.
pub struct DefaultUpdateValidator<V> {
    marker: PhantomData<V>,
}

impl<V> DefaultUpdateValidator<V> {
    pub fn new() -> Self {
        DefaultUpdateValidator { marker: PhantomData }
    }
}

impl<V> UpdateValidator<V> for DefaultUpdateValidator<V> {
    fn should_update(&self, prev: &V, curr: &V) -> (r: bool)
        ensures
            r,
    {
        true
    }
}

/// Does nothing with what leaves the cache.
pub struct DefaultCacheCallback<V> {
    marker: PhantomData<V>,
}

impl<V> DefaultCacheCallback<V> {
    pub fn new() -> Self {
        DefaultCacheCallback { marker: PhantomData }
    }
}

} // verus!
