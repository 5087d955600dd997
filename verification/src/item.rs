//! The messages that travel through the insert buffer, and what leaves the cache.

use vstd::prelude::*;
use crate::ttl::Time;

verus! {

/// A message from the cache to the working task.
///
/// `WG` is what a waiting caller is woken through.
pub enum Item<V, WG> {
    /// A value under a key that the store does not hold yet.
    New { key: u64, conflict: u64, cost: i64, value: V, expiration: Time },
    /// The store holds a new value under `key`; what it costs is to be charged.
    Update { key: u64, cost: i64, external_cost: i64 },
    /// The entry under `key` is to be forgotten.
    Delete { key: u64, conflict: u64 },
    /// Every message before this one is to be handled, then the waiter is woken.
    Wait(WG),
}

impl<V, WG> Item<V, WG> {
    /// A message that brings a new value.
    pub fn new(key: u64, conflict: u64, cost: i64, val: V, exp: Time) -> (r: Self)
        ensures
            r == (Item::<V, WG>::New { key, conflict, cost, value: val, expiration: exp }),
    {
        Item::New { key, conflict, cost, value: val, expiration: exp }
    }

    /// A message that announces an updated value.
    pub fn update(key: u64, cost: i64, external_cost: i64) -> (r: Self)
        ensures
            r == (Item::<V, WG>::Update { key, cost, external_cost }),
    {
        Item::Update { key, cost, external_cost }
    }

    /// A message that deletes.
    pub fn delete(key: u64, conflict: u64) -> (r: Self)
        ensures
            r == (Item::<V, WG>::Delete { key, conflict }),
    {
        Item::Delete { key, conflict }
    }

    /// Whether the message announces an updated value.
    pub fn is_update(&self) -> (r: bool)
        ensures
            r == (self is Update),
    {
        match self {
            Item::Update { .. } => true,
            _ => false,
        }
    }
}

/// An item that leaves the cache, or was not let in.
pub struct CrateItem<V> {
    pub val: V,
    pub key: u64,
    pub conflict: u64,
    pub cost: i64,
    pub exp: Time,
}

/// What the cache's callback is to be told.
pub enum Notice<V> {
    /// A value left the cache because it was replaced or removed.
    Exit(V),
    /// An item made room for another or expired. Where its admission is on
    /// record, `age` says how long ago that was.
    Evict { item: CrateItem<V>, age: Option<u128> },
    /// An item was not let in.
    Reject(CrateItem<V>),
}

} // verus!
