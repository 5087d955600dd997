//! The table of stored values, by the index hash of their keys.

use std::collections::HashMap;
use std::hash::BuildHasher;
use vstd::prelude::*;
use crate::traits::UpdateValidator;
use crate::ttl::Time;

verus! {

/// A stored value.
pub struct StoreItem<V> {
    pub key: u64,
    pub conflict: u64,
    pub value: V,
    pub expiration: Time,
}

/// What became of an attempt to replace a stored value. A value that was not
/// stored comes back.
pub enum UpdateResult<V> {
    /// Nothing is stored at the index.
    NotExist(V),
    /// Another key is stored at the index.
    Conflict(V),
    /// The stored value is not to be replaced.
    Reject(V),
    /// The value was stored; this is the one it replaced.
    Update(V),
}

/// Whether `m` holds an entry of the key with these hashes.
pub open spec fn holds<V>(m: Map<u64, StoreItem<V>>, index: u64, conflict: u64) -> bool {
    m.contains_key(index) && (conflict == 0 || m[index].conflict == conflict)
}

/// The value that a reader of the key with these hashes sees at `now`.
pub open spec fn lookup<V>(
    m: Map<u64, StoreItem<V>>,
    index: u64,
    conflict: u64,
    now: u128,
) -> Option<V> {
    if holds(m, index, conflict) && !m[index].expiration.expired_at(now) {
        Some(m[index].value)
    } else {
        None
    }
}

/// `m` without the entry of the key with these hashes.
pub open spec fn without<V>(m: Map<u64, StoreItem<V>>, index: u64, conflict: u64) -> Map<
    u64,
    StoreItem<V>,
> {
    if holds(m, index, conflict) {
        m.remove(index)
    } else {
        m
    }
}

/// The entries of `m` that are not expired at `now`.
pub open spec fn fresh<V>(m: Map<u64, StoreItem<V>>, now: u128) -> Map<u64, StoreItem<V>> {
    m.restrict(Set::new(|k: u64| m.contains_key(k) && !m[k].expiration.expired_at(now)))
}

/// No two entries have the same key.
pub open spec fn distinct_keys<V>(entries: Seq<StoreItem<V>>) -> bool {
    forall|i: int, j: int|
        0 <= i < j < entries.len() ==> (#[trigger] entries[i]).key != (#[trigger] entries[j]).key
}

/// The keys of the entries.
pub open spec fn entry_keys<V>(entries: Seq<StoreItem<V>>) -> Set<u64> {
    Set::new(|k: u64| exists|i: int| 0 <= i < entries.len() && (#[trigger] entries[i]).key == k)
}

/// Whether `entries` are the entries of `m` that are expired at `now`, each once.
pub open spec fn lists_expired<V>(
    m: Map<u64, StoreItem<V>>,
    now: u128,
    entries: Seq<StoreItem<V>>,
) -> bool {
    &&& distinct_keys(entries)
    &&& forall|i: int|
        0 <= i < entries.len() ==> {
            &&& m.contains_key((#[trigger] entries[i]).key)
            &&& m[entries[i].key] == entries[i]
            &&& entries[i].expiration.expired_at(now)
        }
    &&& forall|k: u64| #[trigger]
        m.contains_key(k) && m[k].expiration.expired_at(now) ==> m[k].key == k
            && entries.contains(m[k])
}

/// `HashMap::with_hasher`: a map that holds nothing.
#[verifier::external_body]
pub(crate) fn empty_map<T, S>(hasher: S) -> (m: HashMap<u64, T, S>)
    ensures
        m@.dom() == Set::<u64>::empty(),
{
    HashMap::with_hasher(hasher)
}

/// The central table where key-value items are stored.
#[verifier::reject_recursive_types(V)]
#[verifier::reject_recursive_types(S)]
pub struct ShardedMap<V, U, S> {
    data: HashMap<u64, StoreItem<V>, S>,
    validator: U,
    hasher: S,
}

impl<V, U, S> View for ShardedMap<V, U, S> {
    type V = Map<u64, StoreItem<V>>;

    closed spec fn view(&self) -> Map<u64, StoreItem<V>> {
        self.data@
    }
}

impl<V, U: UpdateValidator<V>, S: BuildHasher + Clone> ShardedMap<V, U, S> {
    /// Every entry is filed under its own key, and the hasher does what a hash
    /// map needs of it.
    pub closed spec fn wf(&self) -> bool {
        &&& vstd::std_specs::hash::builds_valid_hashers::<S>()
        &&& self.data@.dom().finite()
        &&& forall|k: u64| #[trigger] self.data@.contains_key(k) ==> self.data@[k].key == k
    }

    /// The validator that guards updates.
    pub closed spec fn validator(&self) -> U {
        self.validator
    }

    /// The hasher that the table was made with.
    pub closed spec fn hash_builder(&self) -> S {
        self.hasher
    }

    /// Whether both tables have the same validator and the same hasher.
    pub open spec fn same_parts(&self, other: &Self) -> bool {
        &&& self.validator() == other.validator()
        &&& self.hash_builder() == other.hash_builder()
    }

    /// In a well-formed table there are finitely many entries, each filed under
    /// its own key.
    pub proof fn entries_are_filed(&self)
        requires
            self.wf(),
        ensures
            self@.dom().finite(),
            forall|k: u64| #[trigger] self@.contains_key(k) ==> self@[k].key == k,
    {
    }

    /// An empty table.
    pub fn with_validator_and_hasher(validator: U, hasher: S) -> (r: Self)
        requires
            vstd::std_specs::hash::builds_valid_hashers::<S>(),
        ensures
            r.wf(),
            r@ == Map::<u64, StoreItem<V>>::empty(),
            r.validator() == validator,
            r.hash_builder() == hasher,
    {
        let data = empty_map(hasher.clone());
        ShardedMap { data, validator, hasher }
    }

    /// The value of the key with these hashes, unless it is absent or expired.
    pub fn get(&self, index: u64, conflict: u64, now: u128) -> (r: Option<&V>)
        requires
            self.wf(),
        ensures
            match r {
                Some(v) => lookup(self@, index, conflict, now) == Some(*v),
                None => lookup(self@, index, conflict, now) is None,
            },
    {
        match self.data.get(&index) {
            Some(item) => {
                if (conflict == 0 || item.conflict == conflict) && !item.expiration.is_expired(now) {
                    Some(&item.value)
                } else {
                    None
                }
            },
            None => None,
        }
    }

    /// Whether the validator lets `val` replace what is stored under these
    /// hashes. It is not asked where nothing is.
    pub fn allows(&self, index: u64, conflict: u64, val: &V) -> (r: bool)
        requires
            self.wf(),
        ensures
            if holds(self@, index, conflict) {
                call_ensures(
                    U::should_update,
                    (&self.validator(), &self@[index].value, val),
                    r,
                )
            } else {
                !r
            },
    {
        match self.data.get(&index) {
            Some(item) => {
                if conflict == 0 || item.conflict == conflict {
                    self.validator.should_update(&item.value, val)
                } else {
                    false
                }
            },
            None => false,
        }
    }

    /// Replaces the value stored under these hashes, where there is one and
    /// `allowed` says so.
    pub fn try_update(
        &mut self,
        index: u64,
        val: V,
        conflict: u64,
        expiration: Time,
        allowed: bool,
    ) -> (r: UpdateResult<V>)
        requires
            old(self).wf(),
        ensures
            final(self).wf(),
            final(self).same_parts(old(self)),
            if !old(self)@.contains_key(index) {
                r == UpdateResult::NotExist(val) && final(self)@ == old(self)@
            } else if !holds(old(self)@, index, conflict) {
                r == UpdateResult::Conflict(val) && final(self)@ == old(self)@
            } else if !allowed {
                r == UpdateResult::Reject(val) && final(self)@ == old(self)@
            } else {
                &&& r == UpdateResult::Update(old(self)@[index].value)
                &&& final(self)@ == old(self)@.insert(
                    index,
                    (StoreItem {
                        key: index,
                        conflict,
                        value: val,
                        expiration,
                    }),
                )
            },
    {
        let stored: u64 = match self.data.get(&index) {
            Some(item) => item.conflict,
            None => return UpdateResult::NotExist(val),
        };
        if conflict != 0 && stored != conflict {
            return UpdateResult::Conflict(val);
        }
        if !allowed {
            return UpdateResult::Reject(val);
        }
        let item = StoreItem { key: index, conflict, value: val, expiration };
        match self.data.insert(index, item) {
            Some(prev) => UpdateResult::Update(prev.value),
            None => {
                assert(false);
                vstd::pervasive::unreached()
            },
        }
    }

    /// Stores a value at the index, in place of what was there.
    pub fn insert(&mut self, index: u64, val: V, conflict: u64, expiration: Time)
        requires
            old(self).wf(),
        ensures
            final(self).wf(),
            final(self).same_parts(old(self)),
            final(self)@ == old(self)@.insert(
                index,
                (StoreItem { key: index, conflict, value: val, expiration }),
            ),
    {
        self.data.insert(index, StoreItem { key: index, conflict, value: val, expiration });
    }

    /// Takes the entry of the key with these hashes out of the table.
    pub fn remove(&mut self, index: u64, conflict: u64) -> (r: Option<StoreItem<V>>)
        requires
            old(self).wf(),
        ensures
            final(self).wf(),
            final(self).same_parts(old(self)),
            final(self)@ == without(old(self)@, index, conflict),
            r == (if holds(old(self)@, index, conflict) {
                Some(old(self)@[index])
            } else {
                None
            }),
    {
        let matching = match self.data.get(&index) {
            Some(item) => conflict == 0 || item.conflict == conflict,
            None => false,
        };
        if matching {
            self.data.remove(&index)
        } else {
            None
        }
    }

    /// The indices in use, each once.
    fn keys(&self) -> (r: Vec<u64>)
        requires
            self.wf(),
        ensures
            r@.no_duplicates(),
            forall|k: u64| #[trigger] r@.contains(k) <==> self@.contains_key(k),
    {
        let mut r: Vec<u64> = Vec::new();
        for k in it: self.data.keys()
            invariant
                r@.len() == it.index(),
                forall|i: int| 0 <= i < r@.len() ==> r@[i] == *#[trigger] it.seq()[i],
        {
            r.push(*k);
        }
        proof {
            let ks = vstd::std_specs::iter::IteratorSpec::remaining(
                &vstd::std_specs::hash::spec_keys_iter(&self.data),
            );
            assert(r@ =~= ks.unref());
            assert(forall|k: u64| #[trigger] ks.unref().to_set().contains(k) <==> r@.contains(k));
        }
        r
    }

    /// Takes out the entries that are expired at `now`.
    pub fn cleanup(&mut self, now: u128) -> (r: Vec<StoreItem<V>>)
        requires
            old(self).wf(),
        ensures
            final(self).wf(),
            final(self).same_parts(old(self)),
            final(self)@ == fresh(old(self)@, now),
            lists_expired(old(self)@, now, r@),
    {
        let keys = self.keys();
        let mut r: Vec<StoreItem<V>> = Vec::new();
        let mut i: usize = 0;
        while i < keys.len()
            invariant
                self.wf(),
                self.same_parts(old(self)),
                i <= keys@.len(),
                keys@.no_duplicates(),
                forall|k: u64| #[trigger] keys@.contains(k) <==> old(self)@.contains_key(k),
                forall|k: u64| #[trigger]
                    self@.contains_key(k) <==> old(self)@.contains_key(k) && !(keys@.take(
                        i as int,
                    ).contains(k) && old(self)@[k].expiration.expired_at(now)),
                forall|k: u64| #[trigger] self@.contains_key(k) ==> self@[k] == old(self)@[k],
                forall|k: u64|
                    old(self)@.contains_key(k) ==> (#[trigger] old(self)@[k]).key == k,
                forall|a: int, b: int|
                    0 <= a < b < r@.len() ==> (#[trigger] r@[a]).key != (#[trigger] r@[b]).key,
                forall|a: int|
                    0 <= a < r@.len() ==> {
                        &&& keys@.take(i as int).contains((#[trigger] r@[a]).key)
                        &&& old(self)@[r@[a].key] == r@[a]
                        &&& r@[a].expiration.expired_at(now)
                    },
                forall|k: u64| #[trigger]
                    keys@.take(i as int).contains(k) && old(self)@[k].expiration.expired_at(now)
                        ==> r@.contains(old(self)@[k]),
            decreases keys@.len() - i,
        {
            let k: u64 = keys[i];
            let ghost before = keys@.take(i as int);
            let ghost r0 = r@;
            proof {
                assert(keys@.take(i + 1) =~= before.push(k));
                assert(keys@.contains(k));
                assert(!before.contains(k)) by {
                    if before.contains(k) {
                        let j = choose|j: int| 0 <= j < before.len() && before[j] == k;
                        assert(keys@[j] == keys@[i as int]);
                    }
                }
                assert(self@.contains_key(k));
                assert forall|x: u64| #[trigger] keys@.take(i + 1).contains(x) <==> before.contains(x)
                    || x == k by {
                    assert(before.push(k)[before.len() as int] == k);
                    if before.contains(x) {
                        let j = choose|j: int| 0 <= j < before.len() && before[j] == x;
                        assert(before.push(k)[j] == x);
                    }
                }
            }
            let expired = match self.data.get(&k) {
                Some(item) => item.expiration.is_expired(now),
                None => false,
            };
            if expired {
                match self.data.remove(&k) {
                    Some(item) => {
                        r.push(item);
                        assert(r@[r0.len() as int] == item);
                    },
                    None => {},
                }
            }
            proof {
                assert forall|x: u64| #[trigger]
                    keys@.take(i + 1).contains(x) && old(self)@[x].expiration.expired_at(
                        now,
                    ) implies r@.contains(old(self)@[x]) by {
                    if x != k {
                        assert(before.contains(x));
                        let j = choose|j: int| 0 <= j < r0.len() && r0[j] == old(self)@[x];
                        assert(r@[j] == old(self)@[x]);
                    }
                }
            }
            i += 1;
        }
        proof {
            assert(keys@.take(keys@.len() as int) =~= keys@);
            assert(self@ =~= fresh(old(self)@, now));
            assert forall|k: u64| #[trigger]
                old(self)@.contains_key(k) && old(self)@[k].expiration.expired_at(
                    now,
                ) implies r@.contains(old(self)@[k]) by {
                assert(keys@.contains(k));
            }
        }
        r
    }

    /// Whether anything is stored at the index.
    pub fn contains(&self, index: u64) -> (r: bool)
        requires
            self.wf(),
        ensures
            r == self@.contains_key(index),
    {
        self.data.contains_key(&index)
    }

    /// Forgets every entry.
    pub fn clear(&mut self)
        requires
            old(self).wf(),
        ensures
            final(self).wf(),
            final(self).same_parts(old(self)),
            final(self)@ == Map::<u64, StoreItem<V>>::empty(),
    {
        self.data.clear();
    }

    /// The number of entries.
    pub fn len(&self) -> (r: usize)
        requires
            self.wf(),
        ensures
            r == self@.len(),
    {
        self.data.len()
    }

    /// The bytes that an entry takes up.
    pub fn item_size(&self) -> (r: usize)
        ensures
            r == vstd::layout::size_of::<StoreItem<V>>(),
    {
        core::mem::size_of::<StoreItem<V>>()
    }

    /// A copy of the hasher.
    pub fn hasher(&self) -> (r: S)
        requires
            self.wf(),
        ensures
            vstd::std_specs::hash::builds_valid_hashers::<S>(),
            call_ensures(S::clone, (&self.hash_builder(),), r),
    {
        self.hasher.clone()
    }
}

} // verus!
