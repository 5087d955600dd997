//! What the table of stored values does with every entry.

use std::hash::BuildHasher;
use vstd::prelude::*;
use crate::store::{ShardedMap, StoreItem, UpdateResult};
use crate::traits::UpdateValidator;
use crate::ttl::Time;

verus! {

/// Whether the time to live of an entry has passed at `now`.
pub open spec fn passed(t: Time, now: u128) -> bool {
    t.ttl > 0 && t.created_at + t.ttl <= now
}

/// Whether an entry is that of a key with this conflict hash. Zero stands for every
/// key.
pub open spec fn matching<V>(e: StoreItem<V>, conflict: u64) -> bool {
    conflict == 0 || e.conflict == conflict
}

/// An entry is expired from the moment that its time to live has passed, and never
/// where that is zero.
pub proof fn times_run_out(now: u128, ttl: u128, t: Time, at: u128, expired: bool, zero: bool)
    requires
        call_ensures(Time::new, (now, ttl), t),
        call_ensures(Time::is_expired, (&t, at), expired),
        call_ensures(Time::is_zero, (&t,), zero),
    ensures
        t.created_at == now,
        t.ttl == ttl,
        expired <==> ttl > 0 && now + ttl <= at,
        zero <==> ttl == 0,
{
}

/// A reader finds the value of an entry that is stored under the index, is that of the
/// key, and has not expired; and nothing otherwise.
pub proof fn readers_find_what_is_stored<V, U: UpdateValidator<V>, S: BuildHasher + Clone>(
    t: &ShardedMap<V, U, S>,
    index: u64,
    conflict: u64,
    now: u128,
    r: Option<&V>,
)
    requires
        call_ensures(ShardedMap::<V, U, S>::get, (t, index, conflict, now), r),
    ensures
        r is Some <==> t@.contains_key(index) && matching(t@[index], conflict) && !passed(
            t@[index].expiration,
            now,
        ),
        r is Some ==> *r->0 == t@[index].value,
{
}

/// The validator is asked about the stored value and the new one where the key is
/// stored; where it is not, nothing is allowed.
pub proof fn validators_are_asked_where_something_is_stored<
    V,
    U: UpdateValidator<V>,
    S: BuildHasher + Clone,
>(t: &ShardedMap<V, U, S>, index: u64, conflict: u64, val: V, r: bool)
    requires
        call_ensures(ShardedMap::<V, U, S>::allows, (t, index, conflict, &val), r),
    ensures
        if t@.contains_key(index) && matching(t@[index], conflict) {
            call_ensures(U::should_update, (&t.validator(), &t@[index].value, &val), r)
        } else {
            !r
        },
{
}

/// An update replaces the value of the key where there is one and it is allowed, and
/// gives the old value back. The entry is then all that was given. Otherwise the new
/// value comes back, with the reason, and nothing changes. No other index is touched.
pub proof fn updates_replace_one_entry<V, U: UpdateValidator<V>, S: BuildHasher + Clone>(
    t: &mut ShardedMap<V, U, S>,
    index: u64,
    val: V,
    conflict: u64,
    expiration: Time,
    allowed: bool,
    r: UpdateResult<V>,
    k: u64,
)
    requires
        call_ensures(
            ShardedMap::<V, U, S>::try_update,
            (t, index, val, conflict, expiration, allowed),
            r,
        ),
    ensures
        r is NotExist <==> !old(t)@.contains_key(index),
        r is Conflict <==> old(t)@.contains_key(index) && !matching(old(t)@[index], conflict),
        r is Update <==> old(t)@.contains_key(index) && matching(old(t)@[index], conflict)
            && allowed,
        match r {
            UpdateResult::NotExist(v) => v == val,
            UpdateResult::Conflict(v) => v == val,
            UpdateResult::Reject(v) => v == val,
            UpdateResult::Update(v) => v == old(t)@[index].value,
        },
        if r is Update {
            let e = final(t)@[index];
            &&& final(t)@.contains_key(index)
            &&& e.key == index
            &&& e.conflict == conflict
            &&& e.value == val
            &&& e.expiration == expiration
        } else {
            super::ledger::agree(old(t)@, final(t)@, index)
        },
        k != index ==> super::ledger::agree(old(t)@, final(t)@, k),
        final(t).validator() == old(t).validator(),
        final(t).hash_builder() == old(t).hash_builder(),
{
}

/// An insert stores all that was given at the index, and touches no other.
pub proof fn inserts_store_one_entry<V, U: UpdateValidator<V>, S: BuildHasher + Clone>(
    t: &mut ShardedMap<V, U, S>,
    index: u64,
    val: V,
    conflict: u64,
    expiration: Time,
    k: u64,
)
    requires
        call_ensures(
            ShardedMap::<V, U, S>::insert,
            (t, index, val, conflict, expiration),
            (),
        ),
    ensures
        final(t)@.contains_key(index),
        final(t)@[index].key == index,
        final(t)@[index].conflict == conflict,
        final(t)@[index].value == val,
        final(t)@[index].expiration == expiration,
        k != index ==> super::ledger::agree(old(t)@, final(t)@, k),
        final(t).validator() == old(t).validator(),
        final(t).hash_builder() == old(t).hash_builder(),
{
}

/// A removal takes out the entry of the key, if there is one, and gives it back. It
/// leaves every other index alone, and an entry of another key at the same index.
pub proof fn removals_take_out_one_entry<V, U: UpdateValidator<V>, S: BuildHasher + Clone>(
    t: &mut ShardedMap<V, U, S>,
    index: u64,
    conflict: u64,
    r: Option<StoreItem<V>>,
    k: u64,
)
    requires
        call_ensures(ShardedMap::<V, U, S>::remove, (t, index, conflict), r),
    ensures
        r is Some <==> old(t)@.contains_key(index) && matching(old(t)@[index], conflict),
        r is Some ==> r->0 == old(t)@[index] && !final(t)@.contains_key(index),
        r is None ==> super::ledger::agree(old(t)@, final(t)@, index),
        k != index ==> super::ledger::agree(old(t)@, final(t)@, k),
        final(t).validator() == old(t).validator(),
        final(t).hash_builder() == old(t).hash_builder(),
{
}

/// A cleanup takes out the entries whose time to live has passed, lists each of them
/// once, and leaves every other entry alone.
pub proof fn cleanups_take_out_what_expired<V, U: UpdateValidator<V>, S: BuildHasher + Clone>(
    t: &mut ShardedMap<V, U, S>,
    now: u128,
    r: Vec<StoreItem<V>>,
    k: u64,
)
    requires
        call_ensures(ShardedMap::<V, U, S>::cleanup, (t, now), r),
    ensures
        if old(t)@.contains_key(k) && passed(old(t)@[k].expiration, now) {
            &&& !final(t)@.contains_key(k)
            &&& exists|i: int| 0 <= i < r@.len() && #[trigger] r@[i] == old(t)@[k]
        } else {
            super::ledger::agree(old(t)@, final(t)@, k)
        },
        forall|i: int|
            0 <= i < r@.len() ==> {
                let e = #[trigger] r@[i];
                &&& old(t)@.contains_key(e.key)
                &&& old(t)@[e.key] == e
                &&& passed(e.expiration, now)
            },
        forall|i: int, j: int|
            0 <= i < j < r@.len() ==> (#[trigger] r@[i]).key != (#[trigger] r@[j]).key,
        final(t).validator() == old(t).validator(),
        final(t).hash_builder() == old(t).hash_builder(),
{
    if old(t)@.contains_key(k) && passed(old(t)@[k].expiration, now) {
        assert(r@.contains(old(t)@[k]));
    }
}

/// A new table and a cleared one hold nothing. A table tells of every index whether
/// anything is stored there, and how many entries there are.
pub proof fn tables_tell_what_is_stored<V, U: UpdateValidator<V>, S: BuildHasher + Clone>(
    validator: U,
    hasher: S,
    new: ShardedMap<V, U, S>,
    cleared: &mut ShardedMap<V, U, S>,
    t: &ShardedMap<V, U, S>,
    k: u64,
    stored: bool,
    len: usize,
    len_new: usize,
    copy: S,
    item_size: usize,
)
    requires
        call_ensures(
            ShardedMap::<V, U, S>::with_validator_and_hasher,
            (validator, hasher),
            new,
        ),
        call_ensures(ShardedMap::<V, U, S>::clear, (cleared,), ()),
        call_ensures(ShardedMap::<V, U, S>::contains, (t, k), stored),
        call_ensures(ShardedMap::<V, U, S>::len, (t,), len),
        call_ensures(ShardedMap::<V, U, S>::len, (&new,), len_new),
        call_ensures(ShardedMap::<V, U, S>::hasher, (t,), copy),
        call_ensures(ShardedMap::<V, U, S>::item_size, (t,), item_size),
    ensures
        !new@.contains_key(k),
        len_new == 0,
        new.validator() == validator,
        new.hash_builder() == hasher,
        !final(cleared)@.contains_key(k),
        final(cleared).validator() == old(cleared).validator(),
        final(cleared).hash_builder() == old(cleared).hash_builder(),
        stored == t@.contains_key(k),
        len == t@.dom().len(),
        call_ensures(S::clone, (&t.hash_builder(),), copy),
        item_size == vstd::layout::size_of::<StoreItem<V>>(),
{
}

} // verus!
