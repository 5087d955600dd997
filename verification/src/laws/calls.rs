//! What every call of the cache does.

use std::hash::{BuildHasher, Hash};
use vstd::prelude::*;
use super::ledger::agree;
use super::table::{matching, passed};
use super::task::{charged_as, same_settings};
use crate::cache::{AsyncCache, CloseEvent, CloseStep, InsertStep, InsertTicket, RemoveStep};
use crate::error::CacheError;
use crate::item::Item;
use crate::policy::{Admission, AsyncLFUPolicy, Ranking};
use crate::processor::{CacheProcessor, Reaction};
use crate::shared::{Shared, SharedView};
use crate::traits::{Coster, KeyBuilder, UpdateValidator};
use crate::ttl::Time;

verus! {

/// Whether nothing in the shared state changed, as far as an index is concerned.
pub open spec fn left_alone<V>(a: SharedView<V>, b: SharedView<V>, k: u64) -> bool {
    &&& agree(a.store, b.store, k)
    &&& agree(a.costs, b.costs, k)
    &&& same_settings(a, b)
}

/// Whether the key with the hashes `h` is in the store.
pub open spec fn stored<V>(s: SharedView<V>, h: (u64, u64)) -> bool {
    s.store.contains_key(h.0) && matching(s.store[h.0], h.1)
}

/// What the first half of an insert into an open cache comes to.
///
/// A value replaces another where the key is in the store and that is allowed: then the
/// entry is all that was given, and the callback is to be told of the value before.
/// Otherwise the store stays as it is. No other index is touched, and no charge.
///
/// A message goes out where there is room for it, unless the insert is to update only
/// and replaced nothing. It carries what the item costs: the cost that was given, or
/// what was evaluated where that is zero.
pub open spec fn insert_comes_to<V, WG>(
    before: SharedView<V>,
    h: (u64, u64),
    val: V,
    cost: i64,
    evaluated: i64,
    allowed: bool,
    expiration: Time,
    only_update: bool,
    room: bool,
    after: SharedView<V>,
    step: InsertStep<V, WG>,
) -> bool {
    let replaced = stored(before, h) && allowed;
    let price: int = if cost != 0 {
        cost as int
    } else {
        evaluated as int
    };
    &&& same_settings(before, after)
    &&& forall|k: u64| #[trigger] agree(before.costs, after.costs, k)
    &&& forall|k: u64| k != h.0 ==> #[trigger] agree(before.store, after.store, k)
    &&& !replaced ==> agree(before.store, after.store, h.0)
    &&& replaced ==> {
        let e = after.store[h.0];
        &&& after.store.contains_key(h.0)
        &&& e.key == h.0
        &&& e.conflict == h.1
        &&& e.value == val
        &&& e.expiration.created_at == expiration.created_at
        &&& e.expiration.ttl == expiration.ttl
    }
    &&& step is Dropped <==> !replaced && only_update
    &&& step is Send <==> room && (replaced || !only_update)
    &&& step matches InsertStep::Unsent { ticket, exit } ==> {
        &&& ticket.index == h.0
        &&& ticket.is_update == replaced
        &&& exit == if replaced {
            Some(before.store[h.0].value)
        } else {
            None
        }
    }
    &&& step matches InsertStep::Send { item, ticket, exit } ==> {
        &&& ticket.index == h.0
        &&& ticket.is_update == replaced
        &&& exit == if replaced {
            Some(before.store[h.0].value)
        } else {
            None
        }
        &&& match item {
            Item::Update { key, cost: own, external_cost } => {
                &&& replaced
                &&& key == h.0
                &&& own + external_cost == price
            },
            Item::New { key, conflict, cost: own, value, expiration: exp } => {
                &&& !replaced
                &&& key == h.0
                &&& conflict == h.1
                &&& own == price
                &&& value == val
                &&& exp.created_at == expiration.created_at
                &&& exp.ttl == expiration.ttl
            },
            _ => false,
        }
    }
}

/// What an insert under given hashes does, for whatever the coster and the validator
/// answered. A closed cache drops it and stays as it is.
pub proof fn inserts_do_what_they_say<K, V, KH, C, U, CB, S, WG>(
    c: &mut AsyncCache<K, V, KH, C, U, CB, S>,
    h: (u64, u64),
    val: V,
    cost: i64,
    evaluated: i64,
    allowed: bool,
    expiration: Time,
    only_update: bool,
    room: bool,
    r: InsertStep<V, WG>,
    k: u64,
) where
    K: Hash + Eq,
    V: Send + Sync + 'static,
    KH: KeyBuilder<K>,
    C: Coster<V>,
    U: UpdateValidator<V>,
    S: BuildHasher + Clone,

    requires
        call_ensures(
            AsyncCache::<K, V, KH, C, U, CB, S>::insert_hashed::<WG>,
            (c, h, val, cost, evaluated, allowed, expiration, only_update, room),
            r,
        ),
    ensures
        !old(c).is_closed ==> insert_comes_to(
            old(c).shared@,
            h,
            val,
            cost,
            evaluated,
            allowed,
            expiration,
            only_update,
            room,
            final(c).shared@,
            r,
        ),
        old(c).is_closed ==> r is Dropped && left_alone(old(c).shared@, final(c).shared@, k),
        same_cache(old(c), final(c)),
{
}

/// A value that replaces another is read until its own time to live has passed, and never
/// after. Where it never expires, it is read at any time.
pub proof fn replaced_values_live_as_long_as_they_were_given<K, V, KH, C, U, CB, S, WG>(
    c: &mut AsyncCache<K, V, KH, C, U, CB, S>,
    h: (u64, u64),
    val: V,
    cost: i64,
    evaluated: i64,
    allowed: bool,
    expiration: Time,
    only_update: bool,
    room: bool,
    r: InsertStep<V, WG>,
    later: u128,
    seen: Option<&V>,
) where
    K: Hash + Eq,
    V: Send + Sync + 'static,
    KH: KeyBuilder<K>,
    C: Coster<V>,
    U: UpdateValidator<V>,
    S: BuildHasher + Clone,

    requires
        call_ensures(
            AsyncCache::<K, V, KH, C, U, CB, S>::insert_hashed::<WG>,
            (c, h, val, cost, evaluated, allowed, expiration, only_update, room),
            r,
        ),
        !old(c).is_closed,
        old(c).shared@.store.contains_key(h.0),
        matching(old(c).shared@.store[h.0], h.1),
        allowed,
        call_ensures(AsyncCache::<K, V, KH, C, U, CB, S>::get_hashed, (final(c), h, later), seen),
    ensures
        seen is Some <==> expiration.ttl == 0 || later < expiration.created_at + expiration.ttl,
        seen is Some ==> *seen->0 == val,
{
}

/// Whatever an insert does, a reader of a key with another index sees what it saw before.
pub proof fn inserts_leave_other_keys_alone<K, V, KH, C, U, CB, S, WG>(
    c: &mut AsyncCache<K, V, KH, C, U, CB, S>,
    h: (u64, u64),
    val: V,
    cost: i64,
    evaluated: i64,
    allowed: bool,
    expiration: Time,
    only_update: bool,
    room: bool,
    r: InsertStep<V, WG>,
    g: (u64, u64),
    now: u128,
    before: Option<&V>,
    after: Option<&V>,
) where
    K: Hash + Eq,
    V: Send + Sync + 'static,
    KH: KeyBuilder<K>,
    C: Coster<V>,
    U: UpdateValidator<V>,
    S: BuildHasher + Clone,

    requires
        call_ensures(
            AsyncCache::<K, V, KH, C, U, CB, S>::insert_hashed::<WG>,
            (c, h, val, cost, evaluated, allowed, expiration, only_update, room),
            r,
        ),
        g.0 != h.0,
        call_ensures(AsyncCache::<K, V, KH, C, U, CB, S>::get_hashed, (old(c), g, now), before),
        call_ensures(AsyncCache::<K, V, KH, C, U, CB, S>::get_hashed, (final(c), g, now), after),
    ensures
        before is Some <==> after is Some,
        before is Some ==> *before->0 == *after->0,
{
}

/// Once the message of an insert that replaced a value is handled, a key that is charged
/// is charged what the new value costs: the cost given, or what was evaluated where that is
/// zero, and the storage unless that is free. It does not matter whether the insert was to
/// update only.
pub proof fn replaced_values_are_charged_what_they_cost<K, V, KH, C, U, CB, S, WG>(
    c: &mut AsyncCache<K, V, KH, C, U, CB, S>,
    h: (u64, u64),
    val: V,
    cost: i64,
    evaluated: i64,
    allowed: bool,
    expiration: Time,
    only_update: bool,
    room: bool,
    r: InsertStep<V, WG>,
    p: &mut CacheProcessor<S>,
    s: &mut Shared<V, U, S>,
    ranking: &Ranking,
    now: u128,
    done: Reaction<V, WG>,
) where
    K: Hash + Eq,
    V: Send + Sync + 'static,
    KH: KeyBuilder<K>,
    C: Coster<V>,
    U: UpdateValidator<V>,
    S: BuildHasher + Clone,

    requires
        call_ensures(
            AsyncCache::<K, V, KH, C, U, CB, S>::insert_hashed::<WG>,
            (c, h, val, cost, evaluated, allowed, expiration, only_update, room),
            r,
        ),
        !old(c).is_closed,
        old(c).shared@.store.contains_key(h.0),
        matching(old(c).shared@.store[h.0], h.1),
        allowed,
        room,
        r is Send ==> call_ensures(
            CacheProcessor::<S>::handle_item::<V, U, WG>,
            (p, s, r->Send_item, ranking, now),
            done,
        ),
        old(s)@.costs.contains_key(h.0),
    ensures
        r is Send,
        final(s)@.costs.contains_key(h.0),
        charged_as(
            old(p)@,
            if cost != 0 {
                cost as int
            } else {
                evaluated as int
            },
            final(s)@.costs[h.0],
        ),
        agree(old(s)@.store, final(s)@.store, h.0),
{
}

/// Once the message of an insert of an absent key is handled and lets the value in, the
/// value is read until its time to live has passed, and the key is charged what the value
/// costs.
pub proof fn new_values_are_stored_and_charged<K, V, KH, C, U, CB, S, WG>(
    c: &mut AsyncCache<K, V, KH, C, U, CB, S>,
    h: (u64, u64),
    val: V,
    cost: i64,
    evaluated: i64,
    allowed: bool,
    expiration: Time,
    only_update: bool,
    room: bool,
    r: InsertStep<V, WG>,
    p: &mut CacheProcessor<S>,
    s: &mut Shared<V, U, S>,
    l: &mut AsyncLFUPolicy<S>,
    charge: i64,
    a: Admission,
    ranking: &Ranking,
    now: u128,
    done: Reaction<V, WG>,
) where
    K: Hash + Eq,
    V: Send + Sync + 'static,
    KH: KeyBuilder<K>,
    C: Coster<V>,
    U: UpdateValidator<V>,
    S: BuildHasher + Clone,

    requires
        call_ensures(
            AsyncCache::<K, V, KH, C, U, CB, S>::insert_hashed::<WG>,
            (c, h, val, cost, evaluated, allowed, expiration, only_update, room),
            r,
        ),
        !old(c).is_closed,
        !old(c).shared@.store.contains_key(h.0) || !matching(old(c).shared@.store[h.0], h.1),
        room,
        !only_update,
        charged_as(
            old(p)@,
            if cost != 0 {
                cost as int
            } else {
                evaluated as int
            },
            charge,
        ),
        old(s).wf(),
        old(l).wf(),
        old(l)@ == old(s)@.costs,
        old(l).bound() == old(s)@.max_cost,
        call_ensures(AsyncLFUPolicy::<S>::add, (l, h.0, charge, ranking), a),
        a.added,
        r is Send ==> call_ensures(
            CacheProcessor::<S>::handle_item::<V, U, WG>,
            (p, s, r->Send_item, ranking, now),
            done,
        ),
    ensures
        r is Send,
        final(s)@.store.contains_key(h.0),
        final(s)@.store[h.0].conflict == h.1,
        final(s)@.store[h.0].value == val,
        final(s)@.store[h.0].expiration == expiration,
        final(s)@.costs.contains_key(h.0),
        final(s)@.costs[h.0] == charge,
{
    super::task::admissions_decide_what_is_stored(
        p,
        s,
        r->Send_item,
        ranking,
        now,
        done,
        l,
        charge,
        a,
        h.0,
    );
    super::task::new_values_go_through_an_admission(
        p,
        s,
        r->Send_item,
        ranking,
        now,
        done,
        l,
        charge,
        a,
    );
    if !old(s)@.costs.contains_key(h.0) {
        super::ledger::only_added_keys_are_charged(l, h.0, charge, ranking, a, h.0);
    }
}

/// Whether these are answers of the parts of the cache that an insert of `key` can meet:
/// the hashes of the key; where that is in the store, whether its value is replaced; and
/// where the cost is zero and a message goes out, what the item costs.
pub open spec fn parts_answer<K, V, KH, C, U, CB, S>(
    c: &AsyncCache<K, V, KH, C, U, CB, S>,
    key: K,
    val: V,
    cost: i64,
    only_update: bool,
    room: bool,
    h: (u64, u64),
    evaluated: i64,
    allowed: bool,
) -> bool where
    K: Hash + Eq,
    V: Send + Sync + 'static,
    KH: KeyBuilder<K>,
    C: Coster<V>,
    U: UpdateValidator<V>,
    S: BuildHasher + Clone,
 {
    &&& call_ensures(KH::build_key, (&c.key_to_hash, &key), h)
    &&& stored(c.shared@, h) ==> call_ensures(
        U::should_update,
        (&c.shared.validator(), &c.shared@.store[h.0].value, &val),
        allowed,
    )
    &&& cost == 0 && room && (!only_update || (stored(c.shared@, h) && allowed)) ==> call_ensures(
        C::cost,
        (&c.coster, &val),
        evaluated,
    )
}

/// Whether an insert by key did what the answers of the parts lead to; nothing, where
/// the cache is closed. The parts themselves stay what they were.
pub open spec fn insert_did<K, V, KH, C, U, CB, S, WG>(
    c: &AsyncCache<K, V, KH, C, U, CB, S>,
    key: K,
    val: V,
    cost: i64,
    created_at: u128,
    ttl: u128,
    only_update: bool,
    room: bool,
    d: &AsyncCache<K, V, KH, C, U, CB, S>,
    step: InsertStep<V, WG>,
) -> bool where
    K: Hash + Eq,
    V: Send + Sync + 'static,
    KH: KeyBuilder<K>,
    C: Coster<V>,
    U: UpdateValidator<V>,
    S: BuildHasher + Clone,
 {
    &&& same_cache(c, d)
    &&& c.is_closed ==> step is Dropped && forall|k: u64|
        #[trigger] left_alone(c.shared@, d.shared@, k)
    &&& !c.is_closed ==> exists|h: (u64, u64), evaluated: i64, allowed: bool| #[trigger]
        parts_answer(c, key, val, cost, only_update, room, h, evaluated, allowed)
            && insert_comes_to(
            c.shared@,
            h,
            val,
            cost,
            evaluated,
            allowed,
            Time { created_at, ttl },
            only_update,
            room,
            d.shared@,
            step,
        )
}

/// Whether two caches have the same parts, and both are closed or neither is.
pub open spec fn same_cache<
    K,
    V,
    KH,
    C,
    U,
    CB,
    S,
>(c: &AsyncCache<K, V, KH, C, U, CB, S>, d: &AsyncCache<K, V, KH, C, U, CB, S>) -> bool where
    K: Hash + Eq,
    V: Send + Sync + 'static,
    KH: KeyBuilder<K>,
    C: Coster<V>,
    U: UpdateValidator<V>,
    S: BuildHasher + Clone,
 {
    &&& d.callback == c.callback
    &&& d.key_to_hash == c.key_to_hash
    &&& d.coster == c.coster
    &&& d.is_closed == c.is_closed
    &&& d.shared.validator() == c.shared.validator()
    &&& d.shared.hash_builder() == c.shared.hash_builder()
    &&& d.shared.counters() == c.shared.counters()
}

proof fn lemma_insert_did<K, V, KH, C, U, CB, S, WG>(
    c: &AsyncCache<K, V, KH, C, U, CB, S>,
    key: K,
    val: V,
    cost: i64,
    expiration: Time,
    only_update: bool,
    room: bool,
    d: &AsyncCache<K, V, KH, C, U, CB, S>,
    step: InsertStep<V, WG>,
) where
    K: Hash + Eq,
    V: Send + Sync + 'static,
    KH: KeyBuilder<K>,
    C: Coster<V>,
    U: UpdateValidator<V>,
    S: BuildHasher + Clone,

    requires
        c.insert_leads_to(key, val, cost, expiration, only_update, room, d.shared@, step),
        d.same_parts(c),
        d.is_closed == c.is_closed,
    ensures
        insert_did(
            c,
            key,
            val,
            cost,
            expiration.created_at,
            expiration.ttl,
            only_update,
            room,
            d,
            step,
        ),
{
    if !c.is_closed {
        let (h, evaluated, allowed) = choose|h: (u64, u64), evaluated: i64, allowed: bool|
            {
                let i = crate::cache::inserted::<V, WG>(
                    c.shared@,
                    h,
                    val,
                    cost,
                    evaluated,
                    allowed,
                    expiration,
                    only_update,
                    room,
                );
                &&& #[trigger] c.answers(
                    key,
                    val,
                    cost,
                    only_update,
                    room,
                    h,
                    evaluated,
                    allowed,
                )
                &&& d.shared@ == i.shared
                &&& step == i.step
            };
        assert(parts_answer(c, key, val, cost, only_update, room, h, evaluated, allowed));
        assert(Time { created_at: expiration.created_at, ttl: expiration.ttl } == expiration);
    }
}

/// An insert by key never fails, and does what the answers of the parts lead to.
pub proof fn try_insert_in_does_what_it_says<K, V, KH, C, U, CB, S, WG>(
    c: &mut AsyncCache<K, V, KH, C, U, CB, S>,
    key: K,
    val: V,
    cost: i64,
    ttl: u128,
    only_update: bool,
    room: bool,
    now: u128,
    r: Result<InsertStep<V, WG>, CacheError>,
) where
    K: Hash + Eq,
    V: Send + Sync + 'static,
    KH: KeyBuilder<K>,
    C: Coster<V>,
    U: UpdateValidator<V>,
    S: BuildHasher + Clone,

    requires
        call_ensures(
            AsyncCache::<K, V, KH, C, U, CB, S>::try_insert_in::<WG>,
            (c, key, val, cost, ttl, only_update, room, now),
            r,
        ),
    ensures
        r is Ok,
        insert_did(old(c), key, val, cost, now, ttl, only_update, room, final(c), r->Ok_0),
{
    lemma_insert_did(
        old(c),
        key,
        val,
        cost,
        Time { created_at: now, ttl: ttl },
        only_update,
        room,
        final(c),
        r->Ok_0,
    );
}

/// `insert` stores a value that never expires, and adds keys.
pub proof fn insert_does_what_it_says<K, V, KH, C, U, CB, S, WG>(
    c: &mut AsyncCache<K, V, KH, C, U, CB, S>,
    key: K,
    val: V,
    cost: i64,
    room: bool,
    now: u128,
    r: InsertStep<V, WG>,
) where
    K: Hash + Eq,
    V: Send + Sync + 'static,
    KH: KeyBuilder<K>,
    C: Coster<V>,
    U: UpdateValidator<V>,
    S: BuildHasher + Clone,

    requires
        call_ensures(
            AsyncCache::<K, V, KH, C, U, CB, S>::insert::<WG>,
            (c, key, val, cost, room, now),
            r,
        ),
    ensures
        insert_did(old(c), key, val, cost, now, 0, false, room, final(c), r),
{
    lemma_insert_did(
        old(c),
        key,
        val,
        cost,
        Time { created_at: now, ttl: 0 },
        false,
        room,
        final(c),
        r,
    );
}

/// `try_insert` stores a value that never expires, and adds keys.
pub proof fn try_insert_does_what_it_says<K, V, KH, C, U, CB, S, WG>(
    c: &mut AsyncCache<K, V, KH, C, U, CB, S>,
    key: K,
    val: V,
    cost: i64,
    room: bool,
    now: u128,
    r: Result<InsertStep<V, WG>, CacheError>,
) where
    K: Hash + Eq,
    V: Send + Sync + 'static,
    KH: KeyBuilder<K>,
    C: Coster<V>,
    U: UpdateValidator<V>,
    S: BuildHasher + Clone,

    requires
        call_ensures(
            AsyncCache::<K, V, KH, C, U, CB, S>::try_insert::<WG>,
            (c, key, val, cost, room, now),
            r,
        ),
    ensures
        r is Ok,
        insert_did(old(c), key, val, cost, now, 0, false, room, final(c), r->Ok_0),
{
    lemma_insert_did(
        old(c),
        key,
        val,
        cost,
        Time { created_at: now, ttl: 0 },
        false,
        room,
        final(c),
        r->Ok_0,
    );
}

/// `insert_with_ttl` stores a value that lives as long as it is told, and adds keys.
pub proof fn insert_with_ttl_does_what_it_says<K, V, KH, C, U, CB, S, WG>(
    c: &mut AsyncCache<K, V, KH, C, U, CB, S>,
    key: K,
    val: V,
    cost: i64,
    ttl: u128,
    room: bool,
    now: u128,
    r: InsertStep<V, WG>,
) where
    K: Hash + Eq,
    V: Send + Sync + 'static,
    KH: KeyBuilder<K>,
    C: Coster<V>,
    U: UpdateValidator<V>,
    S: BuildHasher + Clone,

    requires
        call_ensures(
            AsyncCache::<K, V, KH, C, U, CB, S>::insert_with_ttl::<WG>,
            (c, key, val, cost, ttl, room, now),
            r,
        ),
    ensures
        insert_did(old(c), key, val, cost, now, ttl, false, room, final(c), r),
{
    lemma_insert_did(
        old(c),
        key,
        val,
        cost,
        Time { created_at: now, ttl: ttl },
        false,
        room,
        final(c),
        r,
    );
}

/// `try_insert_with_ttl` stores a value that lives as long as it is told, and adds keys.
pub proof fn try_insert_with_ttl_does_what_it_says<K, V, KH, C, U, CB, S, WG>(
    c: &mut AsyncCache<K, V, KH, C, U, CB, S>,
    key: K,
    val: V,
    cost: i64,
    ttl: u128,
    room: bool,
    now: u128,
    r: Result<InsertStep<V, WG>, CacheError>,
) where
    K: Hash + Eq,
    V: Send + Sync + 'static,
    KH: KeyBuilder<K>,
    C: Coster<V>,
    U: UpdateValidator<V>,
    S: BuildHasher + Clone,

    requires
        call_ensures(
            AsyncCache::<K, V, KH, C, U, CB, S>::try_insert_with_ttl::<WG>,
            (c, key, val, cost, ttl, room, now),
            r,
        ),
    ensures
        r is Ok,
        insert_did(old(c), key, val, cost, now, ttl, false, room, final(c), r->Ok_0),
{
    lemma_insert_did(
        old(c),
        key,
        val,
        cost,
        Time { created_at: now, ttl: ttl },
        false,
        room,
        final(c),
        r->Ok_0,
    );
}

/// `insert_if_present` stores a value that never expires, and adds no key.
pub proof fn insert_if_present_does_what_it_says<K, V, KH, C, U, CB, S, WG>(
    c: &mut AsyncCache<K, V, KH, C, U, CB, S>,
    key: K,
    val: V,
    cost: i64,
    room: bool,
    now: u128,
    r: InsertStep<V, WG>,
) where
    K: Hash + Eq,
    V: Send + Sync + 'static,
    KH: KeyBuilder<K>,
    C: Coster<V>,
    U: UpdateValidator<V>,
    S: BuildHasher + Clone,

    requires
        call_ensures(
            AsyncCache::<K, V, KH, C, U, CB, S>::insert_if_present::<WG>,
            (c, key, val, cost, room, now),
            r,
        ),
    ensures
        insert_did(old(c), key, val, cost, now, 0, true, room, final(c), r),
{
    lemma_insert_did(
        old(c),
        key,
        val,
        cost,
        Time { created_at: now, ttl: 0 },
        true,
        room,
        final(c),
        r,
    );
}

/// `try_insert_if_present` stores a value that never expires, and adds no key.
pub proof fn try_insert_if_present_does_what_it_says<K, V, KH, C, U, CB, S, WG>(
    c: &mut AsyncCache<K, V, KH, C, U, CB, S>,
    key: K,
    val: V,
    cost: i64,
    room: bool,
    now: u128,
    r: Result<InsertStep<V, WG>, CacheError>,
) where
    K: Hash + Eq,
    V: Send + Sync + 'static,
    KH: KeyBuilder<K>,
    C: Coster<V>,
    U: UpdateValidator<V>,
    S: BuildHasher + Clone,

    requires
        call_ensures(
            AsyncCache::<K, V, KH, C, U, CB, S>::try_insert_if_present::<WG>,
            (c, key, val, cost, room, now),
            r,
        ),
    ensures
        r is Ok,
        insert_did(old(c), key, val, cost, now, 0, true, room, final(c), r->Ok_0),
{
    lemma_insert_did(
        old(c),
        key,
        val,
        cost,
        Time { created_at: now, ttl: 0 },
        true,
        room,
        final(c),
        r->Ok_0,
    );
}

/// The answer of an insert is `true` if its message reached the buffer or it replaced a
/// value. Otherwise one more drop is counted under the index of its key, where metrics are
/// counted: the counter of the index grows by one, and no other. Nothing else changes.
pub proof fn finished_inserts_answer_and_count<K, V, KH, C, U, CB, S>(
    c: &mut AsyncCache<K, V, KH, C, U, CB, S>,
    ticket: InsertTicket,
    accepted: bool,
    r: bool,
    k: u64,
    i: int,
) where
    K: Hash + Eq,
    V: Send + Sync + 'static,
    KH: KeyBuilder<K>,
    C: Coster<V>,
    U: UpdateValidator<V>,
    S: BuildHasher + Clone,

    requires
        call_ensures(AsyncCache::<K, V, KH, C, U, CB, S>::finish_insert, (c, ticket, accepted), r),
        0 <= i < 256,
    ensures
        r <==> accepted || ticket.is_update,
        agree(old(c).shared@.store, final(c).shared@.store, k),
        agree(old(c).shared@.costs, final(c).shared@.costs, k),
        final(c).shared@.max_cost == old(c).shared@.max_cost,
        final(c).shared@.counting == old(c).shared@.counting,
        final(c).shared@.dropped.len() == 256,
        final(c).shared@.dropped[i] == if !r && old(c).shared@.counting && i == ticket.index % 256 {
            old(c).shared@.dropped[i].wrapping_add(1)
        } else {
            old(c).shared@.dropped[i]
        },
        same_cache(old(c), final(c)),
{
    old(c).shared.metrics.counters_are_many();
}

/// What the first half of a removal from an open cache comes to: the entry of the key
/// leaves the store, if there is one, and the callback is to be told of its value. No
/// other index is touched, nor an entry of another key at the index, and no charge. The
/// deletion of the key goes out as a message.
pub open spec fn removal_comes_to<V, WG>(
    before: SharedView<V>,
    h: (u64, u64),
    after: SharedView<V>,
    step: RemoveStep<V, WG>,
) -> bool {
    &&& same_settings(before, after)
    &&& forall|k: u64| #[trigger] agree(before.costs, after.costs, k)
    &&& forall|k: u64| k != h.0 ==> #[trigger] agree(before.store, after.store, k)
    &&& stored(before, h) ==> !after.store.contains_key(h.0)
    &&& !stored(before, h) ==> agree(before.store, after.store, h.0)
    &&& match step {
        RemoveStep::Send { item, exit } => {
            &&& exit is Some <==> stored(before, h)
            &&& exit is Some ==> exit->0 == before.store[h.0].value
            &&& match item {
                Item::Delete { key, conflict } => key == h.0 && conflict == h.1,
                _ => false,
            }
        },
        RemoveStep::Done => false,
    }
}

/// What a removal under given hashes does. A closed cache stays as it is.
pub proof fn removals_do_what_they_say<K, V, KH, C, U, CB, S, WG>(
    c: &mut AsyncCache<K, V, KH, C, U, CB, S>,
    h: (u64, u64),
    r: RemoveStep<V, WG>,
    k: u64,
) where
    K: Hash + Eq,
    V: Send + Sync + 'static,
    KH: KeyBuilder<K>,
    C: Coster<V>,
    U: UpdateValidator<V>,
    S: BuildHasher + Clone,

    requires
        call_ensures(AsyncCache::<K, V, KH, C, U, CB, S>::remove_hashed::<WG>, (c, h), r),
    ensures
        !old(c).is_closed ==> removal_comes_to(old(c).shared@, h, final(c).shared@, r),
        old(c).is_closed ==> r is Done && left_alone(old(c).shared@, final(c).shared@, k),
        same_cache(old(c), final(c)),
{
}

/// After a removal a reader of the key finds nothing, and a reader of a key with another
/// index what it found before.
pub proof fn removals_leave_other_keys_alone<K, V, KH, C, U, CB, S, WG>(
    c: &mut AsyncCache<K, V, KH, C, U, CB, S>,
    h: (u64, u64),
    r: RemoveStep<V, WG>,
    g: (u64, u64),
    now: u128,
    own: Option<&V>,
    before: Option<&V>,
    after: Option<&V>,
) where
    K: Hash + Eq,
    V: Send + Sync + 'static,
    KH: KeyBuilder<K>,
    C: Coster<V>,
    U: UpdateValidator<V>,
    S: BuildHasher + Clone,

    requires
        call_ensures(AsyncCache::<K, V, KH, C, U, CB, S>::remove_hashed::<WG>, (c, h), r),
        call_ensures(AsyncCache::<K, V, KH, C, U, CB, S>::get_hashed, (final(c), h, now), own),
        call_ensures(AsyncCache::<K, V, KH, C, U, CB, S>::get_hashed, (old(c), g, now), before),
        call_ensures(AsyncCache::<K, V, KH, C, U, CB, S>::get_hashed, (final(c), g, now), after),
    ensures
        own is None,
        g.0 != h.0 ==> (before is Some <==> after is Some),
        g.0 != h.0 && before is Some ==> *before->0 == *after->0,
{
}

/// Once the message of a removal is handled, in whatever state, nothing is stored under the
/// key; and where nothing is stored at its index, nothing is charged there.
pub proof fn handled_removals_leave_nothing<K, V, KH, C, U, CB, S, WG>(
    c: &mut AsyncCache<K, V, KH, C, U, CB, S>,
    h: (u64, u64),
    r: RemoveStep<V, WG>,
    p: &mut CacheProcessor<S>,
    s: &mut Shared<V, U, S>,
    ranking: &Ranking,
    now: u128,
    done: Reaction<V, WG>,
    k: u64,
) where
    K: Hash + Eq,
    V: Send + Sync + 'static,
    KH: KeyBuilder<K>,
    C: Coster<V>,
    U: UpdateValidator<V>,
    S: BuildHasher + Clone,

    requires
        call_ensures(AsyncCache::<K, V, KH, C, U, CB, S>::remove_hashed::<WG>, (c, h), r),
        !old(c).is_closed,
        r is Send ==> call_ensures(
            CacheProcessor::<S>::handle_item::<V, U, WG>,
            (p, s, r->Send_item, ranking, now),
            done,
        ),
    ensures
        r is Send,
        !stored(final(s)@, h),
        !final(s)@.store.contains_key(h.0) ==> !final(s)@.costs.contains_key(h.0),
        k != h.0 ==> agree(old(s)@.store, final(s)@.store, k) && agree(
            old(s)@.costs,
            final(s)@.costs,
            k,
        ),
{
}

/// `try_remove` removes under the hashes of its key, and never fails.
pub proof fn try_remove_does_what_it_says<K, V, KH, C, U, CB, S, WG>(
    c: &mut AsyncCache<K, V, KH, C, U, CB, S>,
    key: K,
    r: Result<RemoveStep<V, WG>, CacheError>,
    k: u64,
) where
    K: Hash + Eq,
    V: Send + Sync + 'static,
    KH: KeyBuilder<K>,
    C: Coster<V>,
    U: UpdateValidator<V>,
    S: BuildHasher + Clone,

    requires
        call_ensures(AsyncCache::<K, V, KH, C, U, CB, S>::try_remove::<WG>, (c, &key), r),
    ensures
        r is Ok,
        old(c).is_closed ==> r->Ok_0 is Done && left_alone(old(c).shared@, final(c).shared@, k),
        !old(c).is_closed ==> exists|h: (u64, u64)| #[trigger]
            call_ensures(KH::build_key, (&old(c).key_to_hash, &key), h) && removal_comes_to(
                old(c).shared@,
                h,
                final(c).shared@,
                r->Ok_0,
            ),
        same_cache(old(c), final(c)),
{
    if !old(c).is_closed {
        let h = choose|h: (u64, u64)|
            {
                &&& #[trigger] call_ensures(KH::build_key, (&old(c).key_to_hash, &key), h)
                &&& final(c).shared@ == crate::cache::removed::<V, WG>(old(c).shared@, h).shared
                &&& r->Ok_0 == crate::cache::removed::<V, WG>(old(c).shared@, h).step
            };
        assert(removal_comes_to(old(c).shared@, h, final(c).shared@, r->Ok_0));
    }
}

/// `remove` removes under the hashes of its key, and never fails.
pub proof fn remove_does_what_it_says<K, V, KH, C, U, CB, S, WG>(
    c: &mut AsyncCache<K, V, KH, C, U, CB, S>,
    key: K,
    r: RemoveStep<V, WG>,
    k: u64,
) where
    K: Hash + Eq,
    V: Send + Sync + 'static,
    KH: KeyBuilder<K>,
    C: Coster<V>,
    U: UpdateValidator<V>,
    S: BuildHasher + Clone,

    requires
        call_ensures(AsyncCache::<K, V, KH, C, U, CB, S>::remove::<WG>, (c, &key), r),
    ensures
        old(c).is_closed ==> r is Done && left_alone(old(c).shared@, final(c).shared@, k),
        !old(c).is_closed ==> exists|h: (u64, u64)| #[trigger]
            call_ensures(KH::build_key, (&old(c).key_to_hash, &key), h) && removal_comes_to(
                old(c).shared@,
                h,
                final(c).shared@,
                r,
            ),
        same_cache(old(c), final(c)),
{
    if !old(c).is_closed {
        let h = choose|h: (u64, u64)|
            {
                &&& #[trigger] call_ensures(KH::build_key, (&old(c).key_to_hash, &key), h)
                &&& final(c).shared@ == crate::cache::removed::<V, WG>(old(c).shared@, h).shared
                &&& r == crate::cache::removed::<V, WG>(old(c).shared@, h).step
            };
        assert(removal_comes_to(old(c).shared@, h, final(c).shared@, r));
    }
}

/// A reader of an open cache finds the value that is stored under the hashes of the key
/// until its time to live has passed, and nothing otherwise. A closed cache gives nothing.
pub proof fn reads_find_what_is_stored<K, V, KH, C, U, CB, S>(
    c: &AsyncCache<K, V, KH, C, U, CB, S>,
    h: (u64, u64),
    key: K,
    now: u128,
    r: Option<&V>,
    by_key: Option<&V>,
) where
    K: Hash + Eq,
    V: Send + Sync + 'static,
    KH: KeyBuilder<K>,
    C: Coster<V>,
    U: UpdateValidator<V>,
    S: BuildHasher + Clone,

    requires
        call_ensures(AsyncCache::<K, V, KH, C, U, CB, S>::get_hashed, (c, h, now), r),
        call_ensures(AsyncCache::<K, V, KH, C, U, CB, S>::get, (c, &key, now), by_key),
    ensures
        r is Some <==> !c.is_closed && stored(c.shared@, h) && !passed(
            c.shared@.store[h.0].expiration,
            now,
        ),
        r is Some ==> *r->0 == c.shared@.store[h.0].value,
        c.is_closed ==> by_key is None,
        !c.is_closed ==> exists|g: (u64, u64)|
            {
                let found = stored(c.shared@, g) && !passed(c.shared@.store[g.0].expiration, now);
                &&& #[trigger] call_ensures(KH::build_key, (&c.key_to_hash, &key), g)
                &&& by_key is Some <==> found
                &&& by_key is Some ==> *by_key->0 == c.shared@.store[g.0].value
            },
{
    if !c.is_closed {
        let g = choose|g: (u64, u64)|
            {
                let found = crate::store::lookup(c.shared@.store, g.0, g.1, now);
                &&& #[trigger] call_ensures(KH::build_key, (&c.key_to_hash, &key), g)
                &&& match by_key {
                    Some(v) => found == Some(*v),
                    None => found is None,
                }
            };
        assert(call_ensures(KH::build_key, (&c.key_to_hash, &key), g));
    }
}

/// Waiting on an open cache sends the waiter, and on a closed one is over. Where a message
/// of waiting or of clearing out is not sent, that is an error with the reason; where it is,
/// it is none.
pub proof fn waits_and_signals_report_what_became_of_them<K, V, KH, C, U, CB, S, WG>(
    c: &AsyncCache<K, V, KH, C, U, CB, S>,
    wg: WG,
    r: Option<Item<V, WG>>,
    sent: Result<(), String>,
    waited: Result<(), CacheError>,
    cleared: Result<(), CacheError>,
) where
    K: Hash + Eq,
    V: Send + Sync + 'static,
    KH: KeyBuilder<K>,
    C: Coster<V>,
    U: UpdateValidator<V>,
    S: BuildHasher + Clone,

    requires
        call_ensures(AsyncCache::<K, V, KH, C, U, CB, S>::wait::<WG>, (c, wg), r),
        call_ensures(AsyncCache::<K, V, KH, C, U, CB, S>::wait_sent, (c, sent), waited),
        call_ensures(AsyncCache::<K, V, KH, C, U, CB, S>::clear_sent, (c, sent), cleared),
    ensures
        r is Some <==> !c.is_closed,
        r matches Some(item) ==> item == Item::<V, WG>::Wait(wg),
        waited is Ok <==> sent is Ok,
        cleared is Ok <==> sent is Ok,
        sent matches Err(reason) ==> match waited {
            Err(CacheError::SendError(text)) => text@ == "cache set buf sender: "@ + reason@,
            _ => false,
        },
        sent matches Err(reason) ==> match cleared {
            Err(CacheError::SendError(text)) => text@
                == "fail to send clear signal to working thread, "@ + reason@,
            _ => false,
        },
{
}

/// Closing an open cache asks for a clearing out, then sends the stop signal, then closes the
/// policy, and only then is the cache closed. A failure on the way comes back, and leaves a
/// cache that was open open. Closing a closed cache does nothing. Once clearing out was asked
/// for, nothing is stored, charged or counted; no other event changes anything of that.
pub proof fn closing_goes_its_way<K, V, KH, C, U, CB, S>(
    c: &mut AsyncCache<K, V, KH, C, U, CB, S>,
    event: CloseEvent,
    r: Result<CloseStep, CacheError>,
    k: u64,
    i: int,
) where
    K: Hash + Eq,
    V: Send + Sync + 'static,
    KH: KeyBuilder<K>,
    C: Coster<V>,
    U: UpdateValidator<V>,
    S: BuildHasher + Clone,

    requires
        call_ensures(AsyncCache::<K, V, KH, C, U, CB, S>::close, (c, event), r),
        0 <= i < 256,
    ensures
        match event {
            CloseEvent::Start => if old(c).is_closed {
                r matches Ok(CloseStep::Done)
            } else {
                r matches Ok(CloseStep::AskClear)
            },
            CloseEvent::ClearAsked(Ok(_)) => r matches Ok(CloseStep::SendStop),
            CloseEvent::StopSent(Ok(_)) => r matches Ok(CloseStep::ClosePolicy),
            CloseEvent::PolicyClosed(Ok(_)) => r matches Ok(CloseStep::Done),
            CloseEvent::ClearAsked(Err(e)) => r matches Err(x) && x == e,
            CloseEvent::PolicyClosed(Err(e)) => r matches Err(x) && x == e,
            CloseEvent::StopSent(Err(reason)) => match r {
                Err(CacheError::SendError(text)) => text@
                    == "fail to send stop signal to working thread, "@ + reason@,
                _ => false,
            },
        },
        final(c).is_closed <==> old(c).is_closed || (event matches CloseEvent::PolicyClosed(Ok(_))),
        if event matches CloseEvent::ClearAsked(Ok(_)) {
            &&& !final(c).shared@.store.contains_key(k)
            &&& !final(c).shared@.costs.contains_key(k)
            &&& final(c).shared@.dropped.len() == 256
            &&& final(c).shared@.dropped[i] == 0
            &&& final(c).shared@.max_cost == old(c).shared@.max_cost
            &&& final(c).shared@.counting == old(c).shared@.counting
        } else {
            left_alone(old(c).shared@, final(c).shared@, k)
        },
        final(c).callback == old(c).callback,
        final(c).key_to_hash == old(c).key_to_hash,
        final(c).coster == old(c).coster,
        final(c).shared.validator() == old(c).shared.validator(),
        final(c).shared.hash_builder() == old(c).shared.hash_builder(),
        final(c).shared.counters() == old(c).shared.counters(),
{
}

/// A new cache is open, on the state and with the parts that it is given.
pub proof fn new_caches_are_open<K, V, KH, C, U, CB, S>(
    shared: Shared<V, U, S>,
    callback: CB,
    key_to_hash: KH,
    coster: C,
    r: AsyncCache<K, V, KH, C, U, CB, S>,
) where
    K: Hash + Eq,
    V: Send + Sync + 'static,
    KH: KeyBuilder<K>,
    C: Coster<V>,
    U: UpdateValidator<V>,
    S: BuildHasher + Clone,

    requires
        call_ensures(
            AsyncCache::<K, V, KH, C, U, CB, S>::new,
            (shared, callback, key_to_hash, coster),
            r,
        ),
    ensures
        !r.is_closed,
        r.shared == shared,
        r.callback == callback,
        r.key_to_hash == key_to_hash,
        r.coster == coster,
{
}

} // verus!
