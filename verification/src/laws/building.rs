//! What builders build, and what the defaults do.

use std::hash::{BuildHasher, Hash};
use vstd::prelude::*;
use crate::builder::{AsyncCacheBuilder, Built, Settings};
use crate::error::CacheError;
use crate::item::Item;
use crate::metrics::Metrics;
use crate::policy::AsyncLFUPolicy;
use crate::shared::Shared;
use crate::store::{ShardedMap, StoreItem};
use crate::traits::{
    Coster, DefaultCoster, DefaultUpdateValidator, KeyBuilder, TransparentKeyBuilder,
    UpdateValidator,
};
use crate::ttl::Time;

verus! {

/// Whether settings are those that a builder starts from: a buffer of 32 * 1024
/// messages, no metrics, storage that is charged, and a cleanup every 500 ms.
pub open spec fn starts_from(s: Settings, num_counters: usize, max_cost: i64) -> bool {
    &&& s.num_counters == num_counters
    &&& s.max_cost == max_cost
    &&& s.insert_buffer_size == 32 * 1024
    &&& !s.metrics
    &&& !s.ignore_internal_cost
    &&& s.cleanup_duration == 500 * 1000 * 1000
}

/// A builder starts from what it is given and the defaults.
pub proof fn builders_start_from_the_defaults<
    K: Hash + Eq,
    V: Send + Sync + 'static,
    KH: KeyBuilder<K>,
>(
    num_counters: usize,
    max_cost: i64,
    kh: KH,
    r: AsyncCacheBuilder<K, V>,
    with: AsyncCacheBuilder<K, V, KH>,
)
    requires
        call_ensures(AsyncCacheBuilder::<K, V>::new, (num_counters, max_cost), r),
        call_ensures(
            AsyncCacheBuilder::<K, V, KH>::new_with_key_builder,
            (num_counters, max_cost, kh),
            with,
        ),
    ensures
        starts_from(r.settings, num_counters, max_cost),
        starts_from(with.settings, num_counters, max_cost),
        with.key_to_hash == kh,
{
}

/// Whether two builders have the same parts.
pub open spec fn same_plugs<
    K,
    V,
    KH,
    C,
    U,
    CB,
    S,
>(a: AsyncCacheBuilder<K, V, KH, C, U, CB, S>, b: AsyncCacheBuilder<K, V, KH, C, U, CB, S>) -> bool {
    &&& a.key_to_hash == b.key_to_hash
    &&& a.coster == b.coster
    &&& a.update_validator == b.update_validator
    &&& a.callback == b.callback
    &&& a.hasher == b.hasher
}

/// Each setter of a plain setting sets it to what it is given, and keeps every other
/// setting and all parts.
pub proof fn setters_set_one_thing<K, V, KH, C, U, CB, S>(
    b: AsyncCacheBuilder<K, V, KH, C, U, CB, S>,
    num_counters: usize,
    max_cost: i64,
    insert_buffer_size: usize,
    metrics: bool,
    ignore_internal_cost: bool,
    cleanup_duration: u128,
    r: (
        AsyncCacheBuilder<K, V, KH, C, U, CB, S>,
        AsyncCacheBuilder<K, V, KH, C, U, CB, S>,
        AsyncCacheBuilder<K, V, KH, C, U, CB, S>,
        AsyncCacheBuilder<K, V, KH, C, U, CB, S>,
        AsyncCacheBuilder<K, V, KH, C, U, CB, S>,
        AsyncCacheBuilder<K, V, KH, C, U, CB, S>,
    ),
)
    requires
        call_ensures(
            AsyncCacheBuilder::<K, V, KH, C, U, CB, S>::set_num_counters,
            (b, num_counters),
            r.0,
        ),
        call_ensures(AsyncCacheBuilder::<K, V, KH, C, U, CB, S>::set_max_cost, (b, max_cost), r.1),
        call_ensures(
            AsyncCacheBuilder::<K, V, KH, C, U, CB, S>::set_buffer_size,
            (b, insert_buffer_size),
            r.2,
        ),
        call_ensures(AsyncCacheBuilder::<K, V, KH, C, U, CB, S>::set_metrics, (b, metrics), r.3),
        call_ensures(
            AsyncCacheBuilder::<K, V, KH, C, U, CB, S>::set_ignore_internal_cost,
            (b, ignore_internal_cost),
            r.4,
        ),
        call_ensures(
            AsyncCacheBuilder::<K, V, KH, C, U, CB, S>::set_cleanup_duration,
            (b, cleanup_duration),
            r.5,
        ),
    ensures
        r.0.settings.num_counters == num_counters,
        r.0.settings.max_cost == b.settings.max_cost,
        r.0.settings.insert_buffer_size == b.settings.insert_buffer_size,
        r.0.settings.metrics == b.settings.metrics,
        r.0.settings.ignore_internal_cost == b.settings.ignore_internal_cost,
        r.0.settings.cleanup_duration == b.settings.cleanup_duration,
        same_plugs(r.0, b),
        r.1.settings.num_counters == b.settings.num_counters,
        r.1.settings.max_cost == max_cost,
        r.1.settings.insert_buffer_size == b.settings.insert_buffer_size,
        r.1.settings.metrics == b.settings.metrics,
        r.1.settings.ignore_internal_cost == b.settings.ignore_internal_cost,
        r.1.settings.cleanup_duration == b.settings.cleanup_duration,
        same_plugs(r.1, b),
        r.2.settings.num_counters == b.settings.num_counters,
        r.2.settings.max_cost == b.settings.max_cost,
        r.2.settings.insert_buffer_size == insert_buffer_size,
        r.2.settings.metrics == b.settings.metrics,
        r.2.settings.ignore_internal_cost == b.settings.ignore_internal_cost,
        r.2.settings.cleanup_duration == b.settings.cleanup_duration,
        same_plugs(r.2, b),
        r.3.settings.num_counters == b.settings.num_counters,
        r.3.settings.max_cost == b.settings.max_cost,
        r.3.settings.insert_buffer_size == b.settings.insert_buffer_size,
        r.3.settings.metrics == metrics,
        r.3.settings.ignore_internal_cost == b.settings.ignore_internal_cost,
        r.3.settings.cleanup_duration == b.settings.cleanup_duration,
        same_plugs(r.3, b),
        r.4.settings.num_counters == b.settings.num_counters,
        r.4.settings.max_cost == b.settings.max_cost,
        r.4.settings.insert_buffer_size == b.settings.insert_buffer_size,
        r.4.settings.metrics == b.settings.metrics,
        r.4.settings.ignore_internal_cost == ignore_internal_cost,
        r.4.settings.cleanup_duration == b.settings.cleanup_duration,
        same_plugs(r.4, b),
        r.5.settings.num_counters == b.settings.num_counters,
        r.5.settings.max_cost == b.settings.max_cost,
        r.5.settings.insert_buffer_size == b.settings.insert_buffer_size,
        r.5.settings.metrics == b.settings.metrics,
        r.5.settings.ignore_internal_cost == b.settings.ignore_internal_cost,
        r.5.settings.cleanup_duration == cleanup_duration,
        same_plugs(r.5, b),
{
}

/// Each setter of a part puts in what it is given, and keeps all settings and every
/// other part.
pub proof fn setters_put_in_one_part<K, V, KH, C, U, CB, S, NKH, NC, NU, NCB, NS>(
    b: AsyncCacheBuilder<K, V, KH, C, U, CB, S>,
    kh: NKH,
    coster: NC,
    validator: NU,
    callback: NCB,
    hasher: NS,
    r: (
        AsyncCacheBuilder<K, V, NKH, C, U, CB, S>,
        AsyncCacheBuilder<K, V, KH, NC, U, CB, S>,
        AsyncCacheBuilder<K, V, KH, C, NU, CB, S>,
        AsyncCacheBuilder<K, V, KH, C, U, NCB, S>,
        AsyncCacheBuilder<K, V, KH, C, U, CB, NS>,
    ),
)
    requires
        call_ensures(
            AsyncCacheBuilder::<K, V, KH, C, U, CB, S>::set_key_builder::<NKH>,
            (b, kh),
            r.0,
        ),
        call_ensures(
            AsyncCacheBuilder::<K, V, KH, C, U, CB, S>::set_coster::<NC>,
            (b, coster),
            r.1,
        ),
        call_ensures(
            AsyncCacheBuilder::<K, V, KH, C, U, CB, S>::set_update_validator::<NU>,
            (b, validator),
            r.2,
        ),
        call_ensures(
            AsyncCacheBuilder::<K, V, KH, C, U, CB, S>::set_callback::<NCB>,
            (b, callback),
            r.3,
        ),
        call_ensures(
            AsyncCacheBuilder::<K, V, KH, C, U, CB, S>::set_hasher::<NS>,
            (b, hasher),
            r.4,
        ),
    ensures
        r.0.settings == b.settings,
        r.0.key_to_hash == kh,
        r.0.coster == b.coster,
        r.0.update_validator == b.update_validator,
        r.0.callback == b.callback,
        r.0.hasher == b.hasher,
        r.1.settings == b.settings,
        r.1.key_to_hash == b.key_to_hash,
        r.1.coster == coster,
        r.1.update_validator == b.update_validator,
        r.1.callback == b.callback,
        r.1.hasher == b.hasher,
        r.2.settings == b.settings,
        r.2.key_to_hash == b.key_to_hash,
        r.2.coster == b.coster,
        r.2.update_validator == validator,
        r.2.callback == b.callback,
        r.2.hasher == b.hasher,
        r.3.settings == b.settings,
        r.3.key_to_hash == b.key_to_hash,
        r.3.coster == b.coster,
        r.3.update_validator == b.update_validator,
        r.3.callback == callback,
        r.3.hasher == b.hasher,
        r.4.settings == b.settings,
        r.4.key_to_hash == b.key_to_hash,
        r.4.coster == b.coster,
        r.4.update_validator == b.update_validator,
        r.4.callback == b.callback,
        r.4.hasher == hasher,
{
}

/// A cache is built unless there would be no access counters, no cost could be charged,
/// or the buffer could take no message; the first of these is the error. What is built
/// is open and empty, has counted nothing, and has the settings and the parts of the
/// builder. Metrics are counted and collected exactly where they were asked for.
pub proof fn caches_are_built_as_told<K, V, KH, C, U, CB, S>(
    b: AsyncCacheBuilder<K, V, KH, C, U, CB, S>,
    r: Result<Built<K, V, KH, C, U, CB, S>, CacheError>,
    k: u64,
    i: int,
) where
    K: Hash + Eq,
    V: Send + Sync + 'static,
    KH: KeyBuilder<K>,
    C: Coster<V>,
    U: UpdateValidator<V>,
    S: BuildHasher + Clone + 'static + Send,

    requires
        call_ensures(AsyncCacheBuilder::<K, V, KH, C, U, CB, S>::finalize, (b,), r),
        0 <= i < 256,
    ensures
        match r {
            Err(CacheError::InvalidNumCounters) => b.settings.num_counters == 0,
            Err(CacheError::InvalidMaxCost) => b.settings.num_counters != 0
                && b.settings.max_cost == 0,
            Err(CacheError::InvalidBufferSize) => b.settings.num_counters != 0
                && b.settings.max_cost != 0 && b.settings.insert_buffer_size == 0,
            Err(_) => false,
            Ok(built) => {
                let s = built.cache.shared@;
                let p = built.processor@;
                &&& b.settings.num_counters != 0
                &&& b.settings.max_cost != 0
                &&& b.settings.insert_buffer_size != 0
                &&& !built.cache.is_closed
                &&& !s.store.contains_key(k)
                &&& !s.costs.contains_key(k)
                &&& s.max_cost == b.settings.max_cost
                &&& s.counting == b.settings.metrics
                &&& s.dropped.len() == 256
                &&& s.dropped[i] == 0
                &&& built.cache.shared.collecting() == b.settings.metrics
                &&& built.cache.shared.counters() == b.settings.num_counters
                &&& built.cache.shared.validator() == b.update_validator
                &&& call_ensures(S::clone, (&b.hasher,), built.cache.shared.hash_builder())
                &&& built.cache.key_to_hash == b.key_to_hash
                &&& built.cache.coster == b.coster
                &&& built.cache.callback == b.callback
                &&& !p.start_ts.contains_key(k)
                &&& p.num_to_keep == 100000
                &&& p.ignore_internal_cost == b.settings.ignore_internal_cost
                &&& p.item_size == vstd::layout::size_of::<StoreItem<V>>()
                &&& p.cleanup_duration == b.settings.cleanup_duration
                &&& built.insert_buffer_size == b.settings.insert_buffer_size
            },
        },
{
}

/// The shared state is what it is put together from, and hands its parts out.
pub proof fn shared_states_are_their_parts<V, U: UpdateValidator<V>, S: BuildHasher + Clone>(
    store: ShardedMap<V, U, S>,
    policy: AsyncLFUPolicy<S>,
    metrics: Metrics,
    r: Shared<V, U, S>,
    s: &Shared<V, U, S>,
    store_of: &ShardedMap<V, U, S>,
    policy_of: &AsyncLFUPolicy<S>,
    metrics_of: &Metrics,
)
    requires
        call_ensures(Shared::<V, U, S>::new, (store, policy, metrics), r),
        call_ensures(Shared::<V, U, S>::store, (s,), store_of),
        call_ensures(Shared::<V, U, S>::policy, (s,), policy_of),
        call_ensures(Shared::<V, U, S>::metrics, (s,), metrics_of),
    ensures
        r@.store == store@,
        r@.costs == policy@,
        r@.max_cost == policy.bound(),
        r@.counting == metrics.counting(),
        r@.dropped == metrics.dropped(),
        r.validator() == store.validator(),
        r.hash_builder() == store.hash_builder(),
        r.counters() == policy.counters(),
        r.collecting() == policy.collecting(),
        store_of@ == s@.store,
        store_of.validator() == s.validator(),
        store_of.hash_builder() == s.hash_builder(),
        policy_of@ == s@.costs,
        policy_of.bound() == s@.max_cost,
        policy_of.counters() == s.counters(),
        policy_of.collecting() == s.collecting(),
        metrics_of.counting() == s@.counting,
        metrics_of.dropped() == s@.dropped,
{
}

/// A transparent key is its own index, and shares it with no other key.
pub proof fn transparent_keys_are_their_own_hashes(
    b: &TransparentKeyBuilder,
    k64: u64,
    k32: u32,
    k16: u16,
    k8: u8,
    r: ((u64, u64), (u64, u64), (u64, u64), (u64, u64)),
)
    requires
        call_ensures(<TransparentKeyBuilder as KeyBuilder<u64>>::build_key, (b, &k64), r.0),
        call_ensures(<TransparentKeyBuilder as KeyBuilder<u32>>::build_key, (b, &k32), r.1),
        call_ensures(<TransparentKeyBuilder as KeyBuilder<u16>>::build_key, (b, &k16), r.2),
        call_ensures(<TransparentKeyBuilder as KeyBuilder<u8>>::build_key, (b, &k8), r.3),
    ensures
        r.0 == (k64, 0u64),
        r.1 == (k32 as u64, 0u64),
        r.2 == (k16 as u64, 0u64),
        r.3 == (k8 as u64, 0u64),
{
}

/// By default nothing is evaluated to cost anything, and every value is replaced.
pub proof fn defaults_cost_nothing_and_allow_everything<V>(
    coster: &DefaultCoster<V>,
    validator: &DefaultUpdateValidator<V>,
    prev: V,
    val: V,
    cost: i64,
    allowed: bool,
)
    requires
        call_ensures(<DefaultCoster<V> as Coster<V>>::cost, (coster, &val), cost),
        call_ensures(
            <DefaultUpdateValidator<V> as UpdateValidator<V>>::should_update,
            (validator, &prev, &val),
            allowed,
        ),
    ensures
        cost == 0,
        allowed,
{
}

/// A message holds what it is made from, and only one that announces an update says that
/// it does.
pub proof fn messages_hold_what_they_are_made_from<V, WG>(
    key: u64,
    conflict: u64,
    cost: i64,
    external_cost: i64,
    val: V,
    exp: Time,
    r: (Item<V, WG>, Item<V, WG>, Item<V, WG>),
    item: Item<V, WG>,
    is_update: bool,
)
    requires
        call_ensures(Item::<V, WG>::new, (key, conflict, cost, val, exp), r.0),
        call_ensures(Item::<V, WG>::update, (key, cost, external_cost), r.1),
        call_ensures(Item::<V, WG>::delete, (key, conflict), r.2),
        call_ensures(Item::<V, WG>::is_update, (&item,), is_update),
    ensures
        r.0 is New && r.0->New_key == key && r.0->New_conflict == conflict && r.0->New_cost == cost
            && r.0->value == val && r.0->expiration == exp,
        r.1 is Update && r.1->Update_key == key && r.1->Update_cost == cost && r.1->external_cost
            == external_cost,
        r.2 is Delete && r.2->Delete_key == key && r.2->Delete_conflict == conflict,
        is_update <==> item is Update,
{
}

} // verus!
