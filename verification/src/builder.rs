//! The settings of a cache, and how it is built.

use std::collections::hash_map::RandomState;
use std::hash::{BuildHasher, Hash};
use std::marker::PhantomData;
use vstd::prelude::*;
use crate::cache::AsyncCache;
use crate::error::CacheError;
use crate::metrics::Metrics;
use crate::policy::AsyncLFUPolicy;
use crate::processor::{CacheProcessor, ProcessorView};
use crate::shared::{Shared, SharedView};
use crate::store::{ShardedMap, StoreItem};
use crate::traits::{
    random_state, Coster, DefaultCacheCallback, DefaultCoster, DefaultKeyBuilder,
    DefaultUpdateValidator, KeyBuilder, UpdateValidator,
};

verus! {

/// How many messages the insert buffer takes unless it is told otherwise.
pub const DEFAULT_INSERT_BUF_SIZE: usize = 32768;

/// The nanoseconds between two cleanups unless it is told otherwise: 500 ms.
pub const DEFAULT_CLEANUP_DURATION: u128 = 500000000;

/// How many admissions the working task keeps on record.
pub const NUM_TO_KEEP: usize = 100000;

/// The plain settings of a cache.
#[derive(Debug, Clone, Copy, PartialEq, Eq, Structural)]
pub struct Settings {
    /// The number of access counters, for admission and eviction.
    pub num_counters: usize,
    /// The bound on the sum of what the items in the cache are charged.
    pub max_cost: i64,
    /// How many messages the insert buffer takes.
    pub insert_buffer_size: usize,
    /// Whether the counters count and the policy is told to collect metrics.
    pub metrics: bool,
    /// Whether the storage of an item itself is free of charge.
    pub ignore_internal_cost: bool,
    /// The nanoseconds between two cleanups.
    pub cleanup_duration: u128,
}

/// The settings that a builder starts from.
pub open spec fn default_settings(num_counters: usize, max_cost: i64) -> Settings {
    Settings {
        num_counters,
        max_cost,
        insert_buffer_size: DEFAULT_INSERT_BUF_SIZE,
        metrics: false,
        ignore_internal_cost: false,
        cleanup_duration: DEFAULT_CLEANUP_DURATION,
    }
}

/// The error that settings are refused with.
pub open spec fn refusal(s: Settings) -> Option<CacheError> {
    if s.num_counters == 0 {
        Some(CacheError::InvalidNumCounters)
    } else if s.max_cost == 0 {
        Some(CacheError::InvalidMaxCost)
    } else if s.insert_buffer_size == 0 {
        Some(CacheError::InvalidBufferSize)
    } else {
        None
    }
}

/// Builds a cache.
pub struct AsyncCacheBuilder<
    K,
    V,
    KH = DefaultKeyBuilder,
    C = DefaultCoster<V>,
    U = DefaultUpdateValidator<V>,
    CB = DefaultCacheCallback<V>,
    S = RandomState,
> {
    /// The plain settings.
    pub settings: Settings,
    /// The hashing of keys.
    pub key_to_hash: KH,
    /// Evaluates items that are inserted with a cost of zero.
    pub coster: C,
    /// Decides whether a value that is in the cache is replaced.
    pub update_validator: U,
    /// Is told of what leaves the cache.
    pub callback: CB,
    /// The hasher of the tables inside the cache.
    pub hasher: S,
    pub marker: PhantomData<(K, V)>,
}

impl<K: Hash + Eq, V: Send + Sync + 'static> AsyncCacheBuilder<K, V> {
    /// A builder with this number of access counters and this maximum cost.
    pub fn new(num_counters: usize, max_cost: i64) -> (r: Self)
        ensures
            r.settings == default_settings(num_counters, max_cost),
    {
        Self::new_with_key_builder(num_counters, max_cost, DefaultKeyBuilder::new())
    }
}

impl<K: Hash + Eq, V: Send + Sync + 'static, KH: KeyBuilder<K>> AsyncCacheBuilder<K, V, KH> {
    /// The same, with a hashing of keys.
    pub fn new_with_key_builder(num_counters: usize, max_cost: i64, kh: KH) -> (r: Self)
        ensures
            r.settings == default_settings(num_counters, max_cost),
            r.key_to_hash == kh,
    {
        AsyncCacheBuilder {
            settings: Settings {
                num_counters,
                max_cost,
                insert_buffer_size: DEFAULT_INSERT_BUF_SIZE,
                metrics: false,
                ignore_internal_cost: false,
                cleanup_duration: DEFAULT_CLEANUP_DURATION,
            },
            key_to_hash: kh,
            coster: DefaultCoster::new(),
            update_validator: DefaultUpdateValidator::new(),
            callback: DefaultCacheCallback::new(),
            hasher: random_state(),
            marker: PhantomData,
        }
    }
}

/// Setters. Each changes one thing and keeps the rest.
impl<K, V, KH, C, U, CB, S> AsyncCacheBuilder<K, V, KH, C, U, CB, S> {
    /// Sets the number of access counters. Ten times the number of items that the
    /// cache holds when it is full is a good choice.
    pub fn set_num_counters(self, num_counters: usize) -> (r: Self)
        ensures
            r == (Self { settings: (Settings { num_counters, ..self.settings }), ..self }),
    {
        let mut r = self;
        r.settings.num_counters = num_counters;
        r
    }

    /// Sets the bound on the sum of what the items in the cache are charged.
    pub fn set_max_cost(self, max_cost: i64) -> (r: Self)
        ensures
            r == (Self { settings: (Settings { max_cost, ..self.settings }), ..self }),
    {
        let mut r = self;
        r.settings.max_cost = max_cost;
        r
    }

    /// Sets how many messages the insert buffer takes.
    pub fn set_buffer_size(self, insert_buffer_size: usize) -> (r: Self)
        ensures
            r == (Self { settings: (Settings { insert_buffer_size, ..self.settings }), ..self }),
    {
        let mut r = self;
        r.settings.insert_buffer_size = insert_buffer_size;
        r
    }

    /// Switches the counters on or off.
    pub fn set_metrics(self, metrics: bool) -> (r: Self)
        ensures
            r == (Self { settings: (Settings { metrics, ..self.settings }), ..self }),
    {
        let mut r = self;
        r.settings.metrics = metrics;
        r
    }

    /// Says whether the storage of an item itself is free of charge.
    pub fn set_ignore_internal_cost(self, ignore_internal_cost: bool) -> (r: Self)
        ensures
            r == (Self { settings: (Settings { ignore_internal_cost, ..self.settings }), ..self }),
    {
        let mut r = self;
        r.settings.ignore_internal_cost = ignore_internal_cost;
        r
    }

    /// Sets the nanoseconds between two cleanups.
    pub fn set_cleanup_duration(self, cleanup_duration: u128) -> (r: Self)
        ensures
            r == (Self { settings: (Settings { cleanup_duration, ..self.settings }), ..self }),
    {
        let mut r = self;
        r.settings.cleanup_duration = cleanup_duration;
        r
    }

    /// Sets the hashing of keys.
    pub fn set_key_builder<NKH>(self, key_to_hash: NKH) -> (r: AsyncCacheBuilder<K, V, NKH, C, U, CB, S>)
        ensures
            r.settings == self.settings,
            r.key_to_hash == key_to_hash,
            r.coster == self.coster,
            r.update_validator == self.update_validator,
            r.callback == self.callback,
            r.hasher == self.hasher,
    {
        AsyncCacheBuilder {
            settings: self.settings,
            key_to_hash,
            coster: self.coster,
            update_validator: self.update_validator,
            callback: self.callback,
            hasher: self.hasher,
            marker: PhantomData,
        }
    }

    /// Sets what evaluates items that are inserted with a cost of zero.
    pub fn set_coster<NC>(self, coster: NC) -> (r: AsyncCacheBuilder<K, V, KH, NC, U, CB, S>)
        ensures
            r.settings == self.settings,
            r.coster == coster,
            r.key_to_hash == self.key_to_hash,
            r.update_validator == self.update_validator,
            r.callback == self.callback,
            r.hasher == self.hasher,
    {
        AsyncCacheBuilder {
            settings: self.settings,
            key_to_hash: self.key_to_hash,
            coster,
            update_validator: self.update_validator,
            callback: self.callback,
            hasher: self.hasher,
            marker: PhantomData,
        }
    }

    /// Sets what decides whether a value that is in the cache is replaced.
    pub fn set_update_validator<NU>(self, update_validator: NU) -> (r: AsyncCacheBuilder<K, V, KH, C, NU, CB, S>)
        ensures
            r.settings == self.settings,
            r.update_validator == update_validator,
            r.key_to_hash == self.key_to_hash,
            r.coster == self.coster,
            r.callback == self.callback,
            r.hasher == self.hasher,
    {
        AsyncCacheBuilder {
            settings: self.settings,
            key_to_hash: self.key_to_hash,
            coster: self.coster,
            update_validator,
            callback: self.callback,
            hasher: self.hasher,
            marker: PhantomData,
        }
    }

    /// Sets what is told of what leaves the cache.
    pub fn set_callback<NCB>(self, callback: NCB) -> (r: AsyncCacheBuilder<K, V, KH, C, U, NCB, S>)
        ensures
            r.settings == self.settings,
            r.callback == callback,
            r.key_to_hash == self.key_to_hash,
            r.coster == self.coster,
            r.update_validator == self.update_validator,
            r.hasher == self.hasher,
    {
        AsyncCacheBuilder {
            settings: self.settings,
            key_to_hash: self.key_to_hash,
            coster: self.coster,
            update_validator: self.update_validator,
            callback,
            hasher: self.hasher,
            marker: PhantomData,
        }
    }

    /// Sets the hasher of the tables inside the cache.
    pub fn set_hasher<NS>(self, hasher: NS) -> (r: AsyncCacheBuilder<K, V, KH, C, U, CB, NS>)
        ensures
            r.settings == self.settings,
            r.hasher == hasher,
            r.key_to_hash == self.key_to_hash,
            r.coster == self.coster,
            r.update_validator == self.update_validator,
            r.callback == self.callback,
    {
        AsyncCacheBuilder {
            settings: self.settings,
            key_to_hash: self.key_to_hash,
            coster: self.coster,
            update_validator: self.update_validator,
            callback: self.callback,
            hasher,
            marker: PhantomData,
        }
    }
}

/// A new cache, its working task, and how many messages the buffer between them
/// is to take.
#[verifier::reject_recursive_types(V)]
#[verifier::reject_recursive_types(S)]
pub struct Built<K, V, KH, C, U, CB, S> {
    pub cache: AsyncCache<K, V, KH, C, U, CB, S>,
    pub processor: CacheProcessor<S>,
    pub insert_buffer_size: usize,
}

impl<K, V, KH, C, U, CB, S> AsyncCacheBuilder<K, V, KH, C, U, CB, S> where
    K: Hash + Eq,
    V: Send + Sync + 'static,
    KH: KeyBuilder<K>,
    C: Coster<V>,
    U: UpdateValidator<V>,
    S: BuildHasher + Clone + 'static + Send,
 {
    /// Builds the cache, unless a setting is invalid.
    pub fn finalize(self) -> (r: Result<Built<K, V, KH, C, U, CB, S>, CacheError>)
        requires
            vstd::std_specs::hash::builds_valid_hashers::<S>(),
        ensures
            match refusal(self.settings) {
                Some(e) => r == Err::<Built<K, V, KH, C, U, CB, S>, CacheError>(e),
                None => {
                    &&& r matches Ok(built)
                    &&& built.cache.wf()
                    &&& !built.cache.is_closed
                    &&& built.cache.shared@ == (SharedView::<V> {
                        store: Map::empty(),
                        costs: Map::empty(),
                        max_cost: self.settings.max_cost,
                        counting: self.settings.metrics,
                        dropped: crate::metrics::zeros(),
                    })
                    &&& built.cache.shared.counters() == self.settings.num_counters
                    &&& built.cache.shared.collecting() == self.settings.metrics
                    &&& built.cache.shared.validator() == self.update_validator
                    &&& call_ensures(
                        S::clone,
                        (&self.hasher,),
                        built.cache.shared.hash_builder(),
                    )
                    &&& built.cache.key_to_hash == self.key_to_hash
                    &&& built.cache.coster == self.coster
                    &&& built.cache.callback == self.callback
                    &&& built.processor.wf()
                    &&& built.processor@ == (ProcessorView {
                        start_ts: Map::empty(),
                        num_to_keep: NUM_TO_KEEP as nat,
                        ignore_internal_cost: self.settings.ignore_internal_cost,
                        item_size: vstd::layout::size_of::<StoreItem<V>>(),
                        cleanup_duration: self.settings.cleanup_duration,
                    })
                    &&& built.insert_buffer_size == self.settings.insert_buffer_size
                },
            },
    {
        let num_counters: usize = self.settings.num_counters;
        if num_counters == 0 {
            return Err(CacheError::InvalidNumCounters);
        }
        let max_cost: i64 = self.settings.max_cost;
        if max_cost == 0 {
            return Err(CacheError::InvalidMaxCost);
        }
        let insert_buffer_size: usize = self.settings.insert_buffer_size;
        if insert_buffer_size == 0 {
            return Err(CacheError::InvalidBufferSize);
        }
        let store = ShardedMap::with_validator_and_hasher(
            self.update_validator,
            self.hasher.clone(),
        );
        let mut policy = AsyncLFUPolicy::with_hasher(num_counters, max_cost, self.hasher);
        let metrics = if self.settings.metrics {
            policy.collect_metrics();
            Metrics::new_op()
        } else {
            Metrics::new()
        };
        let shared = Shared::new(store, policy, metrics);
        let processor = CacheProcessor::new(
            NUM_TO_KEEP,
            self.settings.ignore_internal_cost,
            self.settings.cleanup_duration,
            &shared,
        );
        let cache = AsyncCache::new(shared, self.callback, self.key_to_hash, self.coster);
        Ok(Built { cache, processor, insert_buffer_size })
    }
}

} // verus!
