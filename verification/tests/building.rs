use std::collections::hash_map::DefaultHasher;
use std::hash::BuildHasher;
use std::sync::atomic::{AtomicUsize, Ordering};
use std::sync::Arc;
use stretto::builder::{AsyncCacheBuilder, NUM_TO_KEEP};
use stretto::cache::InsertStep;
use stretto::error::CacheError;
use stretto::metrics::MetricType;
use stretto::policy::Ranking;
use stretto::traits::{Coster, TransparentKeyBuilder, UpdateValidator};

fn nobody() -> Ranking {
    Ranking { incoming_hits: 0, candidates: Vec::new() }
}

#[test]
fn zero_counters_are_refused_first() {
    let r = AsyncCacheBuilder::<u64, u64>::new(0, 0).set_buffer_size(0).finalize();
    assert_eq!(r.err(), Some(CacheError::InvalidNumCounters));
}

#[test]
fn zero_max_cost_is_refused_second() {
    let r = AsyncCacheBuilder::<u64, u64>::new(100, 0).set_buffer_size(0).finalize();
    assert_eq!(r.err(), Some(CacheError::InvalidMaxCost));
}

#[test]
fn zero_buffer_is_refused_last() {
    let r = AsyncCacheBuilder::<u64, u64>::new(100, 10).set_buffer_size(0).finalize();
    assert_eq!(r.err(), Some(CacheError::InvalidBufferSize));
}

#[test]
fn negative_max_cost_is_taken() {
    let built = AsyncCacheBuilder::<u64, u64>::new(100, -1).finalize().unwrap();
    assert_eq!(built.cache.shared.policy().max_cost(), -1);
}

#[test]
fn defaults() {
    let b = AsyncCacheBuilder::<String, u64>::new(1000, 100);
    assert_eq!(b.settings.insert_buffer_size, 32 * 1024);
    assert_eq!(b.settings.cleanup_duration, 500 * 1_000_000);
    assert!(!b.settings.metrics);
    assert!(!b.settings.ignore_internal_cost);
    let built = b.finalize().unwrap();
    assert_eq!(built.insert_buffer_size, 32 * 1024);
    assert_eq!(built.processor.cleanup_duration(), 500_000_000);
    assert_eq!(built.cache.shared.policy().num_counters(), 1000);
    assert_eq!(built.cache.shared.policy().max_cost(), 100);
    assert_eq!(built.cache.shared.policy().used(), 0);
    assert_eq!(built.cache.shared.store().len(), 0);
    assert!(!built.cache.shared.metrics().is_op());
    assert!(!built.cache.shared.policy().collects_metrics());
    assert!(!built.cache.is_closed);
    assert_eq!(NUM_TO_KEEP, 100000);
}

#[test]
fn setters_keep_the_rest() {
    let b = AsyncCacheBuilder::<u64, u64>::new(1, 2)
        .set_num_counters(3)
        .set_max_cost(4)
        .set_buffer_size(5)
        .set_metrics(true)
        .set_ignore_internal_cost(true)
        .set_cleanup_duration(6)
        .set_key_builder(TransparentKeyBuilder)
        .set_callback("callback");
    assert_eq!(b.settings.num_counters, 3);
    assert_eq!(b.settings.max_cost, 4);
    assert_eq!(b.settings.insert_buffer_size, 5);
    assert!(b.settings.metrics);
    assert!(b.settings.ignore_internal_cost);
    assert_eq!(b.settings.cleanup_duration, 6);
    let built = b.finalize().unwrap();
    assert_eq!(built.cache.callback, "callback");
    assert_eq!(built.insert_buffer_size, 5);
    assert!(built.cache.shared.metrics().is_op());
    assert!(built.cache.shared.policy().collects_metrics());
    assert_eq!(built.cache.shared.metrics().get(MetricType::DropSets), 0);
}

#[derive(Clone)]
struct CountingHasher(Arc<AtomicUsize>);

impl BuildHasher for CountingHasher {
    type Hasher = DefaultHasher;
    fn build_hasher(&self) -> DefaultHasher {
        self.0.fetch_add(1, Ordering::SeqCst);
        DefaultHasher::new()
    }
}

#[test]
fn the_tables_use_the_given_hasher() {
    let n = Arc::new(AtomicUsize::new(0));
    let built = AsyncCacheBuilder::<u64, u64>::new(10, 10)
        .set_key_builder(TransparentKeyBuilder)
        .set_ignore_internal_cost(true)
        .set_hasher(CountingHasher(n.clone()))
        .finalize()
        .unwrap();
    let mut cache = built.cache;
    let mut processor = built.processor;
    let step: InsertStep<u64, ()> = cache.insert(1, 11, 1, true, 0);
    if let InsertStep::Send { item, .. } = step {
        processor.handle_item(&mut cache.shared, item, &nobody(), 0);
    }
    assert_eq!(cache.get(&1, 0), Some(&11));
    assert!(n.load(Ordering::SeqCst) > 0);
}

#[test]
fn default_keys_are_found_again() {
    let built = AsyncCacheBuilder::<String, u64>::new(10, 10)
        .set_ignore_internal_cost(true)
        .finalize()
        .unwrap();
    let mut cache = built.cache;
    let mut processor = built.processor;
    for (k, v) in [("a", 1u64), ("b", 2)] {
        let step: InsertStep<u64, ()> = cache.insert(k.to_string(), v, 1, true, 0);
        if let InsertStep::Send { item, .. } = step {
            processor.handle_item(&mut cache.shared, item, &nobody(), 0);
        }
    }
    assert_eq!(cache.get(&"a".to_string(), 0), Some(&1));
    assert_eq!(cache.get(&"b".to_string(), 0), Some(&2));
    assert_eq!(cache.get(&"c".to_string(), 0), None);
}

struct Length;

impl Coster<String> for Length {
    fn cost(&self, val: &String) -> i64 {
        val.len() as i64
    }
}

struct Longer;

impl UpdateValidator<String> for Longer {
    fn should_update(&self, prev: &String, curr: &String) -> bool {
        curr.len() > prev.len()
    }
}

#[test]
fn coster_and_validator_are_asked() {
    let built = AsyncCacheBuilder::<u64, String>::new(10, 100)
        .set_key_builder(TransparentKeyBuilder)
        .set_ignore_internal_cost(true)
        .set_coster(Length)
        .set_update_validator(Longer)
        .finalize()
        .unwrap();
    let mut cache = built.cache;
    let mut processor = built.processor;
    for (v, seen, charge) in [("four", "four", 4i64), ("longer", "longer", 6), ("no", "longer", 2)] {
        let step: InsertStep<String, ()> = cache.insert(1, v.to_string(), 0, true, 0);
        if let InsertStep::Send { item, .. } = step {
            processor.handle_item(&mut cache.shared, item, &nobody(), 0);
        }
        assert_eq!(cache.get(&1, 0), Some(&seen.to_string()));
        assert_eq!(cache.shared.policy().charge(1), Some(charge));
    }
}

struct CountingCoster(Arc<AtomicUsize>);

impl Coster<u64> for CountingCoster {
    fn cost(&self, _val: &u64) -> i64 {
        self.0.fetch_add(1, Ordering::SeqCst);
        3
    }
}

#[test]
fn the_coster_is_not_asked_about_dropped_inserts() {
    let n = Arc::new(AtomicUsize::new(0));
    let built = AsyncCacheBuilder::<u64, u64>::new(10, 100)
        .set_key_builder(TransparentKeyBuilder)
        .set_ignore_internal_cost(true)
        .set_coster(CountingCoster(n.clone()))
        .finalize()
        .unwrap();
    let mut cache = built.cache;
    let mut processor = built.processor;
    assert!(matches!(cache.insert_if_present::<()>(1, 10, 0, true, 0), InsertStep::Dropped));
    assert_eq!(n.load(Ordering::SeqCst), 0);
    if let InsertStep::Send { item, .. } = cache.insert::<()>(1, 10, 0, true, 0) {
        processor.handle_item(&mut cache.shared, item, &nobody(), 0);
    }
    assert_eq!(n.load(Ordering::SeqCst), 1);
    assert_eq!(cache.shared.policy().charge(1), Some(3));
    assert!(matches!(cache.insert_if_present::<()>(1, 11, 0, true, 0), InsertStep::Send { .. }));
    assert_eq!(n.load(Ordering::SeqCst), 2);
    assert!(matches!(cache.insert::<()>(2, 20, 5, true, 0), InsertStep::Send { .. }));
    assert_eq!(n.load(Ordering::SeqCst), 2);
    assert!(matches!(cache.insert::<()>(3, 30, 0, false, 0), InsertStep::Unsent { .. }));
    assert!(matches!(cache.insert::<()>(1, 12, 0, false, 0), InsertStep::Unsent { .. }));
    assert_eq!(n.load(Ordering::SeqCst), 2);
    assert!(matches!(cache.insert::<()>(3, 30, 0, true, 0), InsertStep::Send { .. }));
    assert_eq!(n.load(Ordering::SeqCst), 3);
}
