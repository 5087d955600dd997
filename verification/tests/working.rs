use std::collections::hash_map::RandomState;
use stretto::builder::AsyncCacheBuilder;
use stretto::error::CacheError;
use stretto::frequency::AccessCounters;
use stretto::item::{Item, Notice};
use stretto::policy::{AsyncLFUPolicy, Candidate, Ranking};
use stretto::processor::{CacheCleaner, CacheProcessor, CleanStep, Event, Reaction, Step};
use stretto::shared::Shared;
use stretto::store::{ShardedMap, StoreItem, UpdateResult};
use stretto::traits::{DefaultUpdateValidator, TransparentKeyBuilder};
use stretto::ttl::Time;

type State = Shared<u64, DefaultUpdateValidator<u64>, RandomState>;

fn start(max_cost: i64, free: bool) -> (State, CacheProcessor<RandomState>) {
    let built = AsyncCacheBuilder::<u64, u64>::new(1000, max_cost)
        .set_key_builder(TransparentKeyBuilder)
        .set_ignore_internal_cost(free)
        .set_metrics(true)
        .set_cleanup_duration(77)
        .finalize()
        .unwrap();
    (built.cache.shared, built.processor)
}

fn new(key: u64, cost: i64, value: u64, expiration: Time) -> Item<u64, u8> {
    Item::new(key, 0, cost, value, expiration)
}

fn ranking(incoming_hits: u64, list: &[(u64, u64)]) -> Ranking {
    let candidates = list.iter().map(|(key, hits)| Candidate { key: *key, hits: *hits }).collect();
    Ranking { incoming_hits, candidates }
}

fn forever() -> Time {
    Time::new(0, 0)
}

fn evicted(r: &Reaction<u64, u8>) -> Vec<(u64, u64, i64, Option<u128>)> {
    let mut out = Vec::new();
    for n in &r.notices {
        if let Notice::Evict { item, age } = n {
            out.push((item.key, item.val, item.cost, *age));
        }
    }
    out
}

#[test]
fn one_more_than_full_evicts_one() {
    let (mut s, mut p) = start(100, true);
    for k in 0..100u64 {
        let r = p.handle_item(&mut s, new(k, 1, k, forever()), &ranking(0, &[]), 5);
        assert!(r.notices.is_empty());
    }
    assert_eq!(s.policy().used(), 100);
    let r = p.handle_item(&mut s, new(100, 1, 1, forever()), &ranking(3, &[(4, 3), (5, 0)]), 9);
    assert_eq!(evicted(&r), vec![(4, 4, 1, Some(4))]);
    assert_eq!(r.notices.len(), 1);
    assert_eq!(s.policy().used(), 100);
    assert_eq!(s.store().get(100, 0, 9), Some(&1));
    assert_eq!(s.store().get(4, 0, 9), None);
    assert_eq!(s.store().len(), 100);
}

#[test]
fn a_large_item_evicts_several() {
    let (mut s, mut p) = start(1_000_000, true);
    for k in 0..1000u64 {
        p.handle_item(&mut s, new(k, 1000, k, forever()), &ranking(0, &[]), 0);
    }
    let list: Vec<(u64, u64)> = (0..1000u64).map(|k| (k, 0)).collect();
    let r = p.handle_item(&mut s, new(5000, 5000, 0, forever()), &ranking(0, &list), 0);
    assert_eq!(evicted(&r).len(), 5);
    assert_eq!(s.policy().used(), 1_000_000);
}

#[test]
fn wanted_candidates_stay_and_the_item_is_rejected() {
    let (mut s, mut p) = start(10, true);
    p.handle_item(&mut s, new(1, 5, 10, forever()), &ranking(0, &[]), 0);
    p.handle_item(&mut s, new(2, 5, 20, forever()), &ranking(0, &[]), 0);
    let r = p.handle_item(&mut s, new(3, 7, 30, forever()), &ranking(4, &[(9, 9), (1, 4), (2, 5)]), 2);
    assert_eq!(r.notices.len(), 2);
    match &r.notices[0] {
        Notice::Reject(item) => assert_eq!((item.key, item.val, item.cost), (3, 30, 7)),
        _ => panic!("not rejected"),
    }
    assert_eq!(evicted(&r), vec![(1, 10, 5, Some(2))]);
    assert_eq!(s.store().get(3, 0, 0), None);
    assert_eq!(s.store().get(2, 0, 0), Some(&20));
    assert_eq!(s.policy().used(), 5);
}

#[test]
fn too_costly_items_evict_nobody() {
    let (mut s, mut p) = start(10, true);
    p.handle_item(&mut s, new(1, 10, 10, forever()), &ranking(0, &[]), 0);
    let r = p.handle_item(&mut s, new(2, 11, 20, forever()), &ranking(9, &[(1, 0)]), 0);
    assert_eq!(r.notices.len(), 1);
    assert!(matches!(r.notices[0], Notice::Reject(_)));
    assert_eq!(s.store().get(1, 0, 0), Some(&10));
}

#[test]
fn a_charged_key_is_only_charged_anew() {
    let (mut s, mut p) = start(10, true);
    p.handle_item(&mut s, new(1, 2, 10, forever()), &ranking(0, &[]), 0);
    let r = p.handle_item(&mut s, new(1, 3, 11, forever()), &ranking(0, &[]), 0);
    assert!(matches!(r.notices[0], Notice::Reject(_)));
    assert_eq!(s.policy().charge(1), Some(3));
    assert_eq!(s.store().get(1, 0, 0), Some(&10));
}

#[test]
fn storage_is_charged_unless_free() {
    let (mut s, mut p) = start(10_000, false);
    let size = std::mem::size_of::<StoreItem<u64>>() as i64;
    assert_eq!(s.store().item_size() as i64, size);
    p.handle_item(&mut s, new(1, 2, 10, forever()), &ranking(0, &[]), 0);
    assert_eq!(s.policy().charge(1), Some(2 + size));
    p.handle_item(&mut s, Item::<u64, u8>::update(1, 3, 4), &ranking(0, &[]), 0);
    assert_eq!(s.policy().charge(1), Some(7 + size));
    p.handle_item(&mut s, Item::<u64, u8>::update(1, i64::MAX, 4), &ranking(0, &[]), 0);
    assert_eq!(s.policy().charge(1), Some(i64::MAX));
    assert_eq!(s.policy().used(), i64::MAX as i128);
}

#[test]
fn an_update_of_an_unknown_key_changes_nothing() {
    let (mut s, mut p) = start(10, true);
    let r = p.handle_item(&mut s, Item::<u64, u8>::update(1, 3, 4), &ranking(0, &[]), 0);
    assert!(r.notices.is_empty());
    assert_eq!(s.policy().charge(1), None);
}

#[test]
fn a_set_followed_by_a_delete_is_gone() {
    let (mut s, mut p) = start(10, true);
    p.handle_item(&mut s, new(1, 2, 10, forever()), &ranking(0, &[]), 0);
    let r = p.handle_item(&mut s, Item::<u64, u8>::delete(1, 0), &ranking(0, &[]), 0);
    assert!(matches!(r.notices[0], Notice::Exit(10)));
    assert_eq!(s.store().get(1, 0, 0), None);
    assert_eq!(s.policy().used(), 0);
}

#[test]
fn only_a_wait_wakes() {
    let (mut s, mut p) = start(10, true);
    let r = p.handle_item(&mut s, Item::<u64, u8>::Wait(42), &ranking(0, &[]), 0);
    assert_eq!(r.release, Some(42));
    assert!(r.notices.is_empty());
}

#[test]
fn events_lead_to_steps() {
    let (mut s, mut p) = start(10, true);
    let none = ranking(0, &[]);
    let r = p.step(&mut s, Event::Received(Some(new(1, 1, 10, forever()))), &none, 0);
    assert!(matches!(r, Ok(Step::Handled(_))));
    assert_eq!(s.store().get(1, 0, 0), Some(&10));
    let r = p.step(&mut s, Event::<u64, u8>::Received(None), &none, 0);
    assert_eq!(
        r.err(),
        Some(CacheError::RecvError("fail to receive msg from insert buffer".to_string()))
    );
    assert!(matches!(p.step(&mut s, Event::<u64, u8>::Clear(Some(())), &none, 0), Ok(Step::Clean)));
    assert!(matches!(p.step(&mut s, Event::<u64, u8>::Clear(None), &none, 0), Ok(Step::Pass)));
    assert!(matches!(p.step(&mut s, Event::<u64, u8>::Stop, &none, 0), Ok(Step::Stopped)));
    assert_eq!(s.store().get(1, 0, 0), Some(&10));
}

#[test]
fn a_tick_takes_out_what_expired() {
    let (mut s, mut p) = start(100, true);
    let none = ranking(0, &[]);
    for (k, ttl) in [(1u64, 10u128), (2, 20), (3, 0), (4, 10)] {
        p.handle_item(&mut s, new(k, 2, k * 10, Time::new(100, ttl)), &none, 103);
    }
    match p.step(&mut s, Event::<u64, u8>::Tick, &none, 110) {
        Ok(Step::Swept { notices, next_tick }) => {
            assert_eq!(next_tick, 77);
            let mut got = evicted(&Reaction { notices, release: None });
            got.sort();
            assert_eq!(got, vec![(1, 10, 2, Some(7)), (4, 40, 2, Some(7))]);
        }
        _ => panic!("not swept"),
    }
    assert_eq!(s.store().len(), 2);
    assert_eq!(s.policy().used(), 4);
    assert_eq!(s.store().get(2, 0, 110), Some(&20));
    assert_eq!(s.store().get(3, 0, u128::MAX), Some(&30));
    assert!(p.handle_cleanup_event(&mut s, 110).unwrap().is_empty());
    assert_eq!(p.handle_cleanup_event(&mut s, 120).unwrap().len(), 1);
}

#[test]
fn a_new_admission_is_recorded_anew() {
    let (mut s, mut p) = start(100, true);
    let none = ranking(0, &[]);
    p.handle_item(&mut s, new(1, 1, 10, forever()), &none, 5);
    p.handle_item(&mut s, Item::<u64, u8>::delete(1, 0), &none, 6);
    p.handle_item(&mut s, new(1, 1, 11, Time::new(0, 50)), &none, 30);
    let n = p.handle_cleanup_event(&mut s, 60).unwrap();
    assert_eq!(evicted(&Reaction { notices: n, release: None }), vec![(1, 11, 1, Some(30))]);
}

#[test]
fn clearing_out_wakes_and_evicts() {
    match CacheCleaner.clean(Some(new(1, 3, 10, forever()))) {
        CleanStep::Continue(r) => {
            assert_eq!(evicted(&r), vec![(1, 10, 3, None)]);
            assert!(r.release.is_none());
        }
        CleanStep::Done => panic!("done"),
    }
    match CacheCleaner.clean::<u64, u8>(Some(Item::Wait(5))) {
        CleanStep::Continue(r) => assert_eq!(r.release, Some(5)),
        CleanStep::Done => panic!("done"),
    }
    for item in [Item::<u64, u8>::update(1, 2, 3), Item::delete(1, 0)] {
        match CacheCleaner.clean(Some(item)) {
            CleanStep::Continue(r) => assert!(r.notices.is_empty() && r.release.is_none()),
            CleanStep::Done => panic!("done"),
        }
    }
    assert!(matches!(CacheCleaner.clean::<u64, u8>(None), CleanStep::Done));
}

#[test]
fn the_ledger_sums_up() {
    let mut l = AsyncLFUPolicy::with_hasher(10, i64::MAX, RandomState::new());
    assert!(l.add(1, -5, &ranking(0, &[])).added);
    assert!(l.add(2, 7, &ranking(0, &[])).added);
    assert_eq!(l.used(), 2);
    assert!(l.update(2, 8));
    assert!(!l.update(3, 8));
    assert_eq!(l.used(), 3);
    assert_eq!(l.remove(1), Some(-5));
    assert_eq!(l.remove(1), None);
    assert_eq!(l.used(), 8);
    l.clear();
    assert_eq!(l.used(), 0);
    assert_eq!(l.charge(2), None);
}

#[test]
fn the_store_updates_only_what_matches() {
    let mut t: ShardedMap<u64, DefaultUpdateValidator<u64>, RandomState> =
        ShardedMap::with_validator_and_hasher(DefaultUpdateValidator::new(), RandomState::new());
    let at = Time::new(3, 4);
    assert!(matches!(t.try_update(1, 10, 5, at, true), UpdateResult::NotExist(10)));
    t.insert(1, 10, 5, at);
    assert!(t.contains(1));
    assert!(t.allows(1, 5, &11));
    assert!(!t.allows(1, 6, &11));
    assert!(!t.allows(2, 5, &11));
    assert!(matches!(t.try_update(1, 11, 6, at, true), UpdateResult::Conflict(11)));
    assert!(matches!(t.try_update(1, 11, 5, at, false), UpdateResult::Reject(11)));
    assert!(matches!(t.try_update(1, 11, 5, at, true), UpdateResult::Update(10)));
    assert_eq!(t.get(1, 5, 3), Some(&11));
    assert!(t.remove(1, 6).is_none());
    assert_eq!(t.remove(1, 0).map(|e| e.value), Some(11));
    assert_eq!(t.len(), 0);
}

fn entry(key: u64, value: u64) -> StoreItem<u64> {
    StoreItem { key, conflict: key + 1, value, expiration: Time::new(1, 2) }
}

#[test]
fn expired_entries_leave_in_the_order_given() {
    let (mut s, mut p) = start(100, true);
    let none = ranking(0, &[]);
    for k in [3u64, 1, 2, 4] {
        p.handle_item(&mut s, new(k, k as i64, 10 * k, forever()), &none, 10 + k as u128);
    }
    let mut l = AsyncLFUPolicy::with_hasher(10, 100, RandomState::new());
    for k in [1u64, 2, 3, 4] {
        assert!(l.add(k, 5 * k as i64, &none).added);
    }
    let n = p.evict_expired(&mut l, vec![entry(3, 30), entry(1, 10), entry(2, 20)], 20);
    let got = evicted(&Reaction { notices: n, release: None });
    assert_eq!(got, vec![(3, 30, 15, Some(7)), (1, 10, 5, Some(9)), (2, 20, 10, Some(8))]);
    assert_eq!(l.used(), 20);
    assert_eq!(l.keys(), vec![4]);
    let n = p.evict_expired(&mut l, vec![entry(4, 40)], 15);
    assert_eq!(evicted(&Reaction { notices: n, release: None }), vec![(4, 40, 20, Some(1))]);
    assert!(l.keys().is_empty());
}

#[test]
fn a_failed_cleanup_tells_nothing() {
    let (_, mut p) = start(100, true);
    let mut l = AsyncLFUPolicy::with_hasher(10, 100, RandomState::new());
    assert!(l.add(1, 5, &ranking(0, &[])).added);
    let failed = CacheError::RecvError("gone".to_string());
    let r = p.handle_cleaned::<u64>(&mut l, Err(failed), 20);
    assert_eq!(r.err(), Some(CacheError::RecvError("gone".to_string())));
    assert_eq!(l.used(), 5);
    let n = p.handle_cleaned(&mut l, Ok(vec![entry(1, 10)]), 20).unwrap();
    assert_eq!(evicted(&Reaction { notices: n, release: None }), vec![(1, 10, 5, None)]);
    assert_eq!(l.used(), 0);
}

#[test]
fn a_removed_key_stays_gone_until_it_is_brought_again() {
    let (mut s, mut p) = start(10, true);
    let none = ranking(0, &[]);
    p.handle_item(&mut s, new(1, 1, 10, forever()), &none, 0);
    p.handle_item(&mut s, Item::<u64, u8>::delete(1, 0), &none, 0);
    p.handle_item(&mut s, Item::<u64, u8>::update(1, 2, 0), &none, 0);
    p.handle_item(&mut s, new(2, 1, 20, forever()), &none, 0);
    p.handle_item(&mut s, Item::<u64, u8>::Wait(5), &none, 0);
    assert_eq!(s.store().get(1, 0, 0), None);
    p.handle_item(&mut s, new(1, 1, 11, forever()), &none, 0);
    assert_eq!(s.store().get(1, 0, 0), Some(&11));
}

#[test]
fn the_ledger_lists_its_keys() {
    let mut l = AsyncLFUPolicy::with_hasher(10, 100, RandomState::new());
    for k in [9u64, 3, 6] {
        assert!(l.add(k, 1, &ranking(0, &[])).added);
    }
    let mut keys = l.keys();
    keys.sort();
    assert_eq!(keys, vec![3, 6, 9]);
}

#[test]
fn access_counters_fill_up_and_fade() {
    let mut f = AccessCounters::new(100);
    for _ in 0..20 {
        f.touch(7);
    }
    f.touch(8);
    assert_eq!(f.hits(7), 15);
    assert_eq!(f.hits(107), 15);
    assert_eq!(f.hits(8), 1);
    assert_eq!(f.hits(9), 0);
    for _ in 0..78 {
        f.touch(10);
    }
    assert_eq!((f.hits(7), f.hits(8), f.hits(10)), (15, 1, 15));
    f.touch(10);
    assert_eq!((f.hits(7), f.hits(8), f.hits(10)), (7, 0, 7));
}

#[test]
fn the_least_asked_for_leaves_first() {
    let (mut s, mut p) = start(3, true);
    let mut f = AccessCounters::new(1000);
    for (k, hits) in [(1u64, 3), (2, 1), (3, 2), (4, 2)] {
        for _ in 0..hits {
            f.touch(k);
        }
    }
    for k in [1u64, 2, 3] {
        let item = new(k, 1, k, forever());
        assert!(!p.wants_ranking(&s, &item));
        p.handle_item(&mut s, item, &ranking(0, &[]), 0);
    }
    let item = new(4, 1, 4, forever());
    assert!(p.wants_ranking(&s, &item));
    let r = f.rank(4, &s.policy().keys());
    assert_eq!(r.incoming_hits, 2);
    let order: Vec<(u64, u64)> = r.candidates.iter().map(|c| (c.key, c.hits)).collect();
    assert_eq!(order, vec![(2, 1), (3, 2), (1, 3)]);
    let reaction = p.handle_item(&mut s, item, &r, 0);
    assert_eq!(evicted(&reaction), vec![(2, 2, 1, Some(0))]);
    assert_eq!(s.store().get(4, 0, 0), Some(&4));
    let item = new(5, 1, 5, forever());
    let r = f.rank(5, &s.policy().keys());
    let reaction = p.handle_item(&mut s, item, &r, 0);
    assert!(matches!(reaction.notices[0], Notice::Reject(_)));
    assert_eq!(reaction.notices.len(), 1);
}

#[test]
fn rankings_are_wanted_only_where_room_is() {
    let (mut s, mut p) = start(3, true);
    p.handle_item(&mut s, new(1, 3, 1, forever()), &ranking(0, &[]), 0);
    assert!(p.wants_ranking(&s, &new(2, 1, 2, forever())));
    assert!(!p.wants_ranking(&s, &new(1, 1, 2, forever())));
    assert!(!p.wants_ranking(&s, &new(2, 4, 2, forever())));
    assert!(!p.wants_ranking(&s, &Item::<u64, u8>::update(2, 1, 0)));
    assert!(!p.wants_ranking(&s, &Item::<u64, u8>::delete(1, 0)));
    assert!(!p.wants_ranking(&s, &Item::<u64, u8>::Wait(1)));
}
