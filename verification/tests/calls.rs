use std::collections::hash_map::RandomState;
use stretto::builder::AsyncCacheBuilder;
use stretto::cache::{AsyncCache, CloseEvent, CloseStep, InsertStep, InsertTicket, RemoveStep};
use stretto::error::CacheError;
use stretto::item::{Item, Notice};
use stretto::metrics::MetricType;
use stretto::policy::Ranking;
use stretto::processor::CacheProcessor;
use stretto::traits::{
    DefaultCacheCallback, DefaultCoster, DefaultUpdateValidator, TransparentKeyBuilder,
};
use stretto::ttl::Time;

type Cache = AsyncCache<
    u64,
    u64,
    TransparentKeyBuilder,
    DefaultCoster<u64>,
    DefaultUpdateValidator<u64>,
    DefaultCacheCallback<u64>,
    RandomState,
>;

fn open() -> (Cache, CacheProcessor<RandomState>) {
    let built = AsyncCacheBuilder::new_with_key_builder(100, 100, TransparentKeyBuilder)
        .set_ignore_internal_cost(true)
        .set_metrics(true)
        .finalize()
        .unwrap();
    (built.cache, built.processor)
}

fn nobody() -> Ranking {
    Ranking { incoming_hits: 0, candidates: Vec::new() }
}

fn parts(step: InsertStep<u64, u8>) -> (Item<u64, u8>, InsertTicket, Option<u64>) {
    match step {
        InsertStep::Send { item, ticket, exit } => (item, ticket, exit),
        InsertStep::Unsent { .. } => panic!("unsent"),
        InsertStep::Dropped => panic!("dropped"),
    }
}

fn put(c: &mut Cache, p: &mut CacheProcessor<RandomState>, k: u64, v: u64, ttl: u128, now: u128) {
    let (item, ticket, _) = parts(c.insert_with_ttl(k, v, 1, ttl, true, now));
    assert!(c.finish_insert(ticket, true));
    let r = p.handle_item(&mut c.shared, item, &nobody(), now);
    assert!(r.release.is_none());
}

#[test]
fn insert_of_an_absent_key_travels() {
    let (mut c, _) = open();
    let (item, ticket, exit) = parts(c.insert(7, 70, 3, true, 1000));
    assert!(matches!(
        item,
        Item::New { key: 7, conflict: 0, cost: 3, value: 70, expiration: Time { created_at: 1000, ttl: 0 } }
    ));
    assert_eq!(ticket, InsertTicket { index: 7, is_update: false });
    assert_eq!(exit, None);
    assert_eq!(c.get(&7, 1000), None);
}

#[test]
fn insert_is_insert_with_zero_ttl() {
    let (mut a, _) = open();
    let (mut b, _) = open();
    let (x, _, _) = parts(a.insert(7, 70, 3, true, 1000));
    let (y, _, _) = parts(b.insert_with_ttl(7, 70, 3, 0, true, 1000));
    match (x, y) {
        (Item::New { expiration: s, .. }, Item::New { expiration: t, .. }) => {
            assert_eq!(s, t);
            assert!(s.is_zero());
            assert!(!s.is_expired(u128::MAX));
        }
        _ => panic!("not new"),
    }
}

#[test]
fn try_versions_agree() {
    let (mut c, _) = open();
    let (item, _, _) = parts(c.try_insert(1, 10, 2, true, 5).unwrap());
    assert!(matches!(item, Item::New { key: 1, cost: 2, value: 10, .. }));
    let (item, _, _) = parts(c.try_insert_with_ttl(1, 10, 2, 9, true, 5).unwrap());
    assert!(matches!(item, Item::New { expiration: Time { created_at: 5, ttl: 9 }, .. }));
    assert!(matches!(c.try_insert_if_present::<u8>(1, 10, 2, true, 5), Ok(InsertStep::Dropped)));
}

#[test]
fn insert_of_a_present_key_is_visible_at_once() {
    let (mut c, mut p) = open();
    put(&mut c, &mut p, 7, 70, 0, 0);
    let (item, ticket, exit) = parts(c.insert(7, 71, 5, true, 1));
    assert!(item.is_update());
    assert!(matches!(item, Item::Update { key: 7, cost: 5, external_cost: 0 }));
    assert_eq!(exit, Some(70));
    assert_eq!(c.get(&7, 1), Some(&71));
    assert!(c.finish_insert(ticket, false));
    assert_eq!(c.shared.metrics().get(MetricType::DropSets), 0);
    p.handle_item(&mut c.shared, item, &nobody(), 1);
    assert_eq!(c.shared.policy().charge(7), Some(5));
}

#[test]
fn dropped_inserts_answer_false_and_are_counted() {
    let (mut c, _) = open();
    let (item, ticket, _) = parts(c.insert(7, 70, 3, true, 0));
    assert!(!item.is_update());
    assert!(!c.finish_insert(ticket, false));
    assert_eq!(c.shared.metrics().get(MetricType::DropSets), 1);
    assert_eq!(c.shared.metrics().get_under(MetricType::DropSets, 7), 1);
    assert_eq!(c.shared.metrics().get_under(MetricType::DropSets, 8), 0);
    assert_eq!(c.get(&7, 0), None);
    assert_eq!(c.shared.policy().used(), 0);
    let (_, ticket, _) = parts(c.insert(7, 70, 3, true, 0));
    assert!(c.finish_insert(ticket, true));
    assert_eq!(c.shared.metrics().get(MetricType::DropSets), 1);
}

#[test]
fn insert_if_present_never_adds() {
    let (mut c, mut p) = open();
    assert!(matches!(c.insert_if_present::<u8>(7, 70, 3, true, 0), InsertStep::Dropped));
    assert_eq!(c.shared.store().len(), 0);
    put(&mut c, &mut p, 7, 70, 0, 0);
    let (item, _, exit) = parts(c.insert_if_present(7, 71, 3, true, 0));
    assert!(item.is_update());
    assert_eq!(exit, Some(70));
    assert_eq!(c.get(&7, 0), Some(&71));
}

#[test]
fn conflicting_keys_do_not_touch_each_other() {
    let (mut c, mut p) = open();
    let time = Time::new(0, 0);
    let (item, _, _) = parts(c.insert_hashed((1, 5), 10, 1, 0, false, time, false, true));
    p.handle_item(&mut c.shared, item, &nobody(), 0);
    let (item, ticket, exit) = parts(c.insert_hashed((1, 6), 20, 1, 0, true, time, false, true));
    assert!(!ticket.is_update);
    assert_eq!(exit, None);
    let r = p.handle_item(&mut c.shared, item, &nobody(), 0);
    assert!(matches!(r.notices[0], Notice::Reject(_)));
    assert_eq!(c.shared.store().get(1, 5, 0), Some(&10));
    assert_eq!(c.shared.store().get(1, 6, 0), None);
    match c.remove_hashed::<u8>((1, 6)) {
        RemoveStep::Send { item, exit } => {
            assert_eq!(exit, None);
            p.handle_item(&mut c.shared, item, &nobody(), 0);
        }
        RemoveStep::Done => panic!("done"),
    }
    assert_eq!(c.shared.store().get(1, 5, 0), Some(&10));
    assert_eq!(c.shared.policy().charge(1), Some(1));
    assert_eq!(c.shared.store().get(1, 0, 0), Some(&10));
}

#[test]
fn removal_is_immediate_and_follows_pending_sets() {
    let (mut c, mut p) = open();
    put(&mut c, &mut p, 7, 70, 0, 0);
    let (pending, _, _) = parts(c.insert(8, 80, 1, true, 0));
    match c.remove::<u8>(&7) {
        RemoveStep::Send { item, exit } => {
            assert!(matches!(item, Item::Delete { key: 7, conflict: 0 }));
            assert_eq!(exit, Some(70));
            assert_eq!(c.get(&7, 0), None);
            assert_eq!(c.shared.policy().charge(7), Some(1));
            let r = p.handle_item(&mut c.shared, item, &nobody(), 0);
            assert!(r.notices.is_empty());
            assert_eq!(c.shared.policy().charge(7), None);
        }
        RemoveStep::Done => panic!("done"),
    }
    let delete = match c.try_remove::<u8>(&8).unwrap() {
        RemoveStep::Send { item, exit } => {
            assert_eq!(exit, None);
            item
        }
        RemoveStep::Done => panic!("done"),
    };
    p.handle_item(&mut c.shared, pending, &nobody(), 0);
    assert_eq!(c.get(&8, 0), Some(&80));
    let r = p.handle_item(&mut c.shared, delete, &nobody(), 0);
    assert!(matches!(r.notices[0], Notice::Exit(80)));
    assert_eq!(c.get(&8, 0), None);
    assert_eq!(c.shared.policy().used(), 0);
}

#[test]
fn wait_sends_the_waiter() {
    let (c, _) = open();
    assert!(matches!(c.wait(9u8), Some(Item::Wait(9))));
    assert_eq!(c.wait_sent(Ok(())), Ok(()));
    assert_eq!(
        c.wait_sent(Err("channel closed".to_string())),
        Err(CacheError::SendError("cache set buf sender: channel closed".to_string()))
    );
}

#[test]
fn ttl_bounds_what_is_seen() {
    let (mut c, mut p) = open();
    put(&mut c, &mut p, 7, 70, 10, 100);
    assert_eq!(c.get(&7, 100), Some(&70));
    assert_eq!(c.get(&7, 109), Some(&70));
    assert_eq!(c.get(&7, 110), None);
}

#[test]
fn closing_goes_step_by_step() {
    let (mut c, mut p) = open();
    put(&mut c, &mut p, 7, 70, 0, 0);
    assert!(matches!(c.close(CloseEvent::Start), Ok(CloseStep::AskClear)));
    assert_eq!(c.shared.store().len(), 1);
    assert!(matches!(c.close(CloseEvent::ClearAsked(Ok(()))), Ok(CloseStep::SendStop)));
    assert_eq!(c.shared.store().len(), 0);
    assert_eq!(c.shared.policy().used(), 0);
    assert!(matches!(c.close(CloseEvent::StopSent(Ok(()))), Ok(CloseStep::ClosePolicy)));
    assert!(!c.is_closed);
    assert!(matches!(c.close(CloseEvent::PolicyClosed(Ok(()))), Ok(CloseStep::Done)));
    assert!(c.is_closed);
    assert!(matches!(c.close(CloseEvent::Start), Ok(CloseStep::Done)));
}

#[test]
fn failed_closing_leaves_the_cache_open() {
    let (mut c, mut p) = open();
    put(&mut c, &mut p, 7, 70, 0, 0);
    let e = c.close(CloseEvent::ClearAsked(Err(CacheError::SendError("x".to_string()))));
    assert_eq!(e.err(), Some(CacheError::SendError("x".to_string())));
    assert_eq!(c.get(&7, 0), Some(&70));
    let e = c.close(CloseEvent::StopSent(Err("channel closed".to_string())));
    assert_eq!(
        e.err(),
        Some(CacheError::SendError(
            "fail to send stop signal to working thread, channel closed".to_string()
        ))
    );
    let e = c.close(CloseEvent::PolicyClosed(Err(CacheError::RecvError("y".to_string()))));
    assert_eq!(e.err(), Some(CacheError::RecvError("y".to_string())));
    assert!(!c.is_closed);
}

#[test]
fn a_closed_cache_does_nothing() {
    let (mut c, mut p) = open();
    put(&mut c, &mut p, 7, 70, 0, 0);
    assert!(c.close(CloseEvent::PolicyClosed(Ok(()))).is_ok());
    assert!(matches!(c.insert::<u8>(7, 71, 1, true, 0), InsertStep::Dropped));
    assert!(matches!(c.try_insert::<u8>(8, 71, 1, true, 0), Ok(InsertStep::Dropped)));
    assert!(matches!(c.insert_if_present::<u8>(7, 71, 1, true, 0), InsertStep::Dropped));
    assert!(matches!(c.try_remove::<u8>(&7), Ok(RemoveStep::Done)));
    assert!(matches!(c.remove::<u8>(&7), RemoveStep::Done));
    assert!(c.wait(1u8).is_none());
    assert_eq!(c.get(&7, 0), None);
    assert_eq!(c.shared.store().get(7, 0, 0), Some(&70));
}

#[test]
fn dropped_inserts_are_counted_under_their_index() {
    let (mut c, _) = open();
    for k in [7u64, 7 + 256, 9] {
        let (_, ticket, _) = parts(c.insert(k, 70, 3, true, 0));
        assert_eq!(ticket.index, k);
        assert!(!c.finish_insert(ticket, false));
    }
    let m = c.shared.metrics();
    assert_eq!(m.get_under(MetricType::DropSets, 7), 2);
    assert_eq!(m.get_under(MetricType::DropSets, 9), 1);
    assert_eq!(m.get_under(MetricType::DropSets, 8), 0);
    assert_eq!(m.get(MetricType::DropSets), 3);
}

#[test]
fn without_room_nothing_is_sent() {
    let (mut c, mut p) = open();
    match c.insert::<u8>(7, 70, 3, false, 0) {
        InsertStep::Unsent { ticket, exit } => {
            assert_eq!(ticket, InsertTicket { index: 7, is_update: false });
            assert_eq!(exit, None);
            assert!(!c.finish_insert(ticket, false));
        }
        _ => panic!("not unsent"),
    }
    assert_eq!(c.shared.metrics().get_under(MetricType::DropSets, 7), 1);
    assert_eq!(c.shared.store().len(), 0);
    put(&mut c, &mut p, 7, 70, 0, 0);
    match c.insert::<u8>(7, 71, 3, false, 0) {
        InsertStep::Unsent { ticket, exit } => {
            assert_eq!(ticket, InsertTicket { index: 7, is_update: true });
            assert_eq!(exit, Some(70));
            assert!(c.finish_insert(ticket, false));
        }
        _ => panic!("not unsent"),
    }
    assert_eq!(c.get(&7, 0), Some(&71));
    assert_eq!(c.get_hashed((7, 0), 0), Some(&71));
    assert_eq!(c.shared.policy().charge(7), Some(1));
    assert_eq!(c.shared.metrics().get(MetricType::DropSets), 1);
    assert!(matches!(c.insert_if_present::<u8>(9, 90, 3, false, 0), InsertStep::Dropped));
}

#[test]
fn a_closed_cache_does_nothing_under_hashes_either() {
    let (mut c, mut p) = open();
    put(&mut c, &mut p, 7, 70, 0, 0);
    assert!(matches!(c.close(CloseEvent::PolicyClosed(Ok(()))), Ok(CloseStep::Done)));
    let time = Time::new(0, 0);
    let step = c.insert_hashed::<u8>((7, 0), 71, 1, 0, true, time, false, true);
    assert!(matches!(step, InsertStep::Dropped));
    assert!(matches!(c.remove_hashed::<u8>((7, 0)), RemoveStep::Done));
    assert_eq!(c.get_hashed((7, 0), 0), None);
    assert_eq!(c.shared.store().get(7, 0, 0), Some(&70));
}

#[test]
fn an_unsent_clear_signal_is_an_error() {
    let (c, _) = open();
    assert_eq!(c.clear_sent(Ok(())), Ok(()));
    assert_eq!(
        c.clear_sent(Err("channel closed".to_string())),
        Err(CacheError::SendError(
            "fail to send clear signal to working thread, channel closed".to_string()
        ))
    );
}

#[test]
fn an_absent_key_is_brought_by_a_message_only() {
    let (mut c, mut p) = open();
    put(&mut c, &mut p, 7, 70, 0, 0);
    let delete = match c.remove::<u8>(&7) {
        RemoveStep::Send { item, .. } => item,
        RemoveStep::Done => panic!("done"),
    };
    p.handle_item(&mut c.shared, delete, &nobody(), 0);
    let (item, _, _) = parts(c.insert(7, 71, 1, true, 0));
    assert!(matches!(c.insert_if_present::<u8>(7, 72, 1, true, 0), InsertStep::Dropped));
    assert!(p.handle_cleanup_event(&mut c.shared, 5).unwrap().is_empty());
    assert_eq!(c.get(&7, 5), None);
    p.handle_item(&mut c.shared, item, &nobody(), 5);
    assert_eq!(c.get(&7, 5), Some(&71));
}
