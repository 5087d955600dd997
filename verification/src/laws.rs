//! What holds of the cache as a whole.
//!
//! The laws in this file speak of the model: of messages, histories and what readers
//! see. Those in the modules below speak of the operations themselves, of what goes
//! into a call and what comes out of it: [`calls`] of the cache, [`task`] of its working
//! task, [`table`] and [`ledger`] of what they share, [`counters`] of what is counted,
//! and [`building`] of how it all comes about.

use std::hash::{BuildHasher, Hash};
use vstd::prelude::*;
use crate::cache::{AsyncCache, CloseEvent, InsertStep, RemoveStep};
use crate::frequency::CountersView;
use crate::item::{Item, Notice};
use crate::policy::{Candidate, PolicyPair, Ranking};
use crate::processor::ProcessorView;
use crate::shared::SharedView;
use crate::store::StoreItem;
use crate::traits::{Coster, DefaultUpdateValidator, KeyBuilder, UpdateValidator};
use crate::ttl::Time;

pub mod building;
pub mod calls;
pub mod counters;
pub mod ledger;
pub mod table;
pub mod task;

verus! {

// Admission and eviction

/// An item that is let in fits: the sum of all charges is then within the maximum.
pub proof fn admitted_fits(
    costs: Map<u64, i64>,
    max_cost: int,
    key: u64,
    cost: i64,
    hits: u64,
    candidates: Seq<Candidate>,
)
    requires
        costs.dom().finite(),
    ensures
        ({
            let a = crate::policy::admission(costs, max_cost, key, cost, hits, candidates);
            a.added ==> crate::policy::total(a.costs) <= max_cost
        }),
{
    let a = crate::policy::admission(costs, max_cost, key, cost, hits, candidates);
    if a.added {
        crate::policy::make_room_removes_victims(costs, max_cost, cost as int, hits, candidates);
        let ledger = crate::policy::make_room(costs, max_cost, cost as int, hits, candidates).0;
        assert(ledger.dom().subset_of(costs.dom()));
        vstd::set_lib::lemma_set_subset_finite(costs.dom(), ledger.dom());
        crate::policy::lemma_total_insert(ledger, key, cost);
    }
}

/// Nothing is evicted for an item that fits beside what is there, and it is let in.
pub proof fn room_needs_no_victims(
    costs: Map<u64, i64>,
    max_cost: int,
    key: u64,
    cost: i64,
    hits: u64,
    candidates: Seq<Candidate>,
)
    requires
        cost <= max_cost,
        !costs.contains_key(key),
        crate::policy::fits(costs, max_cost, cost as int),
    ensures
        ({
            let a = crate::policy::admission(costs, max_cost, key, cost, hits, candidates);
            a.added && a.victims == Seq::<PolicyPair>::empty() && a.costs == costs.insert(key, cost)
        }),
{
}

/// Every victim was charged what its notice says, was a candidate, and is asked
/// for no more often than the incoming key.
pub proof fn victims_are_less_wanted(
    costs: Map<u64, i64>,
    max_cost: int,
    cost: int,
    hits: u64,
    candidates: Seq<Candidate>,
    i: int,
)
    requires
        0 <= i < crate::policy::make_room(costs, max_cost, cost, hits, candidates).1.len(),
    ensures
        ({
            let v = crate::policy::make_room(costs, max_cost, cost, hits, candidates).1[i];
            &&& costs.contains_key(v.key)
            &&& costs[v.key] == v.cost
            &&& exists|j: int|
                0 <= j < candidates.len() && (#[trigger] candidates[j]).key == v.key
                    && candidates[j].hits <= hits
        }),
    decreases candidates.len(),
{
    let (ledger, victims) = crate::policy::make_room(costs, max_cost, cost, hits, candidates);
    let c = candidates.first();
    let rest = candidates.drop_first();
    assert(c == candidates[0]);
    if !costs.contains_key(c.key) {
        victims_are_less_wanted(costs, max_cost, cost, hits, rest, i);
        let j = choose|j: int|
            0 <= j < rest.len() && (#[trigger] rest[j]).key == victims[i].key && rest[j].hits
                <= hits;
        assert(candidates[j + 1] == rest[j]);
    } else {
        let later = crate::policy::make_room(costs.remove(c.key), max_cost, cost, hits, rest).1;
        if i > 0 {
            assert(victims[i] == later[i - 1]);
            victims_are_less_wanted(costs.remove(c.key), max_cost, cost, hits, rest, i - 1);
            let j = choose|j: int|
                0 <= j < rest.len() && (#[trigger] rest[j]).key == later[i - 1].key && rest[j].hits
                    <= hits;
            assert(candidates[j + 1] == rest[j]);
        }
    }
}

/// No victim leaves in vain: without the last one there would have been no room.
pub proof fn every_victim_is_needed(
    costs: Map<u64, i64>,
    max_cost: int,
    cost: int,
    hits: u64,
    candidates: Seq<Candidate>,
)
    ensures
        ({
            let victims = crate::policy::make_room(costs, max_cost, cost, hits, candidates).1;
            victims.len() > 0 ==> !crate::policy::fits(
                costs.remove_keys(crate::policy::victim_keys(victims.drop_last())),
                max_cost,
                cost,
            )
        }),
    decreases candidates.len(),
{
    let victims = crate::policy::make_room(costs, max_cost, cost, hits, candidates).1;
    if victims.len() > 0 {
        let c = candidates.first();
        let rest = candidates.drop_first();
        if !costs.contains_key(c.key) {
            every_victim_is_needed(costs, max_cost, cost, hits, rest);
        } else {
            let less = costs.remove(c.key);
            let later = crate::policy::make_room(less, max_cost, cost, hits, rest).1;
            let first = PolicyPair { key: c.key, cost: costs[c.key] };
            assert(victims == seq![first] + later);
            let spared = crate::policy::victim_keys(victims.drop_last());
            if later.len() == 0 {
                assert(costs.remove_keys(spared) =~= costs);
            } else {
                every_victim_is_needed(less, max_cost, cost, hits, rest);
                let init = later.drop_last();
                assert(victims.drop_last() =~= seq![first] + init);
                assert forall|k: u64| #[trigger] spared.contains(k) <==> (k == c.key
                    || crate::policy::victim_keys(init).contains(k)) by {
                    let all = victims.drop_last();
                    assert(all[0].key == c.key);
                    if crate::policy::victim_keys(init).contains(k) {
                        let i = choose|i: int| 0 <= i < init.len() && (#[trigger] init[i]).key == k;
                        assert(all[i + 1].key == k);
                    }
                    if spared.contains(k) && k != c.key {
                        let i = choose|i: int| 0 <= i < all.len() && (#[trigger] all[i]).key == k;
                        assert(init[i - 1].key == k);
                    }
                }
                assert(costs.remove_keys(spared) =~= less.remove_keys(
                    crate::policy::victim_keys(init),
                ));
            }
        }
    }
}

/// An item within the maximum is let in where every charged key is a candidate
/// and none is asked for more often.
pub proof fn wanted_items_are_let_in(
    costs: Map<u64, i64>,
    max_cost: int,
    key: u64,
    cost: i64,
    hits: u64,
    candidates: Seq<Candidate>,
)
    requires
        costs.dom().finite(),
        cost <= max_cost,
        !costs.contains_key(key),
        forall|k: u64| #[trigger]
            costs.contains_key(k) ==> exists|j: int|
                0 <= j < candidates.len() && (#[trigger] candidates[j]).key == k,
        forall|j: int| 0 <= j < candidates.len() ==> (#[trigger] candidates[j]).hits <= hits,
    ensures
        crate::policy::admission(costs, max_cost, key, cost, hits, candidates).added,
    decreases candidates.len(),
{
    if !crate::policy::fits(costs, max_cost, cost as int) {
        if candidates.len() == 0 {
            assert(costs.dom() =~= Set::empty());
        } else {
            let c = candidates.first();
            let rest = candidates.drop_first();
            assert(c == candidates[0]);
            let less = costs.remove(c.key);
            assert forall|k: u64| #[trigger] less.contains_key(k) implies exists|j: int|
                0 <= j < rest.len() && (#[trigger] rest[j]).key == k by {
                let j = choose|j: int|
                    0 <= j < candidates.len() && (#[trigger] candidates[j]).key == k;
                assert(rest[j - 1].key == k);
            }
            if !costs.contains_key(c.key) {
                assert(less =~= costs);
            }
            wanted_items_are_let_in(less, max_cost, key, cost, hits, rest);
        }
    }
}

/// Where every charged key is a candidate and those that are asked for least come
/// first, no victim is asked for more often than a key that stays.
pub proof fn least_asked_for_leave_first(
    costs: Map<u64, i64>,
    max_cost: int,
    cost: int,
    hits: u64,
    candidates: Seq<Candidate>,
    v: int,
    j: int,
)
    requires
        forall|k: u64| #[trigger]
            costs.contains_key(k) ==> exists|a: int|
                0 <= a < candidates.len() && (#[trigger] candidates[a]).key == k,
        forall|a: int, b: int|
            0 <= a < b < candidates.len() ==> (#[trigger] candidates[a]).hits <= (
            #[trigger] candidates[b]).hits,
        forall|a: int, b: int|
            0 <= a < b < candidates.len() ==> (#[trigger] candidates[a]).key != (
            #[trigger] candidates[b]).key,
        0 <= v < crate::policy::make_room(costs, max_cost, cost, hits, candidates).1.len(),
        0 <= j < candidates.len(),
        crate::policy::make_room(costs, max_cost, cost, hits, candidates).0.contains_key(
            candidates[j].key,
        ),
    ensures
        ({
            let victim = crate::policy::make_room(costs, max_cost, cost, hits, candidates).1[v];
            exists|i: int|
                0 <= i < candidates.len() && (#[trigger] candidates[i]).key == victim.key
                    && candidates[i].hits <= candidates[j].hits
        }),
    decreases candidates.len(),
{
    let victims = crate::policy::make_room(costs, max_cost, cost, hits, candidates).1;
    let c = candidates.first();
    let rest = candidates.drop_first();
    assert(c == candidates[0]);
    let less = costs.remove(c.key);
    crate::policy::make_room_removes_victims(less, max_cost, cost, hits, rest);
    assert forall|k: u64| #[trigger] less.contains_key(k) implies exists|a: int|
        0 <= a < rest.len() && (#[trigger] rest[a]).key == k by {
        let a = choose|a: int| 0 <= a < candidates.len() && (#[trigger] candidates[a]).key == k;
        assert(rest[a - 1].key == k);
    }
    if !costs.contains_key(c.key) {
        assert(less =~= costs);
        crate::policy::make_room_removes_victims(costs, max_cost, cost, hits, candidates);
        assert(rest[j - 1] == candidates[j]);
        least_asked_for_leave_first(less, max_cost, cost, hits, rest, v, j - 1);
        let i = choose|i: int|
            0 <= i < rest.len() && (#[trigger] rest[i]).key == victims[v].key && rest[i].hits
                <= rest[j - 1].hits;
        assert(candidates[i + 1] == rest[i]);
    } else {
        let later = crate::policy::make_room(less, max_cost, cost, hits, rest).1;
        assert(victims == seq![PolicyPair { key: c.key, cost: costs[c.key] }] + later);
        assert(j > 0);
        if v == 0 {
            assert(candidates[0].key == victims[0].key);
        } else {
            assert(victims[v] == later[v - 1]);
            assert(rest[j - 1] == candidates[j]);
            least_asked_for_leave_first(less, max_cost, cost, hits, rest, v - 1, j - 1);
            let i = choose|i: int|
                0 <= i < rest.len() && (#[trigger] rest[i]).key == victims[v].key && rest[i].hits
                    <= rest[j - 1].hits;
            assert(candidates[i + 1] == rest[i]);
        }
    }
}

/// By the ranking of the access counters, an item within the maximum is let in
/// where no charged key is asked for more often, and in making room for any item
/// no key leaves that is asked for more often than one that stays.
pub proof fn access_counters_decide(
    counters: CountersView,
    costs: Map<u64, i64>,
    max_cost: int,
    key: u64,
    cost: i64,
    charged: Seq<u64>,
    ranking: Ranking,
)
    requires
        costs.dom().finite(),
        charged.no_duplicates(),
        charged.to_set() == costs.dom(),
        crate::frequency::ranks(counters, key, charged, ranking),
    ensures
        cost <= max_cost && !costs.contains_key(key) && (forall|k: u64| #[trigger]
            costs.contains_key(k) ==> counters.hits(k) <= counters.hits(key))
            ==> crate::policy::admission(
            costs,
            max_cost,
            key,
            cost,
            ranking.incoming_hits,
            ranking.candidates@,
        ).added,
        ({
            let (ledger, victims) = crate::policy::make_room(
                costs,
                max_cost,
                cost as int,
                ranking.incoming_hits,
                ranking.candidates@,
            );
            forall|v: int, k: u64|
                0 <= v < victims.len() && #[trigger] ledger.contains_key(k) ==> counters.hits(
                    (#[trigger] victims[v]).key,
                ) <= counters.hits(k)
        }),
{
    let list = ranking.candidates@;
    let hits = ranking.incoming_hits;
    assert forall|k: u64| #[trigger] costs.contains_key(k) implies exists|a: int|
        0 <= a < list.len() && (#[trigger] list[a]).key == k by {
        assert(charged.to_set().contains(k));
        assert(charged.contains(k));
    }
    assert forall|a: int| 0 <= a < list.len() implies costs.contains_key(
        (#[trigger] list[a]).key,
    ) by {
        assert(charged.to_set().contains(list[a].key));
    }
    if cost <= max_cost && !costs.contains_key(key) && (forall|k: u64| #[trigger]
        costs.contains_key(k) ==> counters.hits(k) <= counters.hits(key)) {
        wanted_items_are_let_in(costs, max_cost, key, cost, hits, list);
    }
    crate::policy::make_room_removes_victims(costs, max_cost, cost as int, hits, list);
    let (ledger, victims) = crate::policy::make_room(costs, max_cost, cost as int, hits, list);
    assert forall|v: int, k: u64|
        0 <= v < victims.len() && #[trigger] ledger.contains_key(k) implies counters.hits(
        (#[trigger] victims[v]).key,
    ) <= counters.hits(k) by {
        assert(costs.contains_key(k));
        let j = choose|j: int| 0 <= j < list.len() && (#[trigger] list[j]).key == k;
        least_asked_for_leave_first(costs, max_cost, cost as int, hits, list, v, j);
    }
}

// Messages

/// A message, the ranking that is at hand when it is handled, and when that is.
pub struct Delivery<V, WG> {
    pub item: Item<V, WG>,
    pub ranking: Ranking,
    pub now: u128,
}

/// The states after the messages of `queue` were handled, first to last.
pub open spec fn run<V, WG>(
    proc: ProcessorView,
    shared: SharedView<V>,
    queue: Seq<Delivery<V, WG>>,
) -> (ProcessorView, SharedView<V>)
    decreases queue.len(),
{
    if queue.len() == 0 {
        (proc, shared)
    } else {
        let (p, s) = run(proc, shared, queue.drop_last());
        let d = queue.last();
        let a = crate::processor::apply(p, s, d.item, d.ranking, d.now);
        (a.proc, a.shared)
    }
}

/// Messages are handled one after the other: what a queue leads to is what its
/// second part leads to from where its first part led.
pub proof fn queues_are_handled_in_parts<V, WG>(
    proc: ProcessorView,
    shared: SharedView<V>,
    first: Seq<Delivery<V, WG>>,
    second: Seq<Delivery<V, WG>>,
)
    ensures
        ({
            let (p, s) = run(proc, shared, first);
            run(proc, shared, first + second) == run(p, s, second)
        }),
    decreases second.len(),
{
    if second.len() == 0 {
        assert(first + second =~= first);
    } else {
        queues_are_handled_in_parts(proc, shared, first, second.drop_last());
        assert((first + second).drop_last() =~= first + second.drop_last());
    }
}

/// What handling a new value leaves behind: the store is that after the verdict
/// without the victims, and so is the ledger.
proof fn verdicts_take_effect<V>(
    proc: ProcessorView,
    shared: SharedView<V>,
    entry: StoreItem<V>,
    cost: i64,
    ranking: Ranking,
    now: u128,
)
    ensures
        ({
            let a = crate::processor::verdict(proc, shared, entry.key, cost, ranking);
            let gone = crate::policy::victim_keys(a.victims);
            let ledger = shared.costs.remove_keys(gone);
            &&& crate::processor::settled(proc, shared, entry, cost, ranking, now).store
                == crate::processor::store_after_verdict(
                shared.store,
                entry,
                a.added,
            ).remove_keys(gone)
            &&& gone.subset_of(shared.costs.dom())
            &&& a.added ==> !shared.costs.contains_key(entry.key) && a.costs == ledger.insert(
                entry.key,
                proc.charged(cost as int),
            )
            &&& !a.added ==> ledger.dom().subset_of(a.costs.dom())
        }),
{
    let a = crate::processor::verdict(proc, shared, entry.key, cost, ranking);
    crate::policy::make_room_removes_victims(
        shared.costs,
        shared.max_cost as int,
        proc.charged(cost as int) as int,
        ranking.incoming_hits,
        ranking.candidates@,
    );
    crate::processor::evict_all_removes_victims(
        crate::processor::records_after_verdict(proc, shared, entry.key, a.added, now),
        crate::processor::store_after_verdict(shared.store, entry, a.added),
        a.victims,
        now,
    );
}

/// Every stored entry is charged, whatever message is handled.
pub proof fn entries_stay_charged<V, WG>(
    proc: ProcessorView,
    shared: SharedView<V>,
    item: Item<V, WG>,
    ranking: Ranking,
    now: u128,
)
    requires
        shared.accounted(),
    ensures
        crate::processor::apply(proc, shared, item, ranking, now).shared.accounted(),
{
    match item {
        Item::New { key, conflict, cost, value, expiration } => {
            let entry = StoreItem { key, conflict, value, expiration };
            verdicts_take_effect(proc, shared, entry, cost, ranking, now);
        },
        _ => {},
    }
}

/// A ranking matters only where it is wanted: any other message does the same
/// whatever ranking is at hand.
pub proof fn rankings_matter_only_where_wanted<V, WG>(
    proc: ProcessorView,
    shared: SharedView<V>,
    item: Item<V, WG>,
    ranking: Ranking,
    other: Ranking,
    now: u128,
)
    requires
        !crate::processor::wants_ranking(proc, shared, item),
    ensures
        crate::processor::apply(proc, shared, item, ranking, now) == crate::processor::apply(
            proc,
            shared,
            item,
            other,
            now,
        ),
{
}

/// A value that is let in is what a reader of its key sees, until it expires.
pub proof fn reads_give_back_writes<V, WG>(
    proc: ProcessorView,
    shared: SharedView<V>,
    item: Item<V, WG>,
    ranking: Ranking,
    now: u128,
    later: u128,
)
    requires
        item is New,
        crate::processor::verdict(proc, shared, item->New_key, item->New_cost, ranking).added,
        !item->expiration.expired_at(later),
    ensures
        crate::store::lookup(
            crate::processor::apply(proc, shared, item, ranking, now).shared.store,
            item->New_key,
            item->New_conflict,
            later,
        ) == Some(item->value),
{
    let entry = StoreItem {
        key: item->New_key,
        conflict: item->New_conflict,
        value: item->value,
        expiration: item->expiration,
    };
    verdicts_take_effect(proc, shared, entry, item->New_cost, ranking, now);
}

/// An item that is turned away does not come to be stored.
pub proof fn rejected_items_stay_out<V, WG>(
    proc: ProcessorView,
    shared: SharedView<V>,
    item: Item<V, WG>,
    ranking: Ranking,
    now: u128,
)
    requires
        item is New,
        !shared.store.contains_key(item->New_key),
        !crate::processor::verdict(proc, shared, item->New_key, item->New_cost, ranking).added,
    ensures
        !crate::processor::apply(proc, shared, item, ranking, now).shared.store.contains_key(
            item->New_key,
        ),
{
    let entry = StoreItem {
        key: item->New_key,
        conflict: item->New_conflict,
        value: item->value,
        expiration: item->expiration,
    };
    verdicts_take_effect(proc, shared, entry, item->New_cost, ranking, now);
}

/// Once the deletion of a key is handled, the key is gone, whatever was sent
/// before it: a set that is followed by a delete does not come back.
pub proof fn deletes_follow_sets<V, WG>(
    proc: ProcessorView,
    shared: SharedView<V>,
    queue: Seq<Delivery<V, WG>>,
    delete: Delivery<V, WG>,
)
    requires
        delete.item is Delete,
    ensures
        ({
            let after = run(proc, shared, queue.push(delete)).1;
            &&& !crate::store::holds(
                after.store,
                delete.item->Delete_key,
                delete.item->Delete_conflict,
            )
            &&& !after.store.contains_key(delete.item->Delete_key) ==> !after.costs.contains_key(
                delete.item->Delete_key,
            )
        }),
{
    assert(queue.push(delete).drop_last() =~= queue);
}

/// A waiter is woken when everything sent before it is handled, and its message
/// changes nothing.
pub proof fn waits_follow_everything<V, WG>(
    proc: ProcessorView,
    shared: SharedView<V>,
    queue: Seq<Delivery<V, WG>>,
    wait: Delivery<V, WG>,
)
    requires
        wait.item is Wait,
    ensures
        run(proc, shared, queue.push(wait)) == run(proc, shared, queue),
        ({
            let (p, s) = run(proc, shared, queue);
            crate::processor::apply(p, s, wait.item, wait.ranking, wait.now).release == Some(
                wait.item->Wait_0,
            )
        }),
{
    assert(queue.push(wait).drop_last() =~= queue);
}

/// Only waiting messages wake a waiter.
pub proof fn only_waits_release<V, WG>(
    proc: ProcessorView,
    shared: SharedView<V>,
    item: Item<V, WG>,
    ranking: Ranking,
    now: u128,
)
    ensures
        crate::processor::apply(proc, shared, item, ranking, now).release is Some <==> item is Wait,
{
}

/// Whether a notice tells that the entry `e` leaves.
pub open spec fn told_by<V>(notice: Notice<V>, e: StoreItem<V>) -> bool {
    match notice {
        Notice::Exit(v) => v == e.value,
        Notice::Evict { item, .. } => item.val == e.value && item.key == e.key && item.conflict
            == e.conflict && item.exp == e.expiration,
        Notice::Reject(_) => false,
    }
}

/// Whether the callback is told that the entry `e` leaves.
pub open spec fn told<V>(notices: Seq<Notice<V>>, e: StoreItem<V>) -> bool {
    exists|i: int| 0 <= i < notices.len() && told_by(#[trigger] notices[i], e)
}

/// A stored entry stays as it is or the callback is told of it.
proof fn evictions_are_told<V>(
    proc: ProcessorView,
    store: Map<u64, StoreItem<V>>,
    victims: Seq<PolicyPair>,
    now: u128,
    k: u64,
)
    requires
        store.contains_key(k),
    ensures
        ({
            let e = crate::processor::evict_all(proc, store, victims, now);
            if e.store.contains_key(k) {
                e.store[k] == store[k]
            } else {
                told(e.notices, store[k])
            }
        }),
    decreases victims.len(),
{
    if victims.len() > 0 {
        evictions_are_told(proc, store, victims.drop_last(), now, k);
        let before = crate::processor::evict_all(proc, store, victims.drop_last(), now);
        let after = crate::processor::evict_all(proc, store, victims, now);
        if !before.store.contains_key(k) {
            let i = choose|i: int|
                0 <= i < before.notices.len() && told_by(#[trigger] before.notices[i], store[k]);
            assert(after.notices[i] == before.notices[i]);
        } else if !after.store.contains_key(k) {
            assert(after.notices[before.notices.len() as int] == after.notices.last());
        }
    }
}

/// Nothing leaves the store untold: after a message, a stored entry is there as it
/// was, or the callback is told that it leaves.
pub proof fn nothing_leaves_untold<V, WG>(
    proc: ProcessorView,
    shared: SharedView<V>,
    item: Item<V, WG>,
    ranking: Ranking,
    now: u128,
    k: u64,
)
    requires
        shared.accounted(),
        shared.store.contains_key(k),
    ensures
        ({
            let a = crate::processor::apply(proc, shared, item, ranking, now);
            if a.shared.store.contains_key(k) {
                a.shared.store[k] == shared.store[k]
            } else {
                told(a.notices, shared.store[k])
            }
        }),
{
    let a = crate::processor::apply(proc, shared, item, ranking, now);
    match item {
        Item::New { key, conflict, cost, value, expiration } => {
            let adm = crate::processor::verdict(proc, shared, key, cost, ranking);
            let entry = StoreItem { key, conflict, value, expiration };
            let store = crate::processor::store_after_verdict(shared.store, entry, adm.added);
            let kept = crate::processor::records_after_verdict(
                proc,
                shared,
                key,
                adm.added,
                now,
            );
            let e = crate::processor::evict_all(kept, store, adm.victims, now);
            assert(adm.added ==> k != key);
            evictions_are_told(kept, store, adm.victims, now, k);
            if !adm.added && !e.store.contains_key(k) {
                let i = choose|i: int|
                    0 <= i < e.notices.len() && told_by(#[trigger] e.notices[i], store[k]);
                assert(a.notices[i + 1] == e.notices[i]);
            }
        },
        Item::Delete { key, conflict } => {
            if !a.shared.store.contains_key(k) {
                assert(a.notices[0] == Notice::Exit(shared.store[k].value));
            }
        },
        _ => {},
    }
}

/// A new value comes to be stored under its key, or the callback is told first
/// that it was turned away.
pub proof fn new_values_are_stored_or_rejected<V, WG>(
    proc: ProcessorView,
    shared: SharedView<V>,
    item: Item<V, WG>,
    ranking: Ranking,
    now: u128,
)
    requires
        item is New,
    ensures
        ({
            let a = crate::processor::apply(proc, shared, item, ranking, now);
            ||| a.shared.store.contains_key(item->New_key) && a.shared.store[item->New_key].value
                == item->value
            ||| a.notices.len() > 0 && a.notices[0] is Reject && a.notices[0]->Reject_0.val
                == item->value && a.notices[0]->Reject_0.key == item->New_key
        }),
{
    if crate::processor::verdict(
        proc,
        shared,
        item->New_key,
        item->New_cost,
        ranking,
    ).added {
        reads_give_back_writes(proc, shared, item, ranking, now, item->expiration.created_at);
    }
}

/// No more admissions are on record than are to be kept.
pub proof fn records_stay_bounded<V, WG>(
    proc: ProcessorView,
    shared: SharedView<V>,
    item: Item<V, WG>,
    ranking: Ranking,
    now: u128,
)
    requires
        proc.start_ts.dom().finite(),
        proc.start_ts.len() <= proc.num_to_keep,
    ensures
        ({
            let p = crate::processor::apply(proc, shared, item, ranking, now).proc;
            &&& p.start_ts.dom().finite()
            &&& p.start_ts.len() <= p.num_to_keep
            &&& p.num_to_keep == proc.num_to_keep
        }),
{
    match item {
        Item::New { key, conflict, cost, value, expiration } => {
            let adm = crate::processor::verdict(proc, shared, key, cost, ranking);
            let entry = StoreItem { key, conflict, value, expiration };
            let store = crate::processor::store_after_verdict(shared.store, entry, adm.added);
            let kept = crate::processor::records_after_verdict(
                proc,
                shared,
                key,
                adm.added,
                now,
            );
            evictions_keep_records_bounded(kept, store, adm.victims, now);
        },
        _ => {},
    }
}

proof fn evictions_keep_records_bounded<V>(
    proc: ProcessorView,
    store: Map<u64, StoreItem<V>>,
    victims: Seq<PolicyPair>,
    now: u128,
)
    requires
        proc.start_ts.dom().finite(),
        proc.start_ts.len() <= proc.num_to_keep,
    ensures
        ({
            let p = crate::processor::evict_all(proc, store, victims, now).proc;
            &&& p.start_ts.dom().finite()
            &&& p.start_ts.len() <= p.num_to_keep
            &&& p.num_to_keep == proc.num_to_keep
        }),
    decreases victims.len(),
{
    if victims.len() > 0 {
        evictions_keep_records_bounded(proc, store, victims.drop_last(), now);
    }
}

// Expiry

/// A value without a time to live is seen at any time.
pub proof fn no_ttl_never_expires<V>(
    store: Map<u64, StoreItem<V>>,
    index: u64,
    conflict: u64,
    now: u128,
)
    requires
        crate::store::holds(store, index, conflict),
        store[index].expiration.ttl == 0,
    ensures
        crate::store::lookup(store, index, conflict, now) == Some(store[index].value),
        crate::store::fresh(store, now).contains_key(index),
{
}

/// A value with a time to live is seen until that has passed, and never after.
pub proof fn ttl_bounds_visibility<V>(
    store: Map<u64, StoreItem<V>>,
    index: u64,
    conflict: u64,
    now: u128,
)
    requires
        crate::store::holds(store, index, conflict),
        store[index].expiration.ttl > 0,
    ensures
        crate::store::lookup(store, index, conflict, now) is Some <==> now
            < store[index].expiration.created_at + store[index].expiration.ttl,
{
}

/// A cleanup changes nothing that a reader can see, then or later.
pub proof fn sweeps_are_invisible<V>(
    shared: SharedView<V>,
    index: u64,
    conflict: u64,
    now: u128,
    later: u128,
)
    requires
        now <= later,
    ensures
        crate::store::lookup(crate::processor::swept(shared, now).store, index, conflict, later)
            == crate::store::lookup(shared.store, index, conflict, later),
{
}

/// After a cleanup nothing is left for another one at the same time, and every
/// stored entry is still charged.
pub proof fn sweeps_are_complete<V>(shared: SharedView<V>, now: u128)
    requires
        shared.accounted(),
    ensures
        crate::processor::expired_keys(crate::processor::swept(shared, now).store, now)
            == Set::<u64>::empty(),
        crate::processor::swept(crate::processor::swept(shared, now), now)
            == crate::processor::swept(shared, now),
        crate::processor::swept(shared, now).accounted(),
{
    let once = crate::processor::swept(shared, now);
    let twice = crate::processor::swept(once, now);
    assert(crate::processor::expired_keys(once.store, now) =~= Set::<u64>::empty());
    assert(twice.store =~= once.store);
    assert(twice.costs =~= once.costs);
}

// Calls

/// An insert that replaces a value is visible at once, and answers `true`
/// whatever becomes of its message, also where there is no room for one.
pub proof fn updates_are_visible_at_once<V, WG>(
    shared: SharedView<V>,
    h: (u64, u64),
    val: V,
    cost: i64,
    evaluated: i64,
    expiration: Time,
    only_update: bool,
    room: bool,
    later: u128,
)
    requires
        crate::store::holds(shared.store, h.0, h.1),
        !expiration.expired_at(later),
    ensures
        ({
            let i = crate::cache::inserted::<V, WG>(
                shared,
                h,
                val,
                cost,
                evaluated,
                true,
                expiration,
                only_update,
                room,
            );
            &&& crate::store::lookup(i.shared.store, h.0, h.1, later) == Some(val)
            &&& if room {
                &&& i.step is Send
                &&& i.step->Send_ticket.is_update
                &&& i.step->Send_exit == Some(shared.store[h.0].value)
            } else {
                &&& i.step is Unsent
                &&& i.step->Unsent_ticket.is_update
                &&& i.step->Unsent_exit == Some(shared.store[h.0].value)
            }
        }),
{
}

/// An insert that answers `false` added nothing: the store and the ledger are as
/// they were. It answers so where its first half drops it, and where its ticket
/// is not that of an update and its message does not get through.
pub proof fn refused_inserts_add_nothing<V, WG>(
    shared: SharedView<V>,
    h: (u64, u64),
    val: V,
    cost: i64,
    evaluated: i64,
    allowed: bool,
    expiration: Time,
    only_update: bool,
    room: bool,
)
    ensures
        ({
            let i = crate::cache::inserted::<V, WG>(
                shared,
                h,
                val,
                cost,
                evaluated,
                allowed,
                expiration,
                only_update,
                room,
            );
            &&& i.step is Dropped ==> i.shared == shared
            &&& (i.step matches InsertStep::Send { ticket, .. } ==> ticket.index == h.0)
            &&& (i.step matches InsertStep::Unsent { ticket, .. } ==> ticket.index == h.0)
            &&& (i.step matches InsertStep::Send { ticket, .. } && !ticket.is_update) || (
            i.step matches InsertStep::Unsent { ticket, .. } && !ticket.is_update) ==> {
                &&& i.shared == shared
                &&& i.shared.one_dropped(h.0).store == shared.store
                &&& i.shared.one_dropped(h.0).costs == shared.costs
            }
        }),
{
}

/// No cost is asked for in vain: where an insert sends no message, what the item
/// was evaluated to does not matter. Where there is no room none is sent.
pub proof fn unsent_inserts_need_no_cost<V, WG>(
    shared: SharedView<V>,
    h: (u64, u64),
    val: V,
    cost: i64,
    evaluated: i64,
    other: i64,
    allowed: bool,
    expiration: Time,
    only_update: bool,
    room: bool,
)
    ensures
        ({
            let i = crate::cache::inserted::<V, WG>(
                shared,
                h,
                val,
                cost,
                evaluated,
                allowed,
                expiration,
                only_update,
                room,
            );
            &&& !room ==> !(i.step is Send)
            &&& !(i.step is Send) ==> i == crate::cache::inserted::<V, WG>(
                shared,
                h,
                val,
                cost,
                other,
                allowed,
                expiration,
                only_update,
                room,
            )
        }),
{
}

/// An insert that only updates adds no key: it sends no new value, and the store
/// holds the same keys.
pub proof fn updates_only_add_no_key<V, WG>(
    shared: SharedView<V>,
    h: (u64, u64),
    val: V,
    cost: i64,
    evaluated: i64,
    allowed: bool,
    expiration: Time,
    room: bool,
)
    ensures
        ({
            let i = crate::cache::inserted::<V, WG>(
                shared,
                h,
                val,
                cost,
                evaluated,
                allowed,
                expiration,
                true,
                room,
            );
            &&& i.shared.store.dom() == shared.store.dom()
            &&& i.shared.costs == shared.costs
            &&& i.step matches InsertStep::Send { item, .. } ==> item is Update
        }),
{
    let i = crate::cache::inserted::<V, WG>(
        shared,
        h,
        val,
        cost,
        evaluated,
        allowed,
        expiration,
        true,
        room,
    );
    assert(i.shared.store.dom() =~= shared.store.dom());
}

/// After the first half of an insert or a removal every stored entry is still
/// charged.
pub proof fn calls_keep_entries_charged<V, WG>(
    shared: SharedView<V>,
    h: (u64, u64),
    val: V,
    cost: i64,
    evaluated: i64,
    allowed: bool,
    expiration: Time,
    only_update: bool,
    room: bool,
)
    requires
        shared.accounted(),
    ensures
        crate::cache::inserted::<V, WG>(
            shared,
            h,
            val,
            cost,
            evaluated,
            allowed,
            expiration,
            only_update,
            room,
        ).shared.accounted(),
        crate::cache::removed::<V, WG>(shared, h).shared.accounted(),
{
}

/// A removed key is not seen any more, and its deletion is sent.
pub proof fn removals_take_effect_at_once<V, WG>(shared: SharedView<V>, h: (u64, u64), now: u128)
    ensures
        ({
            let r = crate::cache::removed::<V, WG>(shared, h);
            &&& crate::store::lookup(r.shared.store, h.0, h.1, now) is None
            &&& r.step matches RemoveStep::Send { item, .. }
            &&& item == (Item::<V, WG>::Delete { key: h.0, conflict: h.1 })
        }),
{
}

/// What is inserted under an absent key is what a reader of that key sees, once
/// the working task let it in and until it expires, whatever it handled before.
pub proof fn inserted_values_are_read_back<V, WG>(
    shared: SharedView<V>,
    h: (u64, u64),
    val: V,
    cost: i64,
    evaluated: i64,
    allowed: bool,
    expiration: Time,
    proc: ProcessorView,
    then: SharedView<V>,
    ranking: Ranking,
    now: u128,
    later: u128,
)
    requires
        !crate::store::holds(shared.store, h.0, h.1),
        !expiration.expired_at(later),
        crate::processor::verdict(
            proc,
            then,
            h.0,
            if cost == 0 {
                evaluated
            } else {
                cost
            },
            ranking,
        ).added,
    ensures
        ({
            let step = crate::cache::inserted::<V, WG>(
                shared,
                h,
                val,
                cost,
                evaluated,
                allowed,
                expiration,
                false,
                true,
            ).step;
            &&& step is Send
            &&& crate::store::lookup(
                crate::processor::apply(proc, then, step->Send_item, ranking, now).shared.store,
                h.0,
                h.1,
                later,
            ) == Some(val)
        }),
{
    let step = crate::cache::inserted::<V, WG>(
        shared,
        h,
        val,
        cost,
        evaluated,
        allowed,
        expiration,
        false,
        true,
    ).step;
    reads_give_back_writes(proc, then, step->Send_item, ranking, now, later);
}

/// Whether a message brings a new value for the key with the hashes `h`.
pub open spec fn brings<V, WG>(item: Item<V, WG>, h: (u64, u64)) -> bool {
    &&& item is New
    &&& item->New_key == h.0
    &&& h.1 == 0 || item->New_conflict == h.1
}

/// A key that is not in the store stays out of it, whatever callers insert or
/// remove and whatever a cleanup takes out: only a message can bring it.
pub proof fn calls_and_sweeps_bring_no_key<V, WG>(
    shared: SharedView<V>,
    h: (u64, u64),
    g: (u64, u64),
    val: V,
    cost: i64,
    evaluated: i64,
    allowed: bool,
    expiration: Time,
    only_update: bool,
    room: bool,
    now: u128,
)
    requires
        !crate::store::holds(shared.store, h.0, h.1),
    ensures
        !crate::store::holds(
            crate::cache::inserted::<V, WG>(
                shared,
                g,
                val,
                cost,
                evaluated,
                allowed,
                expiration,
                only_update,
                room,
            ).shared.store,
            h.0,
            h.1,
        ),
        !crate::store::holds(crate::cache::removed::<V, WG>(shared, g).shared.store, h.0, h.1),
        !crate::store::holds(crate::processor::swept(shared, now).store, h.0, h.1),
{
}

/// What can happen to the state of an open cache: its working task handles a
/// message or takes out what expired, or a caller inserts or removes under `h`.
#[verifier::reject_recursive_types(V)]
pub enum Happening<V, WG> {
    Handled(Delivery<V, WG>),
    Swept { now: u128 },
    Inserted {
        h: (u64, u64),
        val: V,
        cost: i64,
        evaluated: i64,
        allowed: bool,
        expiration: Time,
        only_update: bool,
        room: bool,
    },
    Removed { h: (u64, u64) },
}

/// The states after all of `events` happened, first to last.
pub open spec fn history<V, WG>(
    proc: ProcessorView,
    shared: SharedView<V>,
    events: Seq<Happening<V, WG>>,
) -> (ProcessorView, SharedView<V>)
    decreases events.len(),
{
    if events.len() == 0 {
        (proc, shared)
    } else {
        let (p, s) = history(proc, shared, events.drop_last());
        match events.last() {
            Happening::Handled(d) => {
                let a = crate::processor::apply(p, s, d.item, d.ranking, d.now);
                (a.proc, a.shared)
            },
            Happening::Swept { now } => (
                p.unrecorded_all(crate::processor::expired_keys(s.store, now)),
                crate::processor::swept(s, now),
            ),
            Happening::Inserted {
                h,
                val,
                cost,
                evaluated,
                allowed,
                expiration,
                only_update,
                room,
            } => (
                p,
                crate::cache::inserted::<V, WG>(
                    s,
                    h,
                    val,
                    cost,
                    evaluated,
                    allowed,
                    expiration,
                    only_update,
                    room,
                ).shared,
            ),
            Happening::Removed { h } => (p, crate::cache::removed::<V, WG>(s, h).shared),
        }
    }
}

/// A key that is not in the store stays out of it, whatever happens, until the
/// working task handles a message that brings a new value for it.
pub proof fn absent_keys_stay_absent<V, WG>(
    proc: ProcessorView,
    shared: SharedView<V>,
    events: Seq<Happening<V, WG>>,
    h: (u64, u64),
)
    requires
        !crate::store::holds(shared.store, h.0, h.1),
        forall|i: int|
            0 <= i < events.len() ==> ((#[trigger] events[i]) matches Happening::Handled(d)
                ==> !brings(d.item, h)),
    ensures
        !crate::store::holds(history(proc, shared, events).1.store, h.0, h.1),
    decreases events.len(),
{
    if events.len() > 0 {
        let init = events.drop_last();
        absent_keys_stay_absent(proc, shared, init, h);
        assert(events[events.len() - 1] == events.last());
        let (p, s) = history(proc, shared, init);
        match events.last() {
            Happening::Handled(d) => match d.item {
                Item::New { key, conflict, cost, value, expiration } => {
                    let entry = StoreItem { key, conflict, value, expiration };
                    verdicts_take_effect(p, s, entry, cost, d.ranking, d.now);
                },
                _ => {},
            },
            _ => {},
        }
    }
}

/// Whatever happens, every stored entry is charged.
pub proof fn entries_stay_charged_throughout<V, WG>(
    proc: ProcessorView,
    shared: SharedView<V>,
    events: Seq<Happening<V, WG>>,
)
    requires
        shared.accounted(),
    ensures
        history(proc, shared, events).1.accounted(),
    decreases events.len(),
{
    if events.len() > 0 {
        let init = events.drop_last();
        entries_stay_charged_throughout(proc, shared, init);
        let (p, s) = history(proc, shared, init);
        match events.last() {
            Happening::Handled(d) => entries_stay_charged(p, s, d.item, d.ranking, d.now),
            Happening::Swept { now } => sweeps_are_complete(s, now),
            _ => {},
        }
    }
}

/// Once the working task handled what a removal sent, the key is gone, whatever
/// it handled before: also an insert that was under way when the key was removed.
/// It stays gone whatever happens after that, until the working task handles a
/// message that brings a new value for the key.
pub proof fn removed_keys_stay_gone<V, WG>(
    shared: SharedView<V>,
    h: (u64, u64),
    proc: ProcessorView,
    then: SharedView<V>,
    before: Seq<Delivery<V, WG>>,
    ranking: Ranking,
    now: u128,
    after: Seq<Happening<V, WG>>,
    later: u128,
)
    requires
        forall|i: int|
            0 <= i < after.len() ==> ((#[trigger] after[i]) matches Happening::Handled(d)
                ==> !brings(d.item, h)),
    ensures
        ({
            let step = crate::cache::removed::<V, WG>(shared, h).step;
            let d = Delivery { item: step->Send_item, ranking, now };
            let (p, s) = run(proc, then, before.push(d));
            let end = history(p, s, after).1;
            &&& step is Send
            &&& crate::store::lookup(end.store, h.0, h.1, later) is None
        }),
{
    let step = crate::cache::removed::<V, WG>(shared, h).step;
    let d = Delivery { item: step->Send_item, ranking, now };
    let (p, s) = run(proc, then, before.push(d));
    deletes_follow_sets(proc, then, before, d);
    absent_keys_stay_absent(p, s, after, h);
}

/// With the default validator, a value that is in the cache is always replaced.
pub proof fn updates_are_allowed_by_default<K, V, KH, C, CB, S>(
    cache: &AsyncCache<K, V, KH, C, DefaultUpdateValidator<V>, CB, S>,
    key: K,
    val: V,
    cost: i64,
    only_update: bool,
    room: bool,
    h: (u64, u64),
    evaluated: i64,
    allowed: bool,
) where
    K: Hash + Eq,
    V: Send + Sync + 'static,
    KH: KeyBuilder<K>,
    C: Coster<V>,
    S: BuildHasher + Clone,

    requires
        cache.answers(key, val, cost, only_update, room, h, evaluated, allowed),
        crate::store::holds(cache.shared@.store, h.0, h.1),
    ensures
        allowed,
{
}

/// A closed cache stays closed. An open one is closed by the closing of its policy
/// alone: it stays open where an earlier action fails.
pub proof fn closing_is_final<V>(is_closed: bool, shared: SharedView<V>, event: CloseEvent)
    ensures
        is_closed ==> crate::cache::closing(is_closed, shared, event).0,
        !is_closed && crate::cache::closing(is_closed, shared, event).0 ==> (
        event matches CloseEvent::PolicyClosed(Ok(_))),
{
}

/// A closing whose actions all succeed leaves a closed cache that holds nothing.
pub proof fn complete_closing_empties_and_closes<V>(shared: SharedView<V>)
    ensures
        ({
            let (c1, s1) = crate::cache::closing(false, shared, CloseEvent::Start);
            let (c2, s2) = crate::cache::closing(c1, s1, CloseEvent::ClearAsked(Ok(())));
            let (c3, s3) = crate::cache::closing(c2, s2, CloseEvent::StopSent(Ok(())));
            let (c4, s4) = crate::cache::closing(c3, s3, CloseEvent::PolicyClosed(Ok(())));
            c4 && s4 == shared.cleared()
        }),
{
}

/// A closed cache does nothing: inserts are dropped, removals are over, and the
/// state stays as it is.
pub proof fn closed_caches_are_inert<K, V, KH, C, U, CB, S, WG>(
    cache: &AsyncCache<K, V, KH, C, U, CB, S>,
    key: K,
    val: V,
    cost: i64,
    expiration: Time,
    only_update: bool,
    room: bool,
    shared: SharedView<V>,
    step: InsertStep<V, WG>,
    removal: RemoveStep<V, WG>,
) where
    K: Hash + Eq,
    V: Send + Sync + 'static,
    KH: KeyBuilder<K>,
    C: Coster<V>,
    U: UpdateValidator<V>,
    S: BuildHasher + Clone,

    requires
        cache.is_closed,
    ensures
        cache.insert_leads_to(key, val, cost, expiration, only_update, room, shared, step) ==> step
            is Dropped && shared == cache.shared@,
        cache.remove_leads_to(key, shared, removal) ==> removal is Done && shared == cache.shared@,
{
}

} // verus!
