//! What the working task does with every message, and on every cleanup.

use std::hash::BuildHasher;
use vstd::prelude::*;
use super::ledger::{agree, among};
use super::table::{matching, passed};
use crate::error::CacheError;
use crate::item::{Item, Notice};
use crate::policy::{Admission, AsyncLFUPolicy, PolicyPair, Ranking};
use crate::processor::{
    CacheCleaner, CacheProcessor, CleanStep, Event, ProcessorView, Reaction, Step,
};
use crate::shared::{Shared, SharedView};
use crate::store::StoreItem;
use crate::traits::UpdateValidator;
use crate::ttl::Time;

verus! {

/// Whether an item of this cost is charged `charge`: its cost, and what storing it
/// takes unless that is free. What is beyond the range of a charge is charged as far
/// as that goes.
pub open spec fn charged_as(p: ProcessorView, cost: int, charge: i64) -> bool {
    let sum = cost + if p.ignore_internal_cost {
        0
    } else {
        p.item_size as int
    };
    &&& i64::MIN <= sum <= i64::MAX ==> charge == sum
    &&& sum > i64::MAX ==> charge == i64::MAX
    &&& sum < i64::MIN ==> charge == i64::MIN
}

/// Whether `age` is how long ago a key was let in, by what is on record.
pub open spec fn aged(records: Map<u64, u128>, k: u64, now: u128, age: Option<u128>) -> bool {
    &&& age is Some <==> records.contains_key(k)
    &&& age is Some && now >= records[k] ==> records[k] + age->0 == now
    &&& age is Some && now < records[k] ==> age->0 == 0
}

/// Whether a notice says that the entry `e`, charged `cost`, is evicted.
pub open spec fn evicts<V>(
    n: Notice<V>,
    e: StoreItem<V>,
    cost: i64,
    records: Map<u64, u128>,
    now: u128,
) -> bool {
    match n {
        Notice::Evict { item, age } => {
            &&& item.val == e.value
            &&& item.key == e.key
            &&& item.conflict == e.conflict
            &&& item.exp == e.expiration
            &&& item.cost == cost
            &&& aged(records, e.key, now, age)
        },
        _ => false,
    }
}

/// Whether what the working task was made with is the same.
pub open spec fn same_task(a: ProcessorView, b: ProcessorView) -> bool {
    &&& a.num_to_keep == b.num_to_keep
    &&& a.ignore_internal_cost == b.ignore_internal_cost
    &&& a.item_size == b.item_size
    &&& a.cleanup_duration == b.cleanup_duration
}

/// Whether the settings and the counters of the shared state are the same.
pub open spec fn same_settings<V>(a: SharedView<V>, b: SharedView<V>) -> bool {
    &&& a.max_cost == b.max_cost
    &&& a.counting == b.counting
    &&& a.dropped == b.dropped
}

/// Whether nothing changed.
pub open spec fn unchanged<V>(
    p0: ProcessorView,
    s0: SharedView<V>,
    p1: ProcessorView,
    s1: SharedView<V>,
    k: u64,
) -> bool {
    &&& same_task(p0, p1)
    &&& same_settings(s0, s1)
    &&& agree(p0.start_ts, p1.start_ts, k)
    &&& agree(s0.store, s1.store, k)
    &&& agree(s0.costs, s1.costs, k)
}

/// What evictions come to, and which of the victims each notice is about.
proof fn lemma_evict_all<V>(
    proc: ProcessorView,
    store: Map<u64, StoreItem<V>>,
    victims: Seq<PolicyPair>,
    now: u128,
) -> (at: Seq<int>)
    requires
        forall|k: u64| #[trigger] store.contains_key(k) ==> store[k].key == k,
        forall|i: int, j: int|
            0 <= i < j < victims.len() ==> (#[trigger] victims[i]).key != (#[trigger] victims[j]).key,
    ensures
        ({
            let e = crate::processor::evict_all(proc, store, victims, now);
            &&& same_task(proc, e.proc)
            &&& forall|k: u64|
                if among(victims, k) && store.contains_key(k) {
                    !(#[trigger] e.proc.start_ts.contains_key(k))
                } else {
                    agree(proc.start_ts, e.proc.start_ts, k)
                }
            &&& forall|k: u64|
                if among(victims, k) {
                    !(#[trigger] e.store.contains_key(k))
                } else {
                    agree(store, e.store, k)
                }
            &&& at.len() == e.notices.len()
            &&& forall|i: int|
                0 <= i < at.len() ==> {
                    &&& 0 <= #[trigger] at[i] < victims.len()
                    &&& store.contains_key(victims[at[i]].key)
                    &&& evicts(
                        e.notices[i],
                        store[victims[at[i]].key],
                        victims[at[i]].cost,
                        proc.start_ts,
                        now,
                    )
                }
            &&& forall|i: int, j: int| 0 <= i < j < at.len() ==> #[trigger] at[i] < #[trigger] at[j]
            &&& forall|j: int|
                0 <= j < victims.len() && store.contains_key((#[trigger] victims[j]).key)
                    ==> at.contains(j)
        }),
    decreases victims.len(),
{
    let e = crate::processor::evict_all(proc, store, victims, now);
    if victims.len() == 0 {
        Seq::empty()
    } else {
        let init = victims.drop_last();
        let v = victims.last();
        let n = victims.len() - 1;
        assert(v == victims[n]);
        let before = crate::processor::evict_all(proc, store, init, now);
        let at = lemma_evict_all(proc, store, init, now);
        assert(!among(init, v.key));
        assert forall|k: u64| #[trigger] among(victims, k) <==> (k == v.key || among(init, k)) by {
            if among(init, k) {
                let i = choose|i: int| 0 <= i < init.len() && (#[trigger] init[i]).key == k;
                assert(victims[i].key == k);
            }
            if among(victims, k) && k != v.key {
                let i = choose|i: int| 0 <= i < victims.len() && (#[trigger] victims[i]).key == k;
                assert(init[i].key == k);
            }
        }
        assert(agree(store, before.store, v.key)) by {
            let _ = before.store.contains_key(v.key);
        }
        assert(agree(proc.start_ts, before.proc.start_ts, v.key)) by {
            let _ = before.proc.start_ts.contains_key(v.key);
        }
        assert forall|k: u64|
            if among(victims, k) && store.contains_key(k) {
                !(#[trigger] e.proc.start_ts.contains_key(k))
            } else {
                agree(proc.start_ts, e.proc.start_ts, k)
            } by {
            let _ = before.proc.start_ts.contains_key(k);
        }
        assert forall|k: u64|
            if among(victims, k) {
                !(#[trigger] e.store.contains_key(k))
            } else {
                agree(store, e.store, k)
            } by {
            let _ = before.store.contains_key(k);
        }
        let all = if store.contains_key(v.key) {
            at.push(n)
        } else {
            at
        };
        assert forall|i: int| 0 <= i < all.len() implies {
            &&& 0 <= #[trigger] all[i] < victims.len()
            &&& store.contains_key(victims[all[i]].key)
            &&& evicts(
                e.notices[i],
                store[victims[all[i]].key],
                victims[all[i]].cost,
                proc.start_ts,
                now,
            )
        } by {
            if i < at.len() {
                assert(all[i] == at[i]);
                assert(victims[at[i]] == init[at[i]]);
                assert(e.notices[i] == before.notices[i]);
            }
        }
        assert forall|j: int|
            0 <= j < victims.len() && store.contains_key(
                (#[trigger] victims[j]).key,
            ) implies all.contains(j) by {
            if j == n {
                assert(all[at.len() as int] == n);
            } else {
                assert(init[j] == victims[j]);
                assert(at.contains(j));
                let i = choose|i: int| 0 <= i < at.len() && at[i] == j;
                assert(all[i] == j);
            }
        }
        all
    }
}

// New values

/// A new value goes through an admission of its key at what it is charged: the ledger
/// is the one that this leaves, whatever ledger with the same charges and the same
/// bound is asked.
pub proof fn new_values_go_through_an_admission<
    V,
    U: UpdateValidator<V>,
    S: BuildHasher + Clone,
    WG,
>(
    p: &mut CacheProcessor<S>,
    s: &mut Shared<V, U, S>,
    item: Item<V, WG>,
    ranking: &Ranking,
    now: u128,
    r: Reaction<V, WG>,
    l: &mut AsyncLFUPolicy<S>,
    charge: i64,
    a: Admission,
)
    requires
        call_ensures(
            CacheProcessor::<S>::handle_item::<V, U, WG>,
            (p, s, item, ranking, now),
            r,
        ),
        item is New,
        charged_as(old(p)@, item->New_cost as int, charge),
        old(l)@ == old(s)@.costs,
        old(l).bound() == old(s)@.max_cost,
        call_ensures(AsyncLFUPolicy::<S>::add, (l, item->New_key, charge, ranking), a),
    ensures
        final(s)@.costs == final(l)@,
{
}

/// What an admission of a new value decides: an added value is stored with all that
/// came with it, and a value that is turned away changes nothing under its key. The
/// entries of the victims leave the store, and no other.
pub proof fn admissions_decide_what_is_stored<V, U: UpdateValidator<V>, S: BuildHasher + Clone, WG>(
    p: &mut CacheProcessor<S>,
    s: &mut Shared<V, U, S>,
    item: Item<V, WG>,
    ranking: &Ranking,
    now: u128,
    r: Reaction<V, WG>,
    l: &mut AsyncLFUPolicy<S>,
    charge: i64,
    a: Admission,
    k: u64,
)
    requires
        call_ensures(
            CacheProcessor::<S>::handle_item::<V, U, WG>,
            (p, s, item, ranking, now),
            r,
        ),
        item is New,
        charged_as(old(p)@, item->New_cost as int, charge),
        old(s).wf(),
        old(l).wf(),
        old(l)@ == old(s)@.costs,
        old(l).bound() == old(s)@.max_cost,
        call_ensures(AsyncLFUPolicy::<S>::add, (l, item->New_key, charge, ranking), a),
    ensures
        if a.added {
            let e = final(s)@.store[item->New_key];
            &&& final(s)@.store.contains_key(item->New_key)
            &&& e.key == item->New_key
            &&& e.conflict == item->New_conflict
            &&& e.value == item->value
            &&& e.expiration == item->expiration
        } else {
            agree(old(s)@.store, final(s)@.store, item->New_key)
        },
        k != item->New_key ==> if among(a.victims@, k) {
            !final(s)@.store.contains_key(k)
        } else {
            agree(old(s)@.store, final(s)@.store, k)
        },
        same_settings(old(s)@, final(s)@),
        same_task(old(p)@, final(p)@),
        r.release is None,
{
    let _ = lemma_new_value(old(p)@, old(s), item, *ranking, now, a, l, charge, k);
}

/// What the callback is told of a new value: first that it was turned away, if it was,
/// with all that came with it and what it would have been charged; then of the victims
/// that were stored, in their order, with all that was stored, what they were charged
/// and how long ago they were let in.
pub proof fn callbacks_are_told_of_admissions<V, U: UpdateValidator<V>, S: BuildHasher + Clone, WG>(
    p: &mut CacheProcessor<S>,
    s: &mut Shared<V, U, S>,
    item: Item<V, WG>,
    ranking: &Ranking,
    now: u128,
    r: Reaction<V, WG>,
    l: &mut AsyncLFUPolicy<S>,
    charge: i64,
    a: Admission,
) -> (at: Seq<int>)
    requires
        call_ensures(
            CacheProcessor::<S>::handle_item::<V, U, WG>,
            (p, s, item, ranking, now),
            r,
        ),
        item is New,
        charged_as(old(p)@, item->New_cost as int, charge),
        old(s).wf(),
        old(l).wf(),
        old(l)@ == old(s)@.costs,
        old(l).bound() == old(s)@.max_cost,
        call_ensures(AsyncLFUPolicy::<S>::add, (l, item->New_key, charge, ranking), a),
    ensures
        ({
            let first: int = if a.added {
                0
            } else {
                1
            };
            let victims = a.victims@;
            &&& r.notices@.len() == first + at.len()
            &&& !a.added ==> match r.notices@[0] {
                Notice::Reject(turned) => {
                    &&& turned.val == item->value
                    &&& turned.key == item->New_key
                    &&& turned.conflict == item->New_conflict
                    &&& turned.exp == item->expiration
                    &&& turned.cost == charge
                },
                _ => false,
            }
            &&& forall|i: int|
                0 <= i < at.len() ==> {
                    &&& 0 <= #[trigger] at[i] < victims.len()
                    &&& old(s)@.store.contains_key(victims[at[i]].key)
                    &&& evicts(
                        r.notices@[first + i],
                        old(s)@.store[victims[at[i]].key],
                        old(s)@.costs[victims[at[i]].key],
                        old(p)@.start_ts,
                        now,
                    )
                }
            &&& forall|i: int, j: int| 0 <= i < j < at.len() ==> #[trigger] at[i] < #[trigger] at[j]
            &&& forall|j: int|
                0 <= j < victims.len() && old(s)@.store.contains_key((#[trigger] victims[j]).key)
                    ==> at.contains(j)
        }),
{
    let at = lemma_new_value(old(p)@, old(s), item, *ranking, now, a, l, charge, 0);
    at
}

/// When keys were let in is on record where metrics are counted: then an added key is
/// on record with the moment, unless there are as many records as are to be kept and
/// none of them is the key's. The records of victims that were stored are gone, and
/// every other record stays.
pub proof fn admissions_are_on_record<V, U: UpdateValidator<V>, S: BuildHasher + Clone, WG>(
    p: &mut CacheProcessor<S>,
    s: &mut Shared<V, U, S>,
    item: Item<V, WG>,
    ranking: &Ranking,
    now: u128,
    r: Reaction<V, WG>,
    l: &mut AsyncLFUPolicy<S>,
    charge: i64,
    a: Admission,
    k: u64,
)
    requires
        call_ensures(
            CacheProcessor::<S>::handle_item::<V, U, WG>,
            (p, s, item, ranking, now),
            r,
        ),
        item is New,
        charged_as(old(p)@, item->New_cost as int, charge),
        old(s).wf(),
        old(l).wf(),
        old(l)@ == old(s)@.costs,
        old(l).bound() == old(s)@.max_cost,
        call_ensures(AsyncLFUPolicy::<S>::add, (l, item->New_key, charge, ranking), a),
    ensures
        ({
            let key = item->New_key;
            let before = old(p)@.start_ts;
            let after = final(p)@.start_ts;
            &&& if a.added && old(s)@.counting && (before.contains_key(key) || before.dom().len()
                < old(p)@.num_to_keep) {
                after.contains_key(key) && after[key] == now
            } else {
                agree(before, after, key)
            }
            &&& k != key ==> if among(a.victims@, k) && old(s)@.store.contains_key(k) {
                !after.contains_key(k)
            } else {
                agree(before, after, k)
            }
        }),
{
    let _ = lemma_new_value(old(p)@, old(s), item, *ranking, now, a, l, charge, k);
}

/// The four laws above, over the model of the working task.
proof fn lemma_new_value<V, U: UpdateValidator<V>, S: BuildHasher + Clone, WG>(
    p: ProcessorView,
    s: &Shared<V, U, S>,
    item: Item<V, WG>,
    ranking: Ranking,
    now: u128,
    a: Admission,
    l: &mut AsyncLFUPolicy<S>,
    charge: i64,
    k: u64,
) -> (at: Seq<int>)
    requires
        item is New,
        charged_as(p, item->New_cost as int, charge),
        s.wf(),
        old(l).wf(),
        old(l)@ == s@.costs,
        old(l).bound() == s@.max_cost,
        call_ensures(AsyncLFUPolicy::<S>::add, (l, item->New_key, charge, &ranking), a),
    ensures
        ({
            let key = item->New_key;
            let done = crate::processor::apply(p, s@, item, ranking, now);
            let first: int = if a.added {
                0
            } else {
                1
            };
            let victims = a.victims@;
            &&& if a.added {
                let e = done.shared.store[key];
                &&& done.shared.store.contains_key(key)
                &&& e.key == key
                &&& e.conflict == item->New_conflict
                &&& e.value == item->value
                &&& e.expiration == item->expiration
            } else {
                agree(s@.store, done.shared.store, key)
            }
            &&& k != key ==> if among(victims, k) {
                !done.shared.store.contains_key(k)
            } else {
                agree(s@.store, done.shared.store, k)
            }
            &&& same_settings(s@, done.shared)
            &&& same_task(p, done.proc)
            &&& if a.added && s@.counting && (p.start_ts.contains_key(key)
                || p.start_ts.dom().len() < p.num_to_keep) {
                done.proc.start_ts.contains_key(key) && done.proc.start_ts[key] == now
            } else {
                agree(p.start_ts, done.proc.start_ts, key)
            }
            &&& k != key ==> if among(victims, k) && s@.store.contains_key(k) {
                !done.proc.start_ts.contains_key(k)
            } else {
                agree(p.start_ts, done.proc.start_ts, k)
            }
            &&& done.notices.len() == first + at.len()
            &&& !a.added ==> match done.notices[0] {
                Notice::Reject(turned) => {
                    &&& turned.val == item->value
                    &&& turned.key == key
                    &&& turned.conflict == item->New_conflict
                    &&& turned.exp == item->expiration
                    &&& turned.cost == charge
                },
                _ => false,
            }
            &&& forall|i: int|
                0 <= i < at.len() ==> {
                    &&& 0 <= #[trigger] at[i] < victims.len()
                    &&& s@.store.contains_key(victims[at[i]].key)
                    &&& evicts(
                        done.notices[first + i],
                        s@.store[victims[at[i]].key],
                        s@.costs[victims[at[i]].key],
                        p.start_ts,
                        now,
                    )
                }
            &&& forall|i: int, j: int| 0 <= i < j < at.len() ==> #[trigger] at[i] < #[trigger] at[j]
            &&& forall|j: int|
                0 <= j < victims.len() && s@.store.contains_key((#[trigger] victims[j]).key)
                    ==> at.contains(j)
        }),
{
    s.entries_are_filed_and_charged();
    let key = item->New_key;
    let entry = StoreItem {
        key,
        conflict: item->New_conflict,
        value: item->value,
        expiration: item->expiration,
    };
    let done = crate::processor::apply(p, s@, item, ranking, now);
    let victims = a.victims@;
    let kept = crate::processor::records_after_verdict(p, s@, key, a.added, now);
    let store = crate::processor::store_after_verdict(s@.store, entry, a.added);
    if s@.costs.contains_key(key) || charge > s@.max_cost {
        assert(victims.len() == 0);
    } else {
        super::ledger::victims_are_charged(l, key, charge, &ranking, a);
    }
    let at = lemma_evict_all(kept, store, victims, now);
    let e = crate::processor::evict_all(kept, store, victims, now);
    assert(!among(victims, key));
    let _ = e.store.contains_key(k);
    let _ = e.store.contains_key(key);
    let _ = e.proc.start_ts.contains_key(k);
    let _ = e.proc.start_ts.contains_key(key);
    assert forall|i: int| 0 <= i < at.len() implies {
        &&& 0 <= #[trigger] at[i] < victims.len()
        &&& s@.store.contains_key(victims[at[i]].key)
        &&& evicts(
            e.notices[i],
            s@.store[victims[at[i]].key],
            s@.costs[victims[at[i]].key],
            p.start_ts,
            now,
        )
    } by {
        let v = victims[at[i]];
        assert(among(victims, v.key));
        assert(v.key != key);
    }
    assert forall|j: int|
        0 <= j < victims.len() && s@.store.contains_key(
            (#[trigger] victims[j]).key,
        ) implies at.contains(j) by {
        assert(among(victims, victims[j].key));
        assert(store.contains_key(victims[j].key));
    }
    if !a.added {
        assert(forall|i: int| 0 <= i < e.notices.len() ==> done.notices[1 + i] == e.notices[i]);
    }
    at
}

// Other messages

/// An update charges a key that is charged anew: its cost, the cost that was evaluated,
/// and the storage unless that is free. It touches nothing else, and nothing at all
/// where the key is not charged.
pub proof fn updates_charge_anew<V, U: UpdateValidator<V>, S: BuildHasher + Clone, WG>(
    p: &mut CacheProcessor<S>,
    s: &mut Shared<V, U, S>,
    item: Item<V, WG>,
    ranking: &Ranking,
    now: u128,
    r: Reaction<V, WG>,
    k: u64,
)
    requires
        call_ensures(
            CacheProcessor::<S>::handle_item::<V, U, WG>,
            (p, s, item, ranking, now),
            r,
        ),
        item is Update,
    ensures
        ({
            let key = item->Update_key;
            let cost = item->Update_cost + item->external_cost;
            &&& final(s)@.costs.contains_key(key) == old(s)@.costs.contains_key(key)
            &&& old(s)@.costs.contains_key(key) ==> charged_as(
                old(p)@,
                cost,
                final(s)@.costs[key],
            )
            &&& k != key ==> agree(old(s)@.costs, final(s)@.costs, k)
            &&& agree(old(s)@.store, final(s)@.store, k)
            &&& agree(old(p)@.start_ts, final(p)@.start_ts, k)
            &&& same_settings(old(s)@, final(s)@)
            &&& same_task(old(p)@, final(p)@)
            &&& r.notices@.len() == 0
            &&& r.release is None
        }),
{
}

/// A deletion takes the entry of the key out of the store and its charge off the
/// ledger, and tells the callback of its value. Where nothing is stored at the index,
/// a charge that is left there goes. An entry of another key at the index stays, with
/// its charge. Nothing else is touched.
pub proof fn deletions_forget_one_key<V, U: UpdateValidator<V>, S: BuildHasher + Clone, WG>(
    p: &mut CacheProcessor<S>,
    s: &mut Shared<V, U, S>,
    item: Item<V, WG>,
    ranking: &Ranking,
    now: u128,
    r: Reaction<V, WG>,
    k: u64,
)
    requires
        call_ensures(
            CacheProcessor::<S>::handle_item::<V, U, WG>,
            (p, s, item, ranking, now),
            r,
        ),
        item is Delete,
    ensures
        ({
            let key = item->Delete_key;
            let stored = old(s)@.store.contains_key(key);
            let own = stored && matching(old(s)@.store[key], item->Delete_conflict);
            &&& own ==> {
                &&& !final(s)@.store.contains_key(key)
                &&& !final(s)@.costs.contains_key(key)
                &&& r.notices@.len() == 1
                &&& r.notices@[0] == Notice::Exit(old(s)@.store[key].value)
            }
            &&& !own ==> {
                &&& agree(old(s)@.store, final(s)@.store, key)
                &&& r.notices@.len() == 0
            }
            &&& !stored ==> !final(s)@.costs.contains_key(key)
            &&& stored && !own ==> agree(old(s)@.costs, final(s)@.costs, key)
            &&& k != key ==> agree(old(s)@.store, final(s)@.store, k) && agree(
                old(s)@.costs,
                final(s)@.costs,
                k,
            )
            &&& agree(old(p)@.start_ts, final(p)@.start_ts, k)
            &&& same_settings(old(s)@, final(s)@)
            &&& same_task(old(p)@, final(p)@)
            &&& r.release is None
        }),
{
}

/// A waiting message wakes its waiter and changes nothing.
pub proof fn waiting_changes_nothing<V, U: UpdateValidator<V>, S: BuildHasher + Clone, WG>(
    p: &mut CacheProcessor<S>,
    s: &mut Shared<V, U, S>,
    item: Item<V, WG>,
    ranking: &Ranking,
    now: u128,
    r: Reaction<V, WG>,
    k: u64,
)
    requires
        call_ensures(
            CacheProcessor::<S>::handle_item::<V, U, WG>,
            (p, s, item, ranking, now),
            r,
        ),
        item is Wait,
    ensures
        unchanged(old(p)@, old(s)@, final(p)@, final(s)@, k),
        r.notices@.len() == 0,
        r.release == Some(item->Wait_0),
{
}

/// Messages never change the parts of the shared state: validator, hasher, number of
/// counters, and whether metrics are collected.
pub proof fn messages_keep_the_parts<V, U: UpdateValidator<V>, S: BuildHasher + Clone, WG>(
    p: &mut CacheProcessor<S>,
    s: &mut Shared<V, U, S>,
    item: Item<V, WG>,
    ranking: &Ranking,
    now: u128,
    r: Reaction<V, WG>,
)
    requires
        call_ensures(
            CacheProcessor::<S>::handle_item::<V, U, WG>,
            (p, s, item, ranking, now),
            r,
        ),
    ensures
        final(s).validator() == old(s).validator(),
        final(s).hash_builder() == old(s).hash_builder(),
        final(s).counters() == old(s).counters(),
        final(s).collecting() == final(s)@.counting,
        final(s)@.counting == old(s)@.counting,
        forall|k: u64| #[trigger]
            final(s)@.store.contains_key(k) ==> final(s)@.costs.contains_key(k),
        final(p)@.start_ts.dom().len() <= final(p)@.num_to_keep,
{
    final(s).entries_are_filed_and_charged();
    final(p).records_are_bounded();
}

/// What is received from the insert buffer, in whatever way the task comes to it, is
/// handled as a message is. Where nothing is, that is an error, and nothing changes.
pub proof fn received_messages_are_handled<V, U: UpdateValidator<V>, S: BuildHasher + Clone, WG>(
    p: &mut CacheProcessor<S>,
    s: &mut Shared<V, U, S>,
    p1: &mut CacheProcessor<S>,
    s1: &mut Shared<V, U, S>,
    p2: &mut CacheProcessor<S>,
    s2: &mut Shared<V, U, S>,
    item: Item<V, WG>,
    ranking: &Ranking,
    now: u128,
    r: Reaction<V, WG>,
    r1: Result<Reaction<V, WG>, CacheError>,
    r2: Result<Step<V, WG>, CacheError>,
)
    requires
        old(p1)@ == old(p)@ && old(p2)@ == old(p)@,
        old(s1)@ == old(s)@ && old(s2)@ == old(s)@,
        call_ensures(
            CacheProcessor::<S>::handle_item::<V, U, WG>,
            (p, s, item, ranking, now),
            r,
        ),
        call_ensures(
            CacheProcessor::<S>::handle_insert_event::<V, U, WG>,
            (p1, s1, Some(item), ranking, now),
            r1,
        ),
        call_ensures(
            CacheProcessor::<S>::step::<V, U, WG>,
            (p2, s2, Event::Received(Some(item)), ranking, now),
            r2,
        ),
    ensures
        final(p1)@ == final(p)@ && final(p2)@ == final(p)@,
        final(s1)@ == final(s)@ && final(s2)@ == final(s)@,
        r1 matches Ok(x) && x.notices@ == r.notices@ && x.release == r.release,
        r2 matches Ok(Step::Handled(x)) && x.notices@ == r.notices@ && x.release == r.release,
{
}

/// Where the insert buffer will give no message any more, the working task ends with an
/// error and changes nothing. A signal to clear out or to stop changes nothing either:
/// it leads to clearing out, to going on, or to the end.
pub proof fn signals_change_nothing<V, U: UpdateValidator<V>, S: BuildHasher + Clone, WG>(
    p: &mut CacheProcessor<S>,
    s: &mut Shared<V, U, S>,
    p1: &mut CacheProcessor<S>,
    s1: &mut Shared<V, U, S>,
    event: Event<V, WG>,
    ranking: &Ranking,
    now: u128,
    r: Result<Step<V, WG>, CacheError>,
    r1: Result<Reaction<V, WG>, CacheError>,
    k: u64,
)
    requires
        call_ensures(CacheProcessor::<S>::step::<V, U, WG>, (p, s, event, ranking, now), r),
        call_ensures(
            CacheProcessor::<S>::handle_insert_event::<V, U, WG>,
            (p1, s1, None, ranking, now),
            r1,
        ),
        !(event is Tick),
        event matches Event::Received(received) ==> received is None,
    ensures
        unchanged(old(p)@, old(s)@, final(p)@, final(s)@, k),
        unchanged(old(p1)@, old(s1)@, final(p1)@, final(s1)@, k),
        match r1 {
            Err(CacheError::RecvError(text)) => text@ == "fail to receive msg from insert buffer"@,
            _ => false,
        },
        match event {
            Event::Received(_) => match r {
                Err(CacheError::RecvError(text)) => text@
                    == "fail to receive msg from insert buffer"@,
                _ => false,
            },
            Event::Clear(Some(_)) => r matches Ok(Step::Clean),
            Event::Clear(None) => r matches Ok(Step::Pass),
            Event::Stop => r matches Ok(Step::Stopped),
            Event::Tick => true,
        },
{
}

/// Whatever wakes the working task, the parts of the shared state stay what they were,
/// every stored entry is charged, and no more is on record than is to be kept.
pub proof fn events_keep_the_parts<V, U: UpdateValidator<V>, S: BuildHasher + Clone, WG>(
    p: &mut CacheProcessor<S>,
    s: &mut Shared<V, U, S>,
    p1: &mut CacheProcessor<S>,
    s1: &mut Shared<V, U, S>,
    event: Event<V, WG>,
    received: Option<Item<V, WG>>,
    ranking: &Ranking,
    now: u128,
    r: Result<Step<V, WG>, CacheError>,
    r1: Result<Reaction<V, WG>, CacheError>,
)
    requires
        call_ensures(CacheProcessor::<S>::step::<V, U, WG>, (p, s, event, ranking, now), r),
        call_ensures(
            CacheProcessor::<S>::handle_insert_event::<V, U, WG>,
            (p1, s1, received, ranking, now),
            r1,
        ),
    ensures
        final(s).validator() == old(s).validator(),
        final(s).hash_builder() == old(s).hash_builder(),
        final(s).counters() == old(s).counters(),
        final(s).collecting() == final(s)@.counting,
        final(s1).validator() == old(s1).validator(),
        final(s1).hash_builder() == old(s1).hash_builder(),
        final(s1).counters() == old(s1).counters(),
        final(s1).collecting() == final(s1)@.counting,
        forall|k: u64| #[trigger]
            final(s)@.store.contains_key(k) ==> final(s)@.costs.contains_key(k),
        forall|k: u64| #[trigger]
            final(s1)@.store.contains_key(k) ==> final(s1)@.costs.contains_key(k),
        final(p)@.start_ts.dom().len() <= final(p)@.num_to_keep,
        final(p1)@.start_ts.dom().len() <= final(p1)@.num_to_keep,
{
    final(s).entries_are_filed_and_charged();
    final(s1).entries_are_filed_and_charged();
    final(p).records_are_bounded();
    final(p1).records_are_bounded();
}

/// A ranking is wanted exactly for a new value under a key that is not charged, whose
/// charge is within the maximum but does not fit. Where none is wanted, two tasks in
/// the same state do the same whatever rankings they are given.
pub proof fn rankings_are_wanted_where_room_lacks<
    V,
    U: UpdateValidator<V>,
    S: BuildHasher + Clone,
    WG,
>(
    p: &mut CacheProcessor<S>,
    s: &mut Shared<V, U, S>,
    p1: &mut CacheProcessor<S>,
    s1: &mut Shared<V, U, S>,
    item: Item<V, WG>,
    ranking: &Ranking,
    other: &Ranking,
    now: u128,
    r: Reaction<V, WG>,
    r1: Reaction<V, WG>,
    charge: i64,
    wanted: bool,
)
    requires
        old(p1)@ == old(p)@ && old(s1)@ == old(s)@,
        call_ensures(
            CacheProcessor::<S>::wants_ranking::<V, U, WG>,
            (old(p), old(s), &item),
            wanted,
        ),
        call_ensures(
            CacheProcessor::<S>::handle_item::<V, U, WG>,
            (p, s, item, ranking, now),
            r,
        ),
        call_ensures(
            CacheProcessor::<S>::handle_item::<V, U, WG>,
            (p1, s1, item, other, now),
            r1,
        ),
        item is New ==> charged_as(old(p)@, item->New_cost as int, charge),
    ensures
        wanted <==> item is New && !old(s)@.costs.contains_key(item->New_key) && charge
            <= old(s)@.max_cost && crate::policy::total(old(s)@.costs) + charge
            > old(s)@.max_cost,
        !wanted ==> {
            &&& final(p)@ == final(p1)@
            &&& final(s)@ == final(s1)@
            &&& r.notices@ == r1.notices@
            &&& r.release == r1.release
        },
{
}

// Cleanups

/// Whether `s1` and `p1` are what a cleanup at `now` leaves of a key: everything of an
/// entry whose time to live has passed is gone, its charge and its record with it.
/// Anything else is as it was.
pub open spec fn cleaned_up<V>(
    p0: ProcessorView,
    s0: SharedView<V>,
    p1: ProcessorView,
    s1: SharedView<V>,
    now: u128,
    k: u64,
) -> bool {
    &&& same_task(p0, p1)
    &&& same_settings(s0, s1)
    &&& if s0.store.contains_key(k) && passed(s0.store[k].expiration, now) {
        &&& !s1.store.contains_key(k)
        &&& !s1.costs.contains_key(k)
        &&& !p1.start_ts.contains_key(k)
    } else {
        &&& agree(s0.store, s1.store, k)
        &&& agree(s0.costs, s1.costs, k)
        &&& agree(p0.start_ts, p1.start_ts, k)
    }
}

/// Whether `notices` tell of every entry whose time to live has passed at `now`, of
/// each once and of nothing else. `keys` says of which key each of them tells.
pub open spec fn tell_of_passed<V>(
    p0: ProcessorView,
    s0: SharedView<V>,
    now: u128,
    notices: Seq<Notice<V>>,
    keys: Seq<u64>,
) -> bool {
    &&& keys.len() == notices.len()
    &&& forall|i: int|
        0 <= i < keys.len() ==> {
            &&& s0.store.contains_key(#[trigger] keys[i])
            &&& passed(s0.store[keys[i]].expiration, now)
            &&& evicts(notices[i], s0.store[keys[i]], s0.costs[keys[i]], p0.start_ts, now)
        }
    &&& forall|i: int, j: int| 0 <= i < j < keys.len() ==> #[trigger] keys[i] != #[trigger] keys[j]
    &&& forall|k: u64| #[trigger]
        s0.store.contains_key(k) && passed(s0.store[k].expiration, now) ==> keys.contains(k)
}

/// A cleanup takes everything of what expired out of the cache, whether or not metrics
/// are counted, leaves everything else, and tells the callback of each entry once. The
/// sum of the charges falls by what the expired entries were charged.
pub proof fn cleanups_free_what_expired<V, U: UpdateValidator<V>, S: BuildHasher + Clone>(
    p: &mut CacheProcessor<S>,
    s: &mut Shared<V, U, S>,
    now: u128,
    r: Result<Vec<Notice<V>>, CacheError>,
    k: u64,
) -> (keys: Seq<u64>)
    requires
        call_ensures(
            CacheProcessor::<S>::handle_cleanup_event::<V, U>,
            (p, s, now),
            r,
        ),
        old(s).wf(),
    ensures
        r is Ok,
        cleaned_up(old(p)@, old(s)@, final(p)@, final(s)@, now, k),
        tell_of_passed(old(p)@, old(s)@, now, r->Ok_0@, keys),
        crate::policy::total(final(s)@.costs) == crate::policy::total(old(s)@.costs)
            - crate::policy::total(old(s)@.costs.restrict(keys.to_set())),
        final(s).validator() == old(s).validator(),
        final(s).hash_builder() == old(s).hash_builder(),
        final(s).counters() == old(s).counters(),
{
    s.entries_are_filed_and_charged();
    let keys = lemma_tells(old(p)@, old(s)@, now, r->Ok_0@);
    let gone = crate::processor::expired_keys(old(s)@.store, now);
    assert(gone.contains(k) <==> old(s)@.store.contains_key(k) && passed(
        old(s)@.store[k].expiration,
        now,
    ));
    assert(keys.to_set() =~= gone) by {
        assert forall|x: u64| #[trigger] keys.contains(x) implies gone.contains(x) by {
            let i = choose|i: int| 0 <= i < keys.len() && keys[i] == x;
            assert(keys[i] == x);
        }
        assert forall|x: u64| #[trigger] gone.contains(x) implies keys.contains(x) by {
            assert(old(s)@.store.contains_key(x));
        }
    }
    super::ledger::sums_fall_into_parts(old(s)@.costs, gone);
    keys
}

/// On the cleanup timer the working task does a cleanup, and sets the timer anew.
pub proof fn ticks_clean_up<V, U: UpdateValidator<V>, S: BuildHasher + Clone, WG>(
    p: &mut CacheProcessor<S>,
    s: &mut Shared<V, U, S>,
    ranking: &Ranking,
    now: u128,
    r: Result<Step<V, WG>, CacheError>,
    k: u64,
) -> (keys: Seq<u64>)
    requires
        call_ensures(
            CacheProcessor::<S>::step::<V, U, WG>,
            (p, s, Event::<V, WG>::Tick, ranking, now),
            r,
        ),
        old(s).wf(),
    ensures
        cleaned_up(old(p)@, old(s)@, final(p)@, final(s)@, now, k),
        match r {
            Ok(Step::Swept { notices, next_tick }) => {
                &&& tell_of_passed(old(p)@, old(s)@, now, notices@, keys)
                &&& next_tick == old(p)@.cleanup_duration
            },
            _ => false,
        },
{
    s.entries_are_filed_and_charged();
    let gone = crate::processor::expired_keys(old(s)@.store, now);
    assert(gone.contains(k) <==> old(s)@.store.contains_key(k) && passed(
        old(s)@.store[k].expiration,
        now,
    ));
    match r {
        Ok(Step::Swept { notices, next_tick }) => lemma_tells(old(p)@, old(s)@, now, notices@),
        _ => Seq::empty(),
    }
}

proof fn lemma_tells<V>(
    p0: ProcessorView,
    s0: SharedView<V>,
    now: u128,
    notices: Seq<Notice<V>>,
) -> (keys: Seq<u64>)
    requires
        crate::processor::tells_of_expired(p0, s0, now, notices),
        forall|k: u64| #[trigger] s0.store.contains_key(k) ==> s0.store[k].key == k,
    ensures
        tell_of_passed(p0, s0, now, notices, keys),
{
    let entries = choose|entries: Seq<StoreItem<V>>| #[trigger]
        crate::store::lists_expired(s0.store, now, entries) && notices
            == crate::processor::expiry_notices(p0, s0.costs, entries, now);
    let keys = entries.map_values(|e: StoreItem<V>| e.key);
    assert forall|i: int| 0 <= i < keys.len() implies {
        &&& s0.store.contains_key(#[trigger] keys[i])
        &&& passed(s0.store[keys[i]].expiration, now)
        &&& evicts(notices[i], s0.store[keys[i]], s0.costs[keys[i]], p0.start_ts, now)
    } by {
        assert(keys[i] == entries[i].key);
    }
    assert forall|i: int, j: int| 0 <= i < j < keys.len() implies #[trigger] keys[i]
        != #[trigger] keys[j] by {
        assert(entries[i].key != entries[j].key);
    }
    assert forall|k: u64| #[trigger]
        s0.store.contains_key(k) && passed(s0.store[k].expiration, now) implies keys.contains(
        k,
    ) by {
        assert(entries.contains(s0.store[k]));
        let i = choose|i: int| 0 <= i < entries.len() && entries[i] == s0.store[k];
        assert(keys[i] == k);
    }
    keys
}

/// Of entries that left the store the records and the charges go, and the callback is
/// told of them in the order in which they are given. No other record or charge is
/// touched. Where there is a reason instead of entries, it comes back, and nothing
/// changes.
pub proof fn expired_entries_are_forgotten_in_order<V, S: BuildHasher + Clone>(
    p: &mut CacheProcessor<S>,
    l: &mut AsyncLFUPolicy<S>,
    p1: &mut CacheProcessor<S>,
    l1: &mut AsyncLFUPolicy<S>,
    p2: &mut CacheProcessor<S>,
    l2: &mut AsyncLFUPolicy<S>,
    victims: Vec<StoreItem<V>>,
    reason: CacheError,
    now: u128,
    r: Vec<Notice<V>>,
    r1: Result<Vec<Notice<V>>, CacheError>,
    r2: Result<Vec<Notice<V>>, CacheError>,
    k: u64,
)
    requires
        old(p1)@ == old(p)@ && old(l1)@ == old(l)@,
        call_ensures(CacheProcessor::<S>::evict_expired::<V>, (p, l, victims, now), r),
        call_ensures(CacheProcessor::<S>::handle_cleaned::<V>, (p1, l1, Ok(victims), now), r1),
        call_ensures(CacheProcessor::<S>::handle_cleaned::<V>, (p2, l2, Err(reason), now), r2),
    ensures
        r@.len() == victims@.len(),
        forall|i: int|
            0 <= i < victims@.len() ==> evicts(
                #[trigger] r@[i],
                victims@[i],
                old(l)@[victims@[i].key],
                old(p)@.start_ts,
                now,
            ),
        if exists|i: int| 0 <= i < victims@.len() && (#[trigger] victims@[i]).key == k {
            !final(l)@.contains_key(k) && !final(p)@.start_ts.contains_key(k)
        } else {
            agree(old(l)@, final(l)@, k) && agree(old(p)@.start_ts, final(p)@.start_ts, k)
        },
        same_task(old(p)@, final(p)@),
        final(l).bound() == old(l).bound(),
        final(l).counters() == old(l).counters(),
        final(l).collecting() == old(l).collecting(),
        r1 matches Ok(x) && x@ == r@,
        final(p1)@ == final(p)@,
        final(l1)@ == final(l)@,
        r2 == Err::<Vec<Notice<V>>, CacheError>(reason),
        agree(old(l2)@, final(l2)@, k),
        agree(old(p2)@.start_ts, final(p2)@.start_ts, k),
        same_task(old(p2)@, final(p2)@),
{
    let gone = crate::store::entry_keys(victims@);
    assert(gone.contains(k) <==> exists|i: int|
        0 <= i < victims@.len() && (#[trigger] victims@[i]).key == k);
}

// Beginning and end

/// A new task has nothing on record and keeps what it was given. An item takes up what
/// an entry of the store does.
pub proof fn tasks_start_without_records<V, U: UpdateValidator<V>, S: BuildHasher + Clone>(
    num_to_keep: usize,
    ignore_internal_cost: bool,
    cleanup_duration: u128,
    s: &Shared<V, U, S>,
    r: CacheProcessor<S>,
    duration: u128,
    k: u64,
)
    requires
        call_ensures(
            CacheProcessor::<S>::new::<V, U>,
            (num_to_keep, ignore_internal_cost, cleanup_duration, s),
            r,
        ),
        call_ensures(CacheProcessor::<S>::cleanup_duration, (&r,), duration),
    ensures
        !r@.start_ts.contains_key(k),
        r@.num_to_keep == num_to_keep,
        r@.ignore_internal_cost == ignore_internal_cost,
        r@.item_size == vstd::layout::size_of::<StoreItem<V>>(),
        r@.cleanup_duration == cleanup_duration,
        duration == cleanup_duration,
{
}

/// Clearing out the insert buffer evicts every new value with all that came with it, as
/// one that was never let in; wakes every waiter; does nothing with any other message;
/// and ends where there is none.
pub proof fn clearing_out_empties_the_buffer<V, WG>(
    cleaner: &CacheCleaner,
    received: Option<Item<V, WG>>,
    r: CleanStep<V, WG>,
)
    requires
        call_ensures(CacheCleaner::clean::<V, WG>, (cleaner, received), r),
    ensures
        r is Done <==> received is None,
        match received {
            Some(Item::New { key, conflict, cost, value, expiration }) => {
                let told = r->Continue_0.notices@;
                &&& told.len() == 1
                &&& evicts(
                    told[0],
                    StoreItem { key, conflict, value, expiration },
                    cost,
                    Map::<u64, u128>::empty(),
                    0,
                )
                &&& r->Continue_0.release is None
            },
            Some(Item::Wait(wg)) => {
                &&& r->Continue_0.notices@.len() == 0
                &&& r->Continue_0.release == Some(wg)
            },
            Some(_) => {
                &&& r->Continue_0.notices@.len() == 0
                &&& r->Continue_0.release is None
            },
            None => true,
        },
{
}

/// Clearing the shared state forgets every entry, every charge and every count, and
/// keeps the settings and parts.
pub proof fn clearing_keeps_settings_and_parts<V, U: UpdateValidator<V>, S: BuildHasher + Clone>(
    s: &mut Shared<V, U, S>,
    k: u64,
    i: int,
)
    requires
        call_ensures(Shared::<V, U, S>::clear, (s,), ()),
        0 <= i < 256,
    ensures
        !final(s)@.store.contains_key(k),
        !final(s)@.costs.contains_key(k),
        final(s)@.dropped.len() == 256,
        final(s)@.dropped[i] == 0,
        final(s)@.max_cost == old(s)@.max_cost,
        final(s)@.counting == old(s)@.counting,
        final(s).validator() == old(s).validator(),
        final(s).hash_builder() == old(s).hash_builder(),
        final(s).counters() == old(s).counters(),
{
}

} // verus!
