//! The working task: it takes the messages of the insert buffer one by one.

use std::collections::HashMap;
use std::hash::BuildHasher;
use vstd::prelude::*;
use crate::error::CacheError;
use crate::item::{CrateItem, Item, Notice};
use crate::policy::{AdmissionView, AsyncLFUPolicy, PolicyPair, Ranking};
use crate::shared::{Shared, SharedView};
use crate::store::{empty_map, ShardedMap, StoreItem};
use crate::traits::UpdateValidator;

verus! {

/// What the working task keeps to itself.
#[verifier::reject_recursive_types(S)]
pub struct CacheProcessor<S> {
    start_ts: HashMap<u64, u128, S>,
    num_to_keep: usize,
    ignore_internal_cost: bool,
    item_size: usize,
    cleanup_duration: u128,
}

/// What the working task keeps: when keys were let in, how many of these moments
/// it keeps, whether the storage of an item itself is free of charge, how large
/// it is, and the nanoseconds between two cleanups.
#[verifier::ext_equal]
pub struct ProcessorView {
    pub start_ts: Map<u64, u128>,
    pub num_to_keep: nat,
    pub ignore_internal_cost: bool,
    pub item_size: nat,
    pub cleanup_duration: u128,
}

/// The closest charge to `x`.
pub open spec fn clamp(x: int) -> i64 {
    if x > i64::MAX {
        i64::MAX
    } else if x < i64::MIN {
        i64::MIN
    } else {
        x as i64
    }
}

impl ProcessorView {
    /// What an item of this cost is charged.
    pub open spec fn charged(self, cost: int) -> i64 {
        clamp(
            cost + if self.ignore_internal_cost {
                0
            } else {
                self.item_size as int
            },
        )
    }

    /// Records that `key` was let in at `now`, if there is room for the record.
    pub open spec fn recorded(self, key: u64, now: u128) -> Self {
        if self.start_ts.contains_key(key) || self.start_ts.len() < self.num_to_keep {
            ProcessorView { start_ts: self.start_ts.insert(key, now), ..self }
        } else {
            self
        }
    }

    /// How long ago `key` was let in, where that is on record.
    pub open spec fn age(self, key: u64, now: u128) -> Option<u128> {
        if self.start_ts.contains_key(key) {
            Some(
                if now >= self.start_ts[key] {
                    (now - self.start_ts[key]) as u128
                } else {
                    0
                },
            )
        } else {
            None
        }
    }

    /// Nothing on record of `key`.
    pub open spec fn unrecorded(self, key: u64) -> Self {
        ProcessorView { start_ts: self.start_ts.remove(key), ..self }
    }

    /// Nothing on record of any of `keys`.
    pub open spec fn unrecorded_all(self, keys: Set<u64>) -> Self {
        ProcessorView { start_ts: self.start_ts.remove_keys(keys), ..self }
    }
}

/// A stored entry on its way out.
pub open spec fn leaving<V>(e: StoreItem<V>, cost: i64) -> CrateItem<V> {
    CrateItem { val: e.value, key: e.key, conflict: e.conflict, cost, exp: e.expiration }
}

/// The records and the store after evictions, and what the callback is to be told.
#[verifier::ext_equal]
pub struct Eviction<V> {
    pub proc: ProcessorView,
    pub store: Map<u64, StoreItem<V>>,
    pub notices: Seq<Notice<V>>,
}

/// `victims` leave the store, first to last. A victim that is no longer stored
/// leaves no trace.
pub open spec fn evict_all<V>(
    proc: ProcessorView,
    store: Map<u64, StoreItem<V>>,
    victims: Seq<PolicyPair>,
    now: u128,
) -> Eviction<V>
    decreases victims.len(),
{
    if victims.len() == 0 {
        Eviction { proc, store, notices: Seq::empty() }
    } else {
        let e = evict_all(proc, store, victims.drop_last(), now);
        let v = victims.last();
        if e.store.contains_key(v.key) {
            Eviction {
                proc: e.proc.unrecorded(v.key),
                store: e.store.remove(v.key),
                notices: e.notices.push(
                    Notice::Evict {
                        item: leaving(e.store[v.key], v.cost),
                        age: e.proc.age(v.key, now),
                    },
                ),
            }
        } else {
            e
        }
    }
}

/// Exactly the victims leave the store.
pub proof fn evict_all_removes_victims<V>(
    proc: ProcessorView,
    store: Map<u64, StoreItem<V>>,
    victims: Seq<PolicyPair>,
    now: u128,
)
    ensures
        evict_all(proc, store, victims, now).store == store.remove_keys(
            crate::policy::victim_keys(victims),
        ),
    decreases victims.len(),
{
    let after = evict_all(proc, store, victims, now).store;
    let gone = crate::policy::victim_keys(victims);
    if victims.len() > 0 {
        let init = victims.drop_last();
        evict_all_removes_victims(proc, store, init, now);
        assert forall|k: u64| #[trigger] gone.contains(k) <==> (k == victims.last().key
            || crate::policy::victim_keys(init).contains(k)) by {
            assert(victims[victims.len() - 1].key == victims.last().key);
            if crate::policy::victim_keys(init).contains(k) {
                let i = choose|i: int| 0 <= i < init.len() && (#[trigger] init[i]).key == k;
                assert(victims[i].key == k);
            }
            if gone.contains(k) && k != victims.last().key {
                let i = choose|i: int| 0 <= i < victims.len() && (#[trigger] victims[i]).key == k;
                assert(init[i].key == k);
            }
        }
    }
    assert(after =~= store.remove_keys(gone));
}

/// What a message does: the states after it, what the callback is to be told,
/// and who is to be woken.
#[verifier::ext_equal]
#[verifier::reject_recursive_types(V)]
pub struct Applied<V, WG> {
    pub proc: ProcessorView,
    pub shared: SharedView<V>,
    pub notices: Seq<Notice<V>>,
    pub release: Option<WG>,
}

/// The verdict on an item that is to be let in under `key` at this cost.
pub open spec fn verdict<V>(
    proc: ProcessorView,
    shared: SharedView<V>,
    key: u64,
    cost: i64,
    ranking: Ranking,
) -> AdmissionView {
    crate::policy::admission(
        shared.costs,
        shared.max_cost as int,
        key,
        proc.charged(cost as int),
        ranking.incoming_hits,
        ranking.candidates@,
    )
}

/// The store once an item is let in or turned away, before any victim leaves.
pub open spec fn store_after_verdict<V>(
    store: Map<u64, StoreItem<V>>,
    item: StoreItem<V>,
    added: bool,
) -> Map<u64, StoreItem<V>> {
    if added {
        store.insert(item.key, item)
    } else {
        store
    }
}

/// The records once an item is let in or turned away, before any victim leaves.
/// Only where the counters count is it on record when the item was let in.
pub open spec fn records_after_verdict<V>(
    proc: ProcessorView,
    shared: SharedView<V>,
    key: u64,
    added: bool,
    now: u128,
) -> ProcessorView {
    if added && shared.counting {
        proc.recorded(key, now)
    } else {
        proc
    }
}

/// What the victims of an item that is let in or turned away leave behind.
pub open spec fn settled<V>(
    proc: ProcessorView,
    shared: SharedView<V>,
    item: StoreItem<V>,
    cost: i64,
    ranking: Ranking,
    now: u128,
) -> Eviction<V> {
    let a = verdict(proc, shared, item.key, cost, ranking);
    evict_all(
        records_after_verdict(proc, shared, item.key, a.added, now),
        store_after_verdict(shared.store, item, a.added),
        a.victims,
        now,
    )
}

/// A new value: it is admitted or turned away, and victims make room for it.
pub open spec fn apply_new<V, WG>(
    proc: ProcessorView,
    shared: SharedView<V>,
    item: StoreItem<V>,
    cost: i64,
    ranking: Ranking,
    now: u128,
) -> Applied<V, WG> {
    let a = verdict(proc, shared, item.key, cost, ranking);
    let e = settled(proc, shared, item, cost, ranking, now);
    Applied {
        proc: e.proc,
        shared: SharedView { store: e.store, costs: a.costs, ..shared },
        notices: if a.added {
            e.notices
        } else {
            seq![Notice::Reject(leaving(item, proc.charged(cost as int)))] + e.notices
        },
        release: None,
    }
}

/// What one message does.
pub open spec fn apply<V, WG>(
    proc: ProcessorView,
    shared: SharedView<V>,
    item: Item<V, WG>,
    ranking: Ranking,
    now: u128,
) -> Applied<V, WG> {
    match item {
        Item::New { key, conflict, cost, value, expiration } => apply_new(
            proc,
            shared,
            StoreItem { key, conflict, value, expiration },
            cost,
            ranking,
            now,
        ),
        Item::Update { key, cost, external_cost } => Applied {
            proc,
            shared: if shared.costs.contains_key(key) {
                SharedView {
                    costs: shared.costs.insert(key, proc.charged(cost + external_cost)),
                    ..shared
                }
            } else {
                shared
            },
            notices: Seq::empty(),
            release: None,
        },
        Item::Delete { key, conflict } => if !shared.store.contains_key(key) {
            Applied {
                proc,
                shared: SharedView { costs: shared.costs.remove(key), ..shared },
                notices: Seq::empty(),
                release: None,
            }
        } else if crate::store::holds(shared.store, key, conflict) {
            Applied {
                proc,
                shared: SharedView {
                    store: shared.store.remove(key),
                    costs: shared.costs.remove(key),
                    ..shared
                },
                notices: seq![Notice::Exit(shared.store[key].value)],
                release: None,
            }
        } else {
            Applied { proc, shared, notices: Seq::empty(), release: None }
        },
        Item::Wait(wg) => Applied { proc, shared, notices: Seq::empty(), release: Some(wg) },
    }
}

/// Whether what a message does depends on a ranking: it brings a new value that
/// others have to make room for.
pub open spec fn wants_ranking<V, WG>(
    proc: ProcessorView,
    shared: SharedView<V>,
    item: Item<V, WG>,
) -> bool {
    &&& item is New
    &&& crate::policy::needs_room(
        shared.costs,
        shared.max_cost as int,
        item->New_key,
        proc.charged(item->New_cost as int),
    )
}

/// The keys of the entries that are expired at `now`.
pub open spec fn expired_keys<V>(store: Map<u64, StoreItem<V>>, now: u128) -> Set<u64> {
    Set::new(|k: u64| store.contains_key(k) && store[k].expiration.expired_at(now))
}

/// What the callback is told of an entry that expired.
pub open spec fn expiry_notice<V>(
    proc: ProcessorView,
    shared: SharedView<V>,
    k: u64,
    now: u128,
) -> Notice<V> {
    Notice::Evict { item: leaving(shared.store[k], shared.costs[k]), age: proc.age(k, now) }
}

/// What the callback is told of entries that leave in this order, where `costs`
/// is what they are charged.
pub open spec fn expiry_notices<V>(
    proc: ProcessorView,
    costs: Map<u64, i64>,
    entries: Seq<StoreItem<V>>,
    now: u128,
) -> Seq<Notice<V>> {
    entries.map_values(
        |e: StoreItem<V>|
            Notice::Evict { item: leaving(e, costs[e.key]), age: proc.age(e.key, now) },
    )
}

/// Whether `notices` tell of the entries that are expired at `now`: of each of
/// them once, in some order, and of nothing else.
pub open spec fn tells_of_expired<V>(
    proc: ProcessorView,
    shared: SharedView<V>,
    now: u128,
    notices: Seq<Notice<V>>,
) -> bool {
    &&& notices.len() == expired_keys(shared.store, now).len()
    &&& notices.no_duplicates()
    &&& notices.to_set() == expired_keys(shared.store, now).map(
        |k: u64| expiry_notice(proc, shared, k, now),
    )
    &&& exists|entries: Seq<StoreItem<V>>| #[trigger]
        crate::store::lists_expired(shared.store, now, entries) && notices == expiry_notices(
            proc,
            shared.costs,
            entries,
            now,
        )
}

/// A list of the expired entries has the expired keys, and tells of each once.
proof fn lemma_tells_of_expired<V>(
    proc: ProcessorView,
    shared: SharedView<V>,
    now: u128,
    entries: Seq<StoreItem<V>>,
)
    requires
        crate::store::lists_expired(shared.store, now, entries),
    ensures
        crate::store::entry_keys(entries) == expired_keys(shared.store, now),
        tells_of_expired(
            proc,
            shared,
            now,
            expiry_notices(proc, shared.costs, entries, now),
        ),
{
    let gone = expired_keys(shared.store, now);
    let keys = entries.map_values(|e: StoreItem<V>| e.key);
    let notices = expiry_notices(proc, shared.costs, entries, now);
    let told = |k: u64| expiry_notice(proc, shared, k, now);
    assert forall|k: u64| #[trigger] gone.contains(k) implies keys.contains(k)
        && crate::store::entry_keys(entries).contains(k) by {
        assert(entries.contains(shared.store[k]));
        let i = choose|i: int| 0 <= i < entries.len() && entries[i] == shared.store[k];
        assert(keys[i] == k && entries[i].key == k);
    }
    assert(crate::store::entry_keys(entries) =~= gone);
    assert(keys.to_set() =~= gone);
    assert(keys.no_duplicates());
    keys.unique_seq_to_set();
    assert forall|n: Notice<V>| #[trigger] gone.map(told).contains(n) implies notices.contains(
        n,
    ) by {
        let k = choose|k: u64| gone.contains(k) && n == told(k);
        assert(keys.contains(k));
        let i = choose|i: int| 0 <= i < keys.len() && keys[i] == k;
        assert(notices[i] == n);
    }
    assert forall|n: Notice<V>| #[trigger] notices.contains(n) implies gone.map(told).contains(
        n,
    ) by {
        let i = choose|i: int| 0 <= i < notices.len() && notices[i] == n;
        assert(gone.contains(entries[i].key));
        assert(told(entries[i].key) == n);
    }
    assert(notices.to_set() =~= gone.map(told));
    assert(notices.no_duplicates()) by {
        assert forall|i: int, j: int| 0 <= i < j < notices.len() implies notices[i]
            != notices[j] by {
            assert(entries[i].key != entries[j].key);
        }
    }
}

/// The shared state without the entries that are expired at `now`.
pub open spec fn swept<V>(shared: SharedView<V>, now: u128) -> SharedView<V> {
    SharedView {
        store: crate::store::fresh(shared.store, now),
        costs: shared.costs.remove_keys(expired_keys(shared.store, now)),
        ..shared
    }
}

/// What handling a message asks of the caller: to tell the callback, in order,
/// and to wake a waiter.
pub struct Reaction<V, WG> {
    pub notices: Vec<Notice<V>>,
    pub release: Option<WG>,
}

impl<S> View for CacheProcessor<S> {
    type V = ProcessorView;

    closed spec fn view(&self) -> ProcessorView {
        ProcessorView {
            start_ts: self.start_ts@,
            num_to_keep: self.num_to_keep as nat,
            ignore_internal_cost: self.ignore_internal_cost,
            item_size: self.item_size as nat,
            cleanup_duration: self.cleanup_duration,
        }
    }
}

impl<S: BuildHasher + Clone> CacheProcessor<S> {
    /// No more moments are on record than are to be kept.
    pub closed spec fn wf(&self) -> bool {
        &&& vstd::std_specs::hash::builds_valid_hashers::<S>()
        &&& self.start_ts@.dom().finite()
        &&& self.start_ts@.len() <= self.num_to_keep
    }

    /// In a well-formed task there are finitely many moments on record, and no
    /// more than are to be kept.
    pub proof fn records_are_bounded(&self)
        requires
            self.wf(),
        ensures
            self@.start_ts.dom().finite(),
            self@.start_ts.len() <= self@.num_to_keep,
    {
    }

    /// The task for a cache with this shared state.
    pub fn new<V, U: UpdateValidator<V>>(
        num_to_keep: usize,
        ignore_internal_cost: bool,
        cleanup_duration: u128,
        shared: &Shared<V, U, S>,
    ) -> (r: Self)
        requires
            shared.wf(),
        ensures
            r.wf(),
            r@ == (ProcessorView {
                start_ts: Map::empty(),
                num_to_keep: num_to_keep as nat,
                ignore_internal_cost,
                item_size: vstd::layout::size_of::<StoreItem<V>>(),
                cleanup_duration,
            }),
    {
        let r = CacheProcessor {
            start_ts: empty_map(shared.store.hasher()),
            num_to_keep,
            ignore_internal_cost,
            item_size: shared.store.item_size(),
            cleanup_duration,
        };
        assert(r.start_ts@ =~= Map::<u64, u128>::empty());
        r
    }

    /// What an item of this cost is charged: its cost, and that of storing it
    /// unless that is free.
    fn calculate_internal_cost(&self, cost: i64, external_cost: i64) -> (r: i64)
        ensures
            r == self@.charged(cost + external_cost),
    {
        let size: i128 = if self.ignore_internal_cost {
            0
        } else {
            self.item_size as i128
        };
        let sum: i128 = cost as i128 + external_cost as i128 + size;
        if sum > i64::MAX as i128 {
            i64::MAX
        } else if sum < i64::MIN as i128 {
            i64::MIN
        } else {
            sum as i64
        }
    }

    /// Records that `key` was let in.
    fn track_admission(&mut self, key: u64, now: u128)
        requires
            old(self).wf(),
        ensures
            final(self).wf(),
            final(self)@ == old(self)@.recorded(key, now),
    {
        if self.start_ts.contains_key(&key) || self.start_ts.len() < self.num_to_keep {
            self.start_ts.insert(key, now);
        }
    }

    /// Takes the record of `key` out, and says how old it is.
    fn prepare_evict(&mut self, key: u64, now: u128) -> (r: Option<u128>)
        requires
            old(self).wf(),
        ensures
            final(self).wf(),
            final(self)@ == old(self)@.unrecorded(key),
            r == old(self)@.age(key, now),
    {
        match self.start_ts.remove(&key) {
            Some(at) => if now >= at {
                Some(now - at)
            } else {
                Some(0)
            },
            None => {
                assert(self.start_ts@ =~= old(self).start_ts@);
                None
            },
        }
    }

    /// Takes the victims out of the store.
    fn evict_victims<V, U: UpdateValidator<V>>(
        &mut self,
        store: &mut ShardedMap<V, U, S>,
        victims: &Vec<PolicyPair>,
        now: u128,
    ) -> (r: Vec<Notice<V>>)
        requires
            old(self).wf(),
            old(store).wf(),
        ensures
            final(self).wf(),
            final(store).wf(),
            final(store).same_parts(old(store)),
            ({
                let e = evict_all(old(self)@, old(store)@, victims@, now);
                &&& final(self)@ == e.proc
                &&& final(store)@ == e.store
                &&& r@ == e.notices
            }),
    {
        let mut r: Vec<Notice<V>> = Vec::new();
        let mut i: usize = 0;
        while i < victims.len()
            invariant
                self.wf(),
                store.wf(),
                store.same_parts(old(store)),
                i <= victims@.len(),
                ({
                    let e = evict_all(old(self)@, old(store)@, victims@.take(i as int), now);
                    &&& self@ == e.proc
                    &&& store@ == e.store
                    &&& r@ == e.notices
                }),
            decreases victims@.len() - i,
        {
            let v = victims[i];
            assert(victims@.take(i + 1).drop_last() =~= victims@.take(i as int));
            match store.remove(v.key, 0) {
                Some(e) => {
                    let age = self.prepare_evict(v.key, now);
                    let item = CrateItem {
                        val: e.value,
                        key: e.key,
                        conflict: e.conflict,
                        cost: v.cost,
                        exp: e.expiration,
                    };
                    r.push(Notice::Evict { item, age });
                },
                None => {},
            }
            i += 1;
        }
        assert(victims@.take(victims@.len() as int) =~= victims@);
        r
    }

    /// Handles a new value.
    fn handle_new<V, U: UpdateValidator<V>, WG>(
        &mut self,
        shared: &mut Shared<V, U, S>,
        item: StoreItem<V>,
        cost: i64,
        ranking: &Ranking,
        now: u128,
    ) -> (r: Reaction<V, WG>)
        requires
            old(self).wf(),
            old(shared).wf(),
        ensures
            final(self).wf(),
            final(shared).wf(),
            final(shared).same_parts(old(shared)),
            ({
                let a = apply_new::<V, WG>(old(self)@, old(shared)@, item, cost, *ranking, now);
                &&& final(self)@ == a.proc
                &&& final(shared)@ == a.shared
                &&& r.notices@ == a.notices
                &&& r.release == a.release
            }),
    {
        let charge = self.calculate_internal_cost(cost, 0);
        let key: u64 = item.key;
        let admission = shared.policy.add(key, charge, ranking);
        proof {
            crate::policy::make_room_removes_victims(
                old(shared)@.costs,
                old(shared)@.max_cost as int,
                charge as int,
                ranking.incoming_hits,
                ranking.candidates@,
            );
            assert forall|p: ProcessorView, m: Map<u64, StoreItem<V>>| true implies #[trigger] evict_all(
                p,
                m,
                admission.victims@,
                now,
            ).store == m.remove_keys(crate::policy::victim_keys(admission.victims@)) by {
                evict_all_removes_victims(p, m, admission.victims@, now);
            }
        }
        if admission.added {
            shared.store.insert(key, item.value, item.conflict, item.expiration);
            if shared.metrics.is_op() {
                self.track_admission(key, now);
            }
            let notices = self.evict_victims(&mut shared.store, &admission.victims, now);
            Reaction { notices, release: None }
        } else {
            let mut notices: Vec<Notice<V>> = Vec::new();
            notices.push(
                Notice::Reject(
                    CrateItem {
                        val: item.value,
                        key: item.key,
                        conflict: item.conflict,
                        cost: charge,
                        exp: item.expiration,
                    },
                ),
            );
            let mut evicted = self.evict_victims(&mut shared.store, &admission.victims, now);
            notices.append(&mut evicted);
            Reaction { notices, release: None }
        }
    }

    /// Whether a ranking is consulted in handling a message.
    pub fn wants_ranking<V, U: UpdateValidator<V>, WG>(
        &self,
        shared: &Shared<V, U, S>,
        item: &Item<V, WG>,
    ) -> (r: bool)
        requires
            shared.wf(),
        ensures
            r == wants_ranking(self@, shared@, *item),
    {
        match item {
            Item::New { key, cost, .. } => {
                let charge: i64 = self.calculate_internal_cost(*cost, 0);
                shared.policy.needs_room(*key, charge)
            },
            _ => false,
        }
    }

    /// Handles a message. `ranking` is consulted where the message brings a new
    /// value that there is no room for.
    pub fn handle_item<V, U: UpdateValidator<V>, WG>(
        &mut self,
        shared: &mut Shared<V, U, S>,
        item: Item<V, WG>,
        ranking: &Ranking,
        now: u128,
    ) -> (r: Reaction<V, WG>)
        requires
            old(self).wf(),
            old(shared).wf(),
        ensures
            final(self).wf(),
            final(shared).wf(),
            final(shared).same_parts(old(shared)),
            ({
                let a = apply(old(self)@, old(shared)@, item, *ranking, now);
                &&& final(self)@ == a.proc
                &&& final(shared)@ == a.shared
                &&& r.notices@ == a.notices
                &&& r.release == a.release
            }),
    {
        match item {
            Item::New { key, conflict, cost, value, expiration } => {
                let entry = StoreItem { key, conflict, value, expiration };
                self.handle_new(shared, entry, cost, ranking, now)
            },
            Item::Update { key, cost, external_cost } => {
                let charge = self.calculate_internal_cost(cost, external_cost);
                shared.policy.update(key, charge);
                Reaction { notices: Vec::new(), release: None }
            },
            Item::Delete { key, conflict } => {
                match shared.store.remove(key, conflict) {
                    Some(e) => {
                        shared.policy.remove(key);
                        let mut notices: Vec<Notice<V>> = Vec::new();
                        notices.push(Notice::Exit(e.value));
                        assert(notices@ =~= seq![Notice::Exit(old(shared)@.store[key].value)]);
                        Reaction { notices, release: None }
                    },
                    None => {
                        if !shared.store.contains(key) {
                            shared.policy.remove(key);
                        }
                        Reaction { notices: Vec::new(), release: None }
                    },
                }
            },
            Item::Wait(wg) => Reaction { notices: Vec::new(), release: Some(wg) },
        }
    }

    /// Handles what was received from the insert buffer: a message, or that
    /// there will be none.
    pub fn handle_insert_event<V, U: UpdateValidator<V>, WG>(
        &mut self,
        shared: &mut Shared<V, U, S>,
        res: Option<Item<V, WG>>,
        ranking: &Ranking,
        now: u128,
    ) -> (r: Result<Reaction<V, WG>, CacheError>)
        requires
            old(self).wf(),
            old(shared).wf(),
        ensures
            final(self).wf(),
            final(shared).wf(),
            final(shared).same_parts(old(shared)),
            match res {
                Some(item) => {
                    let a = apply(old(self)@, old(shared)@, item, *ranking, now);
                    &&& final(self)@ == a.proc
                    &&& final(shared)@ == a.shared
                    &&& r matches Ok(reaction)
                    &&& reaction.notices@ == a.notices
                    &&& reaction.release == a.release
                },
                None => {
                    &&& final(self)@ == old(self)@
                    &&& final(shared)@ == old(shared)@
                    &&& r matches Err(CacheError::RecvError(text))
                    &&& text@ == "fail to receive msg from insert buffer"@
                },
            },
    {
        match res {
            Some(item) => Ok(self.handle_item(shared, item, ranking, now)),
            None => Err(
                CacheError::RecvError("fail to receive msg from insert buffer".to_owned()),
            ),
        }
    }

    /// Forgets the records and the charges of entries that left the store, first
    /// to last.
    pub fn evict_expired<V>(
        &mut self,
        policy: &mut AsyncLFUPolicy<S>,
        victims: Vec<StoreItem<V>>,
        now: u128,
    ) -> (r: Vec<Notice<V>>)
        requires
            old(self).wf(),
            old(policy).wf(),
            crate::store::distinct_keys(victims@),
            crate::store::entry_keys(victims@).subset_of(old(policy)@.dom()),
        ensures
            final(self).wf(),
            final(policy).wf(),
            final(policy).same_settings(old(policy)),
            r@ == expiry_notices(old(self)@, old(policy)@, victims@, now),
            final(self)@ == old(self)@.unrecorded_all(crate::store::entry_keys(victims@)),
            final(policy)@ == old(policy)@.remove_keys(crate::store::entry_keys(victims@)),
    {
        let ghost all = victims@;
        let ghost p0 = self@;
        let ghost c0 = policy@;
        let mut r: Vec<Notice<V>> = Vec::new();
        assert(self@.start_ts =~= p0.start_ts.remove_keys(
            crate::store::entry_keys(all.take(0)),
        ));
        assert(policy@ =~= c0.remove_keys(crate::store::entry_keys(all.take(0))));
        for e in it: victims
            invariant
                it.seq() == all,
                self.wf(),
                policy.wf(),
                policy.same_settings(old(policy)),
                p0 == old(self)@,
                c0 == old(policy)@,
                crate::store::distinct_keys(all),
                crate::store::entry_keys(all).subset_of(c0.dom()),
                r@ == expiry_notices(p0, c0, all, now).take(it.index()),
                self@ == p0.unrecorded_all(crate::store::entry_keys(all.take(it.index()))),
                policy@ == c0.remove_keys(crate::store::entry_keys(all.take(it.index()))),
        {
            let ghost i = it.index();
            let ghost done = crate::store::entry_keys(all.take(i));
            proof {
                assert(e == all[i]);
                assert(crate::store::entry_keys(all).contains(e.key));
                assert(!done.contains(e.key));
                assert(crate::store::entry_keys(all.take(i + 1)) =~= done.insert(e.key)) by {
                    assert(all.take(i + 1)[i] == e);
                    assert forall|k: u64| #[trigger] done.contains(k) implies
                        crate::store::entry_keys(all.take(i + 1)).contains(k) by {
                        let j = choose|j: int|
                            0 <= j < all.take(i).len() && (#[trigger] all.take(i)[j]).key == k;
                        assert(all.take(i + 1)[j].key == k);
                    }
                    assert forall|k: u64| #[trigger]
                        crate::store::entry_keys(all.take(i + 1)).contains(k) && k
                            != e.key implies done.contains(k) by {
                        let j = choose|j: int|
                            0 <= j < all.take(i + 1).len() && (#[trigger] all.take(
                                i + 1,
                            )[j]).key == k;
                        assert(all.take(i)[j].key == k);
                    }
                }
            }
            let age = self.prepare_evict(e.key, now);
            let cost: i64 = match policy.remove(e.key) {
                Some(c) => c,
                None => 0,
            };
            let item = CrateItem {
                val: e.value,
                key: e.key,
                conflict: e.conflict,
                cost,
                exp: e.expiration,
            };
            r.push(Notice::Evict { item, age });
            proof {
                assert(r@ =~= expiry_notices(p0, c0, all, now).take(i + 1));
                assert(self@.start_ts =~= p0.start_ts.remove_keys(done.insert(all[i].key)));
                assert(policy@ =~= c0.remove_keys(done.insert(all[i].key)));
            }
        }
        assert(all.take(all.len() as int) =~= all);
        assert(expiry_notices(p0, c0, all, now).take(all.len() as int) =~= expiry_notices(
            p0,
            c0,
            all,
            now,
        ));
        r
    }

    /// Handles what a cleanup of the store came to: the entries that left it, or
    /// the reason why there was none.
    pub fn handle_cleaned<V>(
        &mut self,
        policy: &mut AsyncLFUPolicy<S>,
        cleaned: Result<Vec<StoreItem<V>>, CacheError>,
        now: u128,
    ) -> (r: Result<Vec<Notice<V>>, CacheError>)
        requires
            old(self).wf(),
            old(policy).wf(),
            cleaned matches Ok(victims) ==> crate::store::distinct_keys(victims@)
                && crate::store::entry_keys(victims@).subset_of(old(policy)@.dom()),
        ensures
            final(self).wf(),
            final(policy).wf(),
            final(policy).same_settings(old(policy)),
            match cleaned {
                Ok(victims) => {
                    let gone = crate::store::entry_keys(victims@);
                    &&& r matches Ok(notices)
                    &&& notices@ == expiry_notices(old(self)@, old(policy)@, victims@, now)
                    &&& final(self)@ == old(self)@.unrecorded_all(gone)
                    &&& final(policy)@ == old(policy)@.remove_keys(gone)
                },
                Err(e) => {
                    &&& r == Err::<Vec<Notice<V>>, CacheError>(e)
                    &&& final(self)@ == old(self)@
                    &&& final(policy)@ == old(policy)@
                },
            },
    {
        match cleaned {
            Ok(victims) => Ok(self.evict_expired(policy, victims, now)),
            Err(e) => Err(e),
        }
    }

    /// Takes the expired entries out of the cache. Which of them leaves first is
    /// left to the store.
    pub fn handle_cleanup_event<V, U: UpdateValidator<V>>(
        &mut self,
        shared: &mut Shared<V, U, S>,
        now: u128,
    ) -> (r: Result<Vec<Notice<V>>, CacheError>)
        requires
            old(self).wf(),
            old(shared).wf(),
        ensures
            final(self).wf(),
            final(shared).wf(),
            final(shared).same_parts(old(shared)),
            final(shared)@ == swept(old(shared)@, now),
            final(self)@ == old(self)@.unrecorded_all(expired_keys(old(shared)@.store, now)),
            r matches Ok(notices) && tells_of_expired(old(self)@, old(shared)@, now, notices@),
    {
        let victims = shared.store.cleanup(now);
        proof {
            lemma_tells_of_expired(old(self)@, old(shared)@, now, victims@);
        }
        self.handle_cleaned(&mut shared.policy, Ok(victims), now)
    }

    /// Decides on what woke the working task. The task ends on an error and on
    /// `Step::Stopped`, and waits for the next event otherwise.
    pub fn step<V, U: UpdateValidator<V>, WG>(
        &mut self,
        shared: &mut Shared<V, U, S>,
        event: Event<V, WG>,
        ranking: &Ranking,
        now: u128,
    ) -> (r: Result<Step<V, WG>, CacheError>)
        requires
            old(self).wf(),
            old(shared).wf(),
        ensures
            final(self).wf(),
            final(shared).wf(),
            final(shared).same_parts(old(shared)),
            event is Clear || event is Stop ==> {
                &&& final(self)@ == old(self)@
                &&& final(shared)@ == old(shared)@
            },
            match event {
                Event::Received(Some(item)) => {
                    let a = apply(old(self)@, old(shared)@, item, *ranking, now);
                    &&& final(self)@ == a.proc
                    &&& final(shared)@ == a.shared
                    &&& r matches Ok(Step::Handled(reaction))
                    &&& reaction.notices@ == a.notices
                    &&& reaction.release == a.release
                },
                Event::Received(None) => {
                    &&& final(self)@ == old(self)@
                    &&& final(shared)@ == old(shared)@
                    &&& r matches Err(CacheError::RecvError(text))
                    &&& text@ == "fail to receive msg from insert buffer"@
                },
                Event::Tick => {
                    let gone = expired_keys(old(shared)@.store, now);
                    &&& final(self)@ == old(self)@.unrecorded_all(gone)
                    &&& final(shared)@ == swept(old(shared)@, now)
                    &&& r matches Ok(Step::Swept { notices, next_tick })
                    &&& next_tick == old(self)@.cleanup_duration
                    &&& tells_of_expired(old(self)@, old(shared)@, now, notices@)
                },
                Event::Clear(Some(_)) => r == Ok::<Step<V, WG>, CacheError>(Step::Clean),
                Event::Clear(None) => r == Ok::<Step<V, WG>, CacheError>(Step::Pass),
                Event::Stop => r == Ok::<Step<V, WG>, CacheError>(Step::Stopped),
            },
    {
        match event {
            Event::Received(res) => match self.handle_insert_event(shared, res, ranking, now) {
                Ok(reaction) => Ok(Step::Handled(reaction)),
                Err(e) => Err(e),
            },
            Event::Tick => {
                let next_tick: u128 = self.cleanup_duration;
                match self.handle_cleanup_event(shared, now) {
                    Ok(notices) => Ok(Step::Swept { notices, next_tick }),
                    Err(e) => Err(e),
                }
            },
            Event::Clear(Some(_)) => Ok(Step::Clean),
            Event::Clear(None) => Ok(Step::Pass),
            Event::Stop => Ok(Step::Stopped),
        }
    }

    /// The nanoseconds from the start to the first cleanup, and between cleanups.
    pub fn cleanup_duration(&self) -> (r: u128)
        ensures
            r == self@.cleanup_duration,
    {
        self.cleanup_duration
    }
}

/// What wakes the working task.
pub enum Event<V, WG> {
    /// The insert buffer gave a message, or will give none any more.
    Received(Option<Item<V, WG>>),
    /// It is time for a cleanup.
    Tick,
    /// The insert buffer is to be cleared out, or nobody can ask for that any more.
    Clear(Option<()>),
    /// The cache is closed.
    Stop,
}

/// What the working task does next.
pub enum Step<V, WG> {
    /// Tells the callback and wakes a waiter.
    Handled(Reaction<V, WG>),
    /// Tells the callback, and sets the next cleanup `next_tick` nanoseconds from now.
    Swept { notices: Vec<Notice<V>>, next_tick: u128 },
    /// Clears out the insert buffer.
    Clean,
    /// Goes on.
    Pass,
    /// Closes its ends of the channels and ends.
    Stopped,
}

/// Clears out the insert buffer.
pub struct CacheCleaner;

/// What the cleaner does next.
pub enum CleanStep<V, WG> {
    /// Tells the callback, wakes a waiter and receives again.
    Continue(Reaction<V, WG>),
    /// Is done.
    Done,
}

/// What clearing out a message asks for: a new value leaves the cache that it
/// never reached, and a waiter is woken.
pub open spec fn cleared_out<V, WG>(item: Item<V, WG>) -> (Seq<Notice<V>>, Option<WG>) {
    match item {
        Item::New { key, conflict, cost, value, expiration } => (
            seq![
                Notice::Evict {
                    item: CrateItem { val: value, key, conflict, cost, exp: expiration },
                    age: None,
                },
            ],
            None,
        ),
        Item::Wait(wg) => (Seq::empty(), Some(wg)),
        _ => (Seq::empty(), None),
    }
}

impl CacheCleaner {
    /// Clears out a message.
    fn handle_item<V, WG>(&self, item: Item<V, WG>) -> (r: Reaction<V, WG>)
        ensures
            (r.notices@, r.release) == cleared_out(item),
    {
        let mut notices: Vec<Notice<V>> = Vec::new();
        match item {
            Item::New { key, conflict, cost, value, expiration } => {
                let gone = CrateItem { val: value, key, conflict, cost, exp: expiration };
                let ghost n = Notice::Evict { item: gone, age: None };
                notices.push(Notice::Evict { item: gone, age: None });
                assert(notices@ =~= seq![n]);
                Reaction { notices, release: None }
            },
            Item::Wait(wg) => Reaction { notices, release: Some(wg) },
            Item::Update { .. } => Reaction { notices, release: None },
            Item::Delete { .. } => Reaction { notices, release: None },
        }
    }

    /// Clears out what was received from the insert buffer; where nothing was,
    /// the cleaner is done.
    pub fn clean<V, WG>(&self, received: Option<Item<V, WG>>) -> (r: CleanStep<V, WG>)
        ensures
            match received {
                Some(item) => {
                    &&& r matches CleanStep::Continue(reaction)
                    &&& (reaction.notices@, reaction.release) == cleared_out(item)
                },
                None => r is Done,
            },
    {
        match received {
            Some(item) => CleanStep::Continue(self.handle_item(item)),
            None => CleanStep::Done,
        }
    }
}

} // verus!
