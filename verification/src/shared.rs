//! The state that the cache and its working task share.

use std::hash::BuildHasher;
use vstd::prelude::*;
use crate::metrics::Metrics;
use crate::policy::AsyncLFUPolicy;
use crate::store::{ShardedMap, StoreItem};
use crate::traits::UpdateValidator;

verus! {

/// The stored values, the ledger of their charges, and the counters.
#[verifier::reject_recursive_types(V)]
#[verifier::reject_recursive_types(S)]
pub struct Shared<V, U, S> {
    pub(crate) store: ShardedMap<V, U, S>,
    pub(crate) policy: AsyncLFUPolicy<S>,
    pub(crate) metrics: Metrics,
}

/// What the shared state holds.
#[verifier::ext_equal]
pub struct SharedView<V> {
    pub store: Map<u64, StoreItem<V>>,
    pub costs: Map<u64, i64>,
    pub max_cost: i64,
    pub counting: bool,
    pub dropped: Seq<u64>,
}

impl<V> SharedView<V> {
    /// Every stored entry is charged.
    pub open spec fn accounted(self) -> bool {
        self.store.dom().subset_of(self.costs.dom())
    }

    /// The same with one more dropped insert counted under the index hash of its
    /// key, where the counters count.
    pub open spec fn one_dropped(self, index: u64) -> Self {
        if self.counting {
            SharedView { dropped: crate::metrics::counted(self.dropped, index, 1), ..self }
        } else {
            self
        }
    }

    /// The same settings with nothing stored, charged or counted.
    pub open spec fn cleared(self) -> Self {
        SharedView {
            store: Map::empty(),
            costs: Map::empty(),
            dropped: crate::metrics::zeros(),
            ..self
        }
    }
}

impl<V, U: UpdateValidator<V>, S: BuildHasher + Clone> View for Shared<V, U, S> {
    type V = SharedView<V>;

    open(crate) spec fn view(&self) -> SharedView<V> {
        SharedView {
            store: self.store@,
            costs: self.policy@,
            max_cost: self.policy.bound(),
            counting: self.metrics.counting(),
            dropped: self.metrics.dropped(),
        }
    }
}

impl<V, U: UpdateValidator<V>, S: BuildHasher + Clone> Shared<V, U, S> {
    /// The parts are well-formed, every stored entry is charged, and the ledger
    /// collects metrics exactly where the counters count.
    pub open(crate) spec fn wf(&self) -> bool {
        &&& self.store.wf()
        &&& self.policy.wf()
        &&& self@.accounted()
        &&& self.policy.collecting() == self.metrics.counting()
    }

    /// The validator that guards updates.
    pub open(crate) spec fn validator(&self) -> U {
        self.store.validator()
    }

    /// The number of access counters.
    pub open(crate) spec fn counters(&self) -> usize {
        self.policy.counters()
    }

    /// The hasher that the table was made with.
    pub open(crate) spec fn hash_builder(&self) -> S {
        self.store.hash_builder()
    }

    /// Whether the ledger collects metrics.
    pub open(crate) spec fn collecting(&self) -> bool {
        self.policy.collecting()
    }

    /// Whether both have the same validator, hasher and number of access counters.
    pub open spec fn same_parts(&self, other: &Self) -> bool {
        &&& self.validator() == other.validator()
        &&& self.hash_builder() == other.hash_builder()
        &&& self.counters() == other.counters()
    }

    /// In a well-formed state there are finitely many entries, each filed under
    /// its own key and charged, and finitely many charges. The ledger collects
    /// metrics exactly where the counters count.
    pub proof fn entries_are_filed_and_charged(&self)
        requires
            self.wf(),
        ensures
            self@.store.dom().finite(),
            self@.costs.dom().finite(),
            self@.accounted(),
            forall|k: u64| #[trigger]
                self@.store.contains_key(k) ==> self@.store[k].key == k,
            self.collecting() == self@.counting,
    {
        self.store.entries_are_filed();
        self.policy.charges_are_finite();
    }

    /// Puts the parts together.
    pub fn new(
        store: ShardedMap<V, U, S>,
        policy: AsyncLFUPolicy<S>,
        metrics: Metrics,
    ) -> (r: Self)
        requires
            store.wf(),
            policy.wf(),
            store@.dom().subset_of(policy@.dom()),
            policy.collecting() == metrics.counting(),
        ensures
            r.wf(),
            r.validator() == store.validator(),
            r.hash_builder() == store.hash_builder(),
            r.collecting() == policy.collecting(),
            r.counters() == policy.counters(),
            r@ == (SharedView {
                store: store@,
                costs: policy@,
                max_cost: policy.bound(),
                counting: metrics.counting(),
                dropped: metrics.dropped(),
            }),
    {
        Shared { store, policy, metrics }
    }

    /// Forgets every entry, every charge and every count.
    pub fn clear(&mut self)
        requires
            old(self).wf(),
        ensures
            final(self).wf(),
            final(self).same_parts(old(self)),
            final(self)@ == old(self)@.cleared(),
    {
        self.policy.clear();
        self.store.clear();
        self.metrics.clear();
    }

    /// The stored values.
    pub fn store(&self) -> (r: &ShardedMap<V, U, S>)
        requires
            self.wf(),
        ensures
            r.wf(),
            r@ == self@.store,
            r.validator() == self.validator(),
            r.hash_builder() == self.hash_builder(),
    {
        &self.store
    }

    /// The ledger of charges.
    pub fn policy(&self) -> (r: &AsyncLFUPolicy<S>)
        requires
            self.wf(),
        ensures
            r.wf(),
            r@ == self@.costs,
            r.bound() == self@.max_cost,
            r.counters() == self.counters(),
            r.collecting() == self.collecting(),
    {
        &self.policy
    }

    /// The counters.
    pub fn metrics(&self) -> (r: &Metrics)
        ensures
            r.counting() == self@.counting,
            r.dropped() == self@.dropped,
    {
        &self.metrics
    }
}

} // verus!
