//! What gets let in to the cache and what gets kicked out.

use std::collections::HashMap;
use std::hash::BuildHasher;
use vstd::prelude::*;
use crate::store::empty_map;

verus! {

/// A key that could make room for another, with an estimate of how often it is
/// asked for.
#[derive(Debug, Clone, Copy, PartialEq, Eq, Structural)]
pub struct Candidate {
    pub key: u64,
    pub hits: u64,
}

/// How often an incoming key is asked for, and the keys that could make room for
/// it, in the order in which they are considered.
pub struct Ranking {
    pub incoming_hits: u64,
    pub candidates: Vec<Candidate>,
}

/// A key and what it is charged.
#[derive(Debug, Clone, Copy, PartialEq, Eq, Structural)]
pub struct PolicyPair {
    pub key: u64,
    pub cost: i64,
}

/// The verdict on an incoming key, and the keys that leave on its account.
pub struct Admission {
    pub victims: Vec<PolicyPair>,
    pub added: bool,
}

/// The sum of all charges.
pub open spec fn total(costs: Map<u64, i64>) -> int
    decreases costs.dom().len(),
    when costs.dom().finite()
{
    if costs.dom().len() == 0 {
        0
    } else {
        let k = costs.dom().choose();
        costs[k] + total(costs.remove(k))
    }
}

/// Whether a charge of `cost` fits beside the charges in `costs`.
pub open spec fn fits(costs: Map<u64, i64>, max_cost: int, cost: int) -> bool {
    total(costs) + cost <= max_cost
}

/// Whether others have to make room for `key` at `cost`. Where that is not so, the
/// verdict on the key depends on no candidate.
pub open spec fn needs_room(costs: Map<u64, i64>, max_cost: int, key: u64, cost: i64) -> bool {
    cost <= max_cost && !costs.contains_key(key) && !fits(costs, max_cost, cost as int)
}

/// The ledger after candidates made room for a charge of `cost`, and the victims.
///
/// Candidates leave one after the other until the charge fits, until the next one
/// is asked for more often than the incoming key, or until there are no more.
/// A candidate that is charged nothing is passed over.
pub open spec fn make_room(
    costs: Map<u64, i64>,
    max_cost: int,
    cost: int,
    hits: u64,
    candidates: Seq<Candidate>,
) -> (Map<u64, i64>, Seq<PolicyPair>)
    decreases candidates.len(),
{
    if fits(costs, max_cost, cost) || candidates.len() == 0 {
        (costs, Seq::empty())
    } else {
        let c = candidates.first();
        let rest = candidates.drop_first();
        if !costs.contains_key(c.key) {
            make_room(costs, max_cost, cost, hits, rest)
        } else if c.hits > hits {
            (costs, Seq::empty())
        } else {
            let (ledger, victims) = make_room(costs.remove(c.key), max_cost, cost, hits, rest);
            (ledger, seq![PolicyPair { key: c.key, cost: costs[c.key] }] + victims)
        }
    }
}

/// The keys of the victims.
pub open spec fn victim_keys(victims: Seq<PolicyPair>) -> Set<u64> {
    Set::new(|k: u64| exists|i: int| 0 <= i < victims.len() && (#[trigger] victims[i]).key == k)
}

/// What an admission does to the ledger, whom it evicts, and its verdict.
#[verifier::ext_equal]
pub struct AdmissionView {
    pub costs: Map<u64, i64>,
    pub victims: Seq<PolicyPair>,
    pub added: bool,
}

/// The admission of `key` at `cost`.
///
/// A charge beyond the maximum is never let in. A key that is charged already is
/// only charged anew. Any other key is let in if candidates can make room for it.
pub open spec fn admission(
    costs: Map<u64, i64>,
    max_cost: int,
    key: u64,
    cost: i64,
    hits: u64,
    candidates: Seq<Candidate>,
) -> AdmissionView {
    if cost > max_cost {
        AdmissionView { costs, victims: Seq::empty(), added: false }
    } else if costs.contains_key(key) {
        AdmissionView { costs: costs.insert(key, cost), victims: Seq::empty(), added: false }
    } else {
        let (ledger, victims) = make_room(costs, max_cost, cost as int, hits, candidates);
        let added = fits(ledger, max_cost, cost as int);
        AdmissionView {
            costs: if added {
                ledger.insert(key, cost)
            } else {
                ledger
            },
            victims,
            added,
        }
    }
}

/// Exactly the victims leave the ledger.
pub proof fn make_room_removes_victims(
    costs: Map<u64, i64>,
    max_cost: int,
    cost: int,
    hits: u64,
    candidates: Seq<Candidate>,
)
    ensures
        ({
            let (ledger, victims) = make_room(costs, max_cost, cost, hits, candidates);
            &&& ledger == costs.remove_keys(victim_keys(victims))
            &&& victim_keys(victims).subset_of(costs.dom())
        }),
    decreases candidates.len(),
{
    let (ledger, victims) = make_room(costs, max_cost, cost, hits, candidates);
    if fits(costs, max_cost, cost) || candidates.len() == 0 {
        assert(ledger =~= costs.remove_keys(victim_keys(victims)));
    } else {
        let c = candidates.first();
        let rest = candidates.drop_first();
        if !costs.contains_key(c.key) {
            make_room_removes_victims(costs, max_cost, cost, hits, rest);
        } else if c.hits > hits {
            assert(ledger =~= costs.remove_keys(victim_keys(victims)));
        } else {
            make_room_removes_victims(costs.remove(c.key), max_cost, cost, hits, rest);
            let (l, v) = make_room(costs.remove(c.key), max_cost, cost, hits, rest);
            assert(victims == seq![PolicyPair { key: c.key, cost: costs[c.key] }] + v);
            assert forall|k: u64| #[trigger] victim_keys(victims).contains(k) <==> (k == c.key
                || victim_keys(v).contains(k)) by {
                assert(victims[0].key == c.key);
                if victim_keys(v).contains(k) {
                    let i = choose|i: int| 0 <= i < v.len() && (#[trigger] v[i]).key == k;
                    assert(victims[i + 1].key == k);
                }
                if victim_keys(victims).contains(k) && k != c.key {
                    let i = choose|i: int|
                        0 <= i < victims.len() && (#[trigger] victims[i]).key == k;
                    assert(v[i - 1].key == k);
                }
            }
            assert(ledger =~= costs.remove_keys(victim_keys(victims)));
        }
    }
}

/// A charge can be taken out of the sum wherever it stands.
proof fn lemma_total_remove(costs: Map<u64, i64>, k: u64)
    requires
        costs.dom().finite(),
        costs.contains_key(k),
    ensures
        total(costs) == costs[k] + total(costs.remove(k)),
    decreases costs.dom().len(),
{
    let c = costs.dom().choose();
    if c != k {
        lemma_total_remove(costs.remove(c), k);
        lemma_total_remove(costs.remove(k), c);
        assert(costs.remove(c).remove(k) =~= costs.remove(k).remove(c));
    }
}

/// A new charge adds to the sum.
pub proof fn lemma_total_insert(costs: Map<u64, i64>, k: u64, cost: i64)
    requires
        costs.dom().finite(),
        !costs.contains_key(k),
    ensures
        total(costs.insert(k, cost)) == total(costs) + cost,
{
    lemma_total_remove(costs.insert(k, cost), k);
    assert(costs.insert(k, cost).remove(k) =~= costs);
}

/// The sum stays within as many times the range of a charge as there are charges.
proof fn lemma_total_bounds(costs: Map<u64, i64>)
    requires
        costs.dom().finite(),
    ensures
        i64::MIN * costs.dom().len() <= total(costs) <= i64::MAX * costs.dom().len(),
    decreases costs.dom().len(),
{
    if costs.dom().len() != 0 {
        lemma_total_bounds(costs.remove(costs.dom().choose()));
    }
}

/// The ledger of what every key in the cache is charged.
#[verifier::reject_recursive_types(S)]
pub struct AsyncLFUPolicy<S> {
    num_counters: usize,
    max_cost: i64,
    costs: HashMap<u64, i64, S>,
    used: i128,
    collecting: bool,
}

impl<S> View for AsyncLFUPolicy<S> {
    type V = Map<u64, i64>;

    closed spec fn view(&self) -> Map<u64, i64> {
        self.costs@
    }
}

impl<S: BuildHasher> AsyncLFUPolicy<S> {
    /// The sum of the charges is at hand, and the hasher does what a hash map
    /// needs of it.
    pub closed spec fn wf(&self) -> bool {
        &&& vstd::std_specs::hash::builds_valid_hashers::<S>()
        &&& self.costs@.dom().finite()
        &&& self.used == total(self.costs@)
    }

    /// The bound on the sum of all charges.
    pub closed spec fn bound(&self) -> i64 {
        self.max_cost
    }

    /// The number of access counters.
    pub closed spec fn counters(&self) -> usize {
        self.num_counters
    }

    /// Whether metrics are collected.
    pub closed spec fn collecting(&self) -> bool {
        self.collecting
    }

    /// Whether both ledgers have the same bound and the same number of counters,
    /// and both collect metrics or neither does.
    pub open spec fn same_settings(&self, other: &Self) -> bool {
        &&& self.bound() == other.bound()
        &&& self.counters() == other.counters()
        &&& self.collecting() == other.collecting()
    }

    /// A well-formed ledger holds finitely many charges.
    pub proof fn charges_are_finite(&self)
        requires
            self.wf(),
        ensures
            self@.dom().finite(),
    {
    }

    /// An empty ledger. It collects no metrics.
    pub fn with_hasher(num_counters: usize, max_cost: i64, hasher: S) -> (r: Self)
        requires
            vstd::std_specs::hash::builds_valid_hashers::<S>(),
        ensures
            r.wf(),
            r@ == Map::<u64, i64>::empty(),
            r.bound() == max_cost,
            r.counters() == num_counters,
            !r.collecting(),
    {
        let r = AsyncLFUPolicy {
            num_counters,
            max_cost,
            costs: empty_map(hasher),
            used: 0,
            collecting: false,
        };
        assert(r@ =~= Map::<u64, i64>::empty());
        r
    }

    /// Decides on an incoming key, and makes room for it.
    pub fn add(&mut self, key: u64, cost: i64, ranking: &Ranking) -> (r: Admission)
        requires
            old(self).wf(),
        ensures
            final(self).wf(),
            final(self).same_settings(old(self)),
            ({
                let a = admission(
                    old(self)@,
                    old(self).bound() as int,
                    key,
                    cost,
                    ranking.incoming_hits,
                    ranking.candidates@,
                );
                &&& final(self)@ == a.costs
                &&& r.victims@ == a.victims
                &&& r.added == a.added
            }),
    {
        if cost > self.max_cost {
            return Admission { victims: Vec::new(), added: false };
        }
        if self.update(key, cost) {
            return Admission { victims: Vec::new(), added: false };
        }
        let mut victims: Vec<PolicyPair> = Vec::new();
        let mut i: usize = 0;
        let ghost all = ranking.candidates@;
        let ghost hits = ranking.incoming_hits;
        let ghost max = self.max_cost as int;
        let ghost start = self@;
        assert(all.skip(0) =~= all);
        assert(victims@ + make_room(start, max, cost as int, hits, all).1 =~= make_room(
            start,
            max,
            cost as int,
            hits,
            all,
        ).1);
        while i < ranking.candidates.len() && !self.has_room(cost)
            invariant
                self.wf(),
                self.max_cost == max,
                cost <= max,
                start == old(self)@,
                !start.contains_key(key),
                self.same_settings(old(self)),
                !self@.contains_key(key),
                i <= all.len(),
                all == ranking.candidates@,
                hits == ranking.incoming_hits,
                ({
                    let whole = make_room(start, max, cost as int, hits, all);
                    let rest = make_room(self@, max, cost as int, hits, all.skip(i as int));
                    &&& whole.0 == rest.0
                    &&& whole.1 == victims@ + rest.1
                }),
            decreases all.len() - i,
        {
            let c = ranking.candidates[i];
            let ghost done = victims@;
            proof {
                assert(all.skip(i as int).first() == c);
                assert(all.skip(i as int).drop_first() =~= all.skip(i + 1));
            }
            if self.charge(c.key).is_some() {
                if c.hits > ranking.incoming_hits {
                    assert(victims@ + Seq::<PolicyPair>::empty() =~= victims@);
                    return Admission { victims, added: false };
                }
                match self.remove(c.key) {
                    Some(paid) => {
                        let pair = PolicyPair { key: c.key, cost: paid };
                        victims.push(pair);
                        proof {
                            let rest = make_room(
                                self@,
                                max,
                                cost as int,
                                hits,
                                all.skip(i + 1),
                            ).1;
                            assert(done + (seq![pair] + rest) =~= victims@ + rest);
                        }
                    },
                    None => {},
                }
            }
            i += 1;
        }
        assert(victims@ + Seq::<PolicyPair>::empty() =~= victims@);
        if self.has_room(cost) {
            self.charge_new(key, cost);
            Admission { victims, added: true }
        } else {
            Admission { victims, added: false }
        }
    }

    /// Whether others have to make room for an incoming key.
    pub fn needs_room(&self, key: u64, cost: i64) -> (r: bool)
        requires
            self.wf(),
        ensures
            r == needs_room(self@, self.bound() as int, key, cost),
    {
        cost <= self.max_cost && self.charge(key).is_none() && !self.has_room(cost)
    }

    /// Whether a charge of `cost` fits.
    fn has_room(&self, cost: i64) -> (r: bool)
        requires
            self.wf(),
        ensures
            r == fits(self@, self.bound() as int, cost as int),
    {
        proof {
            lemma_total_bounds(self.costs@);
            assert(self.costs@.len() == self.costs.len());
        }
        self.used + cost as i128 <= self.max_cost as i128
    }

    /// Charges a key that is charged nothing yet.
    fn charge_new(&mut self, key: u64, cost: i64)
        requires
            old(self).wf(),
            !old(self)@.contains_key(key),
        ensures
            final(self).wf(),
            final(self)@ == old(self)@.insert(key, cost),
            final(self).same_settings(old(self)),
    {
        proof {
            lemma_total_bounds(self.costs@);
            assert(self.costs@.len() == self.costs.len());
            lemma_total_insert(self.costs@, key, cost);
        }
        self.used = self.used + cost as i128;
        self.costs.insert(key, cost);
    }

    /// What `key` is charged.
    pub fn charge(&self, key: u64) -> (r: Option<i64>)
        requires
            self.wf(),
        ensures
            r == (if self@.contains_key(key) {
                Some(self@[key])
            } else {
                None
            }),
    {
        match self.costs.get(&key) {
            Some(c) => Some(*c),
            None => None,
        }
    }

    /// The bound on the sum of all charges.
    pub fn max_cost(&self) -> (r: i64)
        ensures
            r == self.bound(),
    {
        self.max_cost
    }

    /// The number of access counters.
    pub fn num_counters(&self) -> (r: usize)
        ensures
            r == self.counters(),
    {
        self.num_counters
    }

    /// Has metrics collected from now on. The ledger only keeps this in mind: what
    /// is counted are dropped inserts, and the cache counts those.
    pub fn collect_metrics(&mut self)
        ensures
            old(self).wf() ==> final(self).wf(),
            final(self).collecting(),
            final(self).bound() == old(self).bound(),
            final(self).counters() == old(self).counters(),
            final(self)@ == old(self)@,
    {
        self.collecting = true;
    }

    /// Whether metrics are collected.
    pub fn collects_metrics(&self) -> (r: bool)
        ensures
            r == self.collecting(),
    {
        self.collecting
    }

    /// The keys that are charged, each once.
    pub fn keys(&self) -> (r: Vec<u64>)
        requires
            self.wf(),
        ensures
            r@.no_duplicates(),
            r@.to_set() == self@.dom(),
    {
        let mut r: Vec<u64> = Vec::new();
        for k in it: self.costs.keys()
            invariant
                r@.len() == it.index(),
                forall|i: int| 0 <= i < r@.len() ==> r@[i] == *#[trigger] it.seq()[i],
        {
            r.push(*k);
        }
        proof {
            let ks = vstd::std_specs::iter::IteratorSpec::remaining(
                &vstd::std_specs::hash::spec_keys_iter(&self.costs),
            );
            assert(r@ =~= ks.unref());
        }
        r
    }

    /// The sum of all charges.
    pub fn used(&self) -> (r: i128)
        requires
            self.wf(),
        ensures
            r == total(self@),
    {
        self.used
    }

    /// Charges a key that is charged already anew; any other key is left alone.
    pub fn update(&mut self, key: u64, cost: i64) -> (r: bool)
        requires
            old(self).wf(),
        ensures
            final(self).wf(),
            final(self).same_settings(old(self)),
            r == old(self)@.contains_key(key),
            final(self)@ == (if r {
                old(self)@.insert(key, cost)
            } else {
                old(self)@
            }),
    {
        match self.remove(key) {
            Some(_) => {
                self.charge_new(key, cost);
                assert(self@ =~= old(self)@.insert(key, cost));
                true
            },
            None => {
                assert(self@ =~= old(self)@);
                false
            },
        }
    }

    /// Forgets what `key` is charged, and gives the charge back.
    pub fn remove(&mut self, key: u64) -> (r: Option<i64>)
        requires
            old(self).wf(),
        ensures
            final(self).wf(),
            final(self).same_settings(old(self)),
            final(self)@ == old(self)@.remove(key),
            r == (if old(self)@.contains_key(key) {
                Some(old(self)@[key])
            } else {
                None
            }),
    {
        match self.costs.remove(&key) {
            Some(cost) => {
                proof {
                    lemma_total_remove(old(self).costs@, key);
                    lemma_total_bounds(self.costs@);
                    assert(self.costs@.len() == self.costs.len());
                }
                self.used = self.used - cost as i128;
                Some(cost)
            },
            None => {
                assert(self.costs@ =~= old(self).costs@);
                None
            },
        }
    }

    /// Forgets every charge.
    pub fn clear(&mut self)
        requires
            old(self).wf(),
        ensures
            final(self).wf(),
            final(self).same_settings(old(self)),
            final(self)@ == Map::<u64, i64>::empty(),
    {
        self.costs.clear();
        self.used = 0;
    }
}

} // verus!
