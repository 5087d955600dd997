//! What the ledger does with every charge.

use std::hash::BuildHasher;
use vstd::prelude::*;
use crate::policy::{Admission, AsyncLFUPolicy, Candidate, PolicyPair, Ranking};

verus! {

/// Whether two tables agree on a key: both hold the same under it, or neither holds
/// anything.
pub open spec fn agree<T>(a: Map<u64, T>, b: Map<u64, T>, k: u64) -> bool {
    &&& a.contains_key(k) == b.contains_key(k)
    &&& a.contains_key(k) ==> a[k] == b[k]
}

/// Whether `k` is the key of one of `pairs`.
pub open spec fn among(pairs: Seq<PolicyPair>, k: u64) -> bool {
    exists|i: int| 0 <= i < pairs.len() && (#[trigger] pairs[i]).key == k
}

/// What `pairs` are charged together.
pub open spec fn together(pairs: Seq<PolicyPair>) -> int
    decreases pairs.len(),
{
    if pairs.len() == 0 {
        0
    } else {
        together(pairs.drop_last()) + pairs.last().cost
    }
}

// Sums

/// The sum of no charges is zero, and a new charge adds to the sum.
pub proof fn sums_grow_by_what_is_added(costs: Map<u64, i64>, k: u64, cost: i64)
    requires
        costs.dom().finite(),
        !costs.contains_key(k),
    ensures
        crate::policy::total(Map::<u64, i64>::empty()) == 0,
        crate::policy::total(costs.insert(k, cost)) == crate::policy::total(costs) + cost,
{
    crate::policy::lemma_total_insert(costs, k, cost);
}

/// Taking a charge out takes it off the sum.
pub proof fn sums_shrink_by_what_is_removed(costs: Map<u64, i64>, k: u64)
    requires
        costs.dom().finite(),
        costs.contains_key(k),
    ensures
        crate::policy::total(costs.remove(k)) == crate::policy::total(costs) - costs[k],
{
    crate::policy::lemma_total_insert(costs.remove(k), k, costs[k]);
    assert(costs.remove(k).insert(k, costs[k]) =~= costs);
}

/// A sum falls into what some keys are charged and what the others are.
pub proof fn sums_fall_into_parts(costs: Map<u64, i64>, keys: Set<u64>)
    requires
        costs.dom().finite(),
    ensures
        crate::policy::total(costs) == crate::policy::total(costs.restrict(keys))
            + crate::policy::total(costs.remove_keys(keys)),
    decreases costs.dom().len(),
{
    if costs.dom().len() == 0 {
        assert(costs =~= Map::<u64, i64>::empty());
        assert(costs.restrict(keys) =~= Map::<u64, i64>::empty());
        assert(costs.remove_keys(keys) =~= Map::<u64, i64>::empty());
    } else {
        let k = costs.dom().choose();
        let less = costs.remove(k);
        sums_fall_into_parts(less, keys);
        sums_shrink_by_what_is_removed(costs, k);
        assert(costs.restrict(keys).dom() =~= costs.dom().intersect(keys));
        assert(costs.remove_keys(keys).dom() =~= costs.dom().difference(keys));
        if keys.contains(k) {
            sums_shrink_by_what_is_removed(costs.restrict(keys), k);
            assert(costs.restrict(keys).remove(k) =~= less.restrict(keys));
            assert(costs.remove_keys(keys) =~= less.remove_keys(keys));
        } else {
            sums_shrink_by_what_is_removed(costs.remove_keys(keys), k);
            assert(costs.remove_keys(keys).remove(k) =~= less.remove_keys(keys));
            assert(costs.restrict(keys) =~= less.restrict(keys));
        }
    }
}

/// The charges of different keys can be taken off the sum together.
proof fn lemma_together(costs: Map<u64, i64>, pairs: Seq<PolicyPair>)
    requires
        costs.dom().finite(),
        forall|i: int, j: int|
            0 <= i < j < pairs.len() ==> (#[trigger] pairs[i]).key != (#[trigger] pairs[j]).key,
        forall|i: int|
            0 <= i < pairs.len() ==> costs.contains_key((#[trigger] pairs[i]).key)
                && costs[pairs[i].key] == pairs[i].cost,
    ensures
        costs.remove_keys(crate::policy::victim_keys(pairs)).dom().finite(),
        crate::policy::total(costs.remove_keys(crate::policy::victim_keys(pairs)))
            == crate::policy::total(costs) - together(pairs),
    decreases pairs.len(),
{
    let gone = crate::policy::victim_keys(pairs);
    if pairs.len() == 0 {
        assert(costs.remove_keys(gone) =~= costs);
    } else {
        let init = pairs.drop_last();
        let last = pairs.last();
        let early = crate::policy::victim_keys(init);
        assert(last == pairs[pairs.len() - 1]);
        lemma_together(costs, init);
        assert(!early.contains(last.key));
        sums_shrink_by_what_is_removed(costs.remove_keys(early), last.key);
        assert forall|k: u64| #[trigger] gone.contains(k) <==> (k == last.key || early.contains(
            k,
        )) by {
            if early.contains(k) {
                let i = choose|i: int| 0 <= i < init.len() && (#[trigger] init[i]).key == k;
                assert(pairs[i].key == k);
            }
            if gone.contains(k) && k != last.key {
                let i = choose|i: int| 0 <= i < pairs.len() && (#[trigger] pairs[i]).key == k;
                assert(init[i].key == k);
            }
        }
        assert(costs.remove_keys(gone) =~= costs.remove_keys(early).remove(last.key));
    }
}

/// What making room comes to: how many candidates were considered, and where each
/// victim stands among them.
proof fn lemma_make_room(
    costs: Map<u64, i64>,
    max_cost: int,
    cost: int,
    hits: u64,
    candidates: Seq<Candidate>,
) -> (r: (int, Seq<int>))
    requires
        costs.dom().finite(),
    ensures
        ({
            let (ledger, victims) = crate::policy::make_room(
                costs,
                max_cost,
                cost,
                hits,
                candidates,
            );
            let (n, at) = r;
            &&& 0 <= n <= candidates.len()
            &&& at.len() == victims.len()
            &&& forall|i: int|
                0 <= i < at.len() ==> {
                    &&& 0 <= #[trigger] at[i] < n
                    &&& candidates[at[i]].key == victims[i].key
                    &&& forall|j: int|
                        0 <= j < at[i] ==> (#[trigger] candidates[j]).key != victims[i].key
                }
            &&& forall|i: int, j: int| 0 <= i < j < at.len() ==> #[trigger] at[i] < #[trigger] at[j]
            &&& forall|i: int|
                0 <= i < victims.len() ==> costs.contains_key((#[trigger] victims[i]).key)
                    && costs[victims[i].key] == victims[i].cost
            &&& forall|i: int, j: int|
                0 <= i < j < victims.len() ==> (#[trigger] victims[i]).key != (
                #[trigger] victims[j]).key
            &&& forall|j: int|
                0 <= j < n ==> !ledger.contains_key((#[trigger] candidates[j]).key)
            &&& forall|i: int| 0 <= i < at.len() ==> candidates[#[trigger] at[i]].hits <= hits
            &&& {
                ||| crate::policy::total(ledger) + cost <= max_cost
                ||| n == candidates.len()
                ||| ledger.contains_key(candidates[n].key) && candidates[n].hits > hits
            }
            &&& crate::policy::total(costs) + cost <= max_cost ==> victims.len() == 0
        }),
    decreases candidates.len(),
{
    let (ledger, victims) = crate::policy::make_room(costs, max_cost, cost, hits, candidates);
    if crate::policy::fits(costs, max_cost, cost) || candidates.len() == 0 {
        (0, Seq::empty())
    } else {
        let c = candidates.first();
        let rest = candidates.drop_first();
        assert(c == candidates[0]);
        if !costs.contains_key(c.key) {
            let (n, at) = lemma_make_room(costs, max_cost, cost, hits, rest);
            crate::policy::make_room_removes_victims(costs, max_cost, cost, hits, candidates);
            let shifted = at.map_values(|x: int| x + 1);
            assert forall|i: int| 0 <= i < shifted.len() implies {
                &&& 0 <= #[trigger] shifted[i] < n + 1
                &&& candidates[shifted[i]].key == victims[i].key
                &&& forall|j: int|
                    0 <= j < shifted[i] ==> (#[trigger] candidates[j]).key != victims[i].key
            } by {
                assert(shifted[i] == at[i] + 1);
                assert(rest[at[i]] == candidates[shifted[i]]);
                assert forall|j: int| 0 <= j < shifted[i] implies (#[trigger] candidates[j]).key
                    != victims[i].key by {
                    if j > 0 {
                        assert(rest[j - 1] == candidates[j]);
                    }
                }
            }
            assert forall|i: int| 0 <= i < shifted.len() implies candidates[#[trigger] shifted[i]].hits
                <= hits by {
                assert(rest[at[i]] == candidates[shifted[i]]);
            }
            assert forall|j: int| 0 <= j < n + 1 implies !ledger.contains_key(
                (#[trigger] candidates[j]).key,
            ) by {
                if j > 0 {
                    assert(rest[j - 1] == candidates[j]);
                }
            }
            if n < rest.len() {
                assert(rest[n] == candidates[n + 1]);
            }
            (n + 1, shifted)
        } else if c.hits > hits {
            (0, Seq::empty())
        } else {
            let less = costs.remove(c.key);
            let (n, at) = lemma_make_room(less, max_cost, cost, hits, rest);
            let later = crate::policy::make_room(less, max_cost, cost, hits, rest).1;
            crate::policy::make_room_removes_victims(less, max_cost, cost, hits, rest);
            let first = PolicyPair { key: c.key, cost: costs[c.key] };
            assert(victims == seq![first] + later);
            let shifted = seq![0int] + at.map_values(|x: int| x + 1);
            assert(forall|i: int| 0 < i < victims.len() ==> victims[i] == later[i - 1]);
            assert(forall|i: int| 0 < i < shifted.len() ==> shifted[i] == at[i - 1] + 1);
            assert forall|i: int| 0 <= i < shifted.len() implies {
                &&& 0 <= #[trigger] shifted[i] < n + 1
                &&& candidates[shifted[i]].key == victims[i].key
                &&& forall|j: int|
                    0 <= j < shifted[i] ==> (#[trigger] candidates[j]).key != victims[i].key
            } by {
                if i > 0 {
                    assert(rest[at[i - 1]] == candidates[shifted[i]]);
                    assert(less.contains_key(later[i - 1].key));
                    assert forall|j: int| 0 <= j < shifted[i] implies (#[trigger] candidates[j]).key
                        != victims[i].key by {
                        if j > 0 {
                            assert(rest[j - 1] == candidates[j]);
                        }
                    }
                }
            }
            assert forall|i: int| 0 <= i < shifted.len() implies candidates[#[trigger] shifted[i]].hits
                <= hits by {
                if i > 0 {
                    assert(rest[at[i - 1]] == candidates[shifted[i]]);
                }
            }
            assert forall|i: int| 0 <= i < victims.len() implies costs.contains_key(
                (#[trigger] victims[i]).key,
            ) && costs[victims[i].key] == victims[i].cost by {
                if i > 0 {
                    assert(less.contains_key(later[i - 1].key));
                }
            }
            assert forall|i: int, j: int| 0 <= i < j < victims.len() implies (
            #[trigger] victims[i]).key != (#[trigger] victims[j]).key by {
                assert(less.contains_key(later[j - 1].key));
                if i > 0 {
                    assert(later[i - 1].key != later[j - 1].key);
                }
            }
            assert forall|j: int| 0 <= j < n + 1 implies !ledger.contains_key(
                (#[trigger] candidates[j]).key,
            ) by {
                if j > 0 {
                    assert(rest[j - 1] == candidates[j]);
                }
            }
            if n < rest.len() {
                assert(rest[n] == candidates[n + 1]);
            }
            (n + 1, shifted)
        }
    }
}

// Admission

/// A charge beyond the maximum is turned away, and nobody leaves for it.
pub proof fn charges_beyond_the_maximum_are_turned_away<S: BuildHasher>(
    l: &mut AsyncLFUPolicy<S>,
    key: u64,
    cost: i64,
    ranking: &Ranking,
    r: Admission,
    k: u64,
)
    requires
        call_ensures(AsyncLFUPolicy::<S>::add, (l, key, cost, ranking), r),
        cost > old(l).bound(),
    ensures
        !r.added,
        r.victims@.len() == 0,
        agree(old(l)@, final(l)@, k),
{
}

/// A key that is charged already is charged anew and nothing else: it is not added,
/// and nobody leaves for it.
pub proof fn charged_keys_are_charged_anew<S: BuildHasher>(
    l: &mut AsyncLFUPolicy<S>,
    key: u64,
    cost: i64,
    ranking: &Ranking,
    r: Admission,
    k: u64,
)
    requires
        call_ensures(AsyncLFUPolicy::<S>::add, (l, key, cost, ranking), r),
        cost <= old(l).bound(),
        old(l)@.contains_key(key),
    ensures
        !r.added,
        r.victims@.len() == 0,
        final(l)@.contains_key(key) && final(l)@[key] == cost,
        k != key ==> agree(old(l)@, final(l)@, k),
{
}

/// A key that was not charged is charged exactly if it is added, and then what was
/// asked. Of the other keys exactly the victims leave the ledger; what the rest is
/// charged stays.
pub proof fn only_added_keys_are_charged<S: BuildHasher>(
    l: &mut AsyncLFUPolicy<S>,
    key: u64,
    cost: i64,
    ranking: &Ranking,
    r: Admission,
    k: u64,
)
    requires
        call_ensures(AsyncLFUPolicy::<S>::add, (l, key, cost, ranking), r),
        !old(l)@.contains_key(key),
    ensures
        final(l)@.contains_key(key) == r.added,
        r.added ==> final(l)@[key] == cost,
        !among(r.victims@, key),
        k != key ==> if among(r.victims@, k) {
            old(l)@.contains_key(k) && !final(l)@.contains_key(k)
        } else {
            agree(old(l)@, final(l)@, k)
        },
{
    crate::policy::make_room_removes_victims(
        old(l)@,
        old(l).bound() as int,
        cost as int,
        ranking.incoming_hits,
        ranking.candidates@,
    );
    let gone = crate::policy::victim_keys(r.victims@);
    assert(gone.contains(k) <==> among(r.victims@, k));
    assert(gone.contains(key) <==> among(r.victims@, key));
}

/// The sum of the charges, as the ledger tells it before and after: it falls by what
/// the victims were charged, and grows by the new charge only if that was added. So
/// it does not grow by an admission that adds nothing, unless a victim was charged
/// less than zero.
pub proof fn sums_follow_admissions<S: BuildHasher>(
    l: &mut AsyncLFUPolicy<S>,
    key: u64,
    cost: i64,
    ranking: &Ranking,
    r: Admission,
    before: i128,
    after: i128,
)
    requires
        call_ensures(AsyncLFUPolicy::<S>::add, (l, key, cost, ranking), r),
        call_ensures(AsyncLFUPolicy::<S>::used, (old(l),), before),
        call_ensures(AsyncLFUPolicy::<S>::used, (final(l),), after),
        old(l).wf(),
        !old(l)@.contains_key(key),
    ensures
        after == before - together(r.victims@) + if r.added {
            cost as int
        } else {
            0
        },
        r.added ==> after <= old(l).bound(),
        !r.added && (forall|i: int| 0 <= i < r.victims@.len() ==> (#[trigger] r.victims@[i]).cost >= 0)
            ==> after <= before,
{
    l.charges_are_finite();
    let costs = old(l)@;
    let max = old(l).bound() as int;
    if cost <= max {
        let (ledger, victims) = crate::policy::make_room(
            costs,
            max,
            cost as int,
            ranking.incoming_hits,
            ranking.candidates@,
        );
        let _ = lemma_make_room(
            costs,
            max,
            cost as int,
            ranking.incoming_hits,
            ranking.candidates@,
        );
        crate::policy::make_room_removes_victims(
            costs,
            max,
            cost as int,
            ranking.incoming_hits,
            ranking.candidates@,
        );
        lemma_together(costs, victims);
        if r.added {
            sums_grow_by_what_is_added(ledger, key, cost);
        }
    }
    lemma_together_of_payers(r.victims@);
}

proof fn lemma_together_of_payers(pairs: Seq<PolicyPair>)
    ensures
        (forall|i: int| 0 <= i < pairs.len() ==> (#[trigger] pairs[i]).cost >= 0) ==> together(
            pairs,
        ) >= 0,
    decreases pairs.len(),
{
    if pairs.len() > 0 && (forall|i: int| 0 <= i < pairs.len() ==> (#[trigger] pairs[i]).cost >= 0) {
        let init = pairs.drop_last();
        assert forall|i: int| 0 <= i < init.len() implies (#[trigger] init[i]).cost >= 0 by {
            assert(init[i] == pairs[i]);
        }
        lemma_together_of_payers(init);
        assert(pairs[pairs.len() - 1].cost >= 0);
    }
}

/// An item that fits beside what is charged is added, and nobody leaves for it.
pub proof fn items_that_fit_are_added<S: BuildHasher>(
    l: &mut AsyncLFUPolicy<S>,
    key: u64,
    cost: i64,
    ranking: &Ranking,
    r: Admission,
    before: i128,
)
    requires
        call_ensures(AsyncLFUPolicy::<S>::add, (l, key, cost, ranking), r),
        call_ensures(AsyncLFUPolicy::<S>::used, (old(l),), before),
        !old(l)@.contains_key(key),
        cost <= old(l).bound(),
        before + cost <= old(l).bound(),
    ensures
        r.added,
        r.victims@.len() == 0,
{
}

/// The victims are the first of the candidates that are charged, in their order, each
/// once and with what it was charged: there is a number of candidates such that those
/// before it that were charged are the victims. None of them is asked for more often
/// than the incoming key.
///
/// An item that is turned away though it is within the maximum does not fit, and the
/// next candidate that is still charged, if there is one, is asked for more often.
pub proof fn victims_are_the_first_candidates<S: BuildHasher>(
    l: &mut AsyncLFUPolicy<S>,
    key: u64,
    cost: i64,
    ranking: &Ranking,
    r: Admission,
    after: i128,
) -> (w: (int, Seq<int>))
    requires
        call_ensures(AsyncLFUPolicy::<S>::add, (l, key, cost, ranking), r),
        call_ensures(AsyncLFUPolicy::<S>::used, (final(l),), after),
        old(l).wf(),
        cost <= old(l).bound(),
        !old(l)@.contains_key(key),
    ensures
        ({
            let (n, at) = w;
            let list = ranking.candidates@;
            let victims = r.victims@;
            &&& 0 <= n <= list.len()
            &&& at.len() == victims.len()
            &&& forall|i: int|
                0 <= i < at.len() ==> {
                    &&& 0 <= #[trigger] at[i] < n
                    &&& list[at[i]].key == victims[i].key
                    &&& list[at[i]].hits <= ranking.incoming_hits
                    &&& old(l)@.contains_key(victims[i].key)
                    &&& old(l)@[victims[i].key] == victims[i].cost
                    &&& forall|j: int|
                        0 <= j < at[i] ==> (#[trigger] list[j]).key != victims[i].key
                }
            &&& forall|i: int, j: int| 0 <= i < j < at.len() ==> #[trigger] at[i] < #[trigger] at[j]
            &&& forall|j: int|
                0 <= j < n && old(l)@.contains_key((#[trigger] list[j]).key) ==> among(
                    victims,
                    list[j].key,
                )
            &&& !r.added ==> {
                &&& after + cost > old(l).bound()
                &&& n < list.len() ==> final(l)@.contains_key(list[n].key) && list[n].hits
                    > ranking.incoming_hits
            }
        }),
{
    l.charges_are_finite();
    let costs = old(l)@;
    let list = ranking.candidates@;
    let max = old(l).bound() as int;
    let (ledger, victims) = crate::policy::make_room(
        costs,
        max,
        cost as int,
        ranking.incoming_hits,
        list,
    );
    let (n, at) = lemma_make_room(costs, max, cost as int, ranking.incoming_hits, list);
    crate::policy::make_room_removes_victims(costs, max, cost as int, ranking.incoming_hits, list);
    assert forall|j: int|
        0 <= j < n && old(l)@.contains_key((#[trigger] list[j]).key) implies among(
        r.victims@,
        list[j].key,
    ) by {
        assert(!ledger.contains_key(list[j].key));
        assert(crate::policy::victim_keys(victims).contains(list[j].key));
    }
    (n, at)
}

/// No victim leaves in vain: without the last of them the item would not have fitted.
pub proof fn no_victim_leaves_in_vain<S: BuildHasher>(
    l: &mut AsyncLFUPolicy<S>,
    key: u64,
    cost: i64,
    ranking: &Ranking,
    r: Admission,
    before: i128,
)
    requires
        call_ensures(AsyncLFUPolicy::<S>::add, (l, key, cost, ranking), r),
        call_ensures(AsyncLFUPolicy::<S>::used, (old(l),), before),
        old(l).wf(),
        r.victims@.len() > 0,
    ensures
        before - together(r.victims@.drop_last()) + cost > old(l).bound(),
{
    l.charges_are_finite();
    let costs = old(l)@;
    let list = ranking.candidates@;
    let max = old(l).bound() as int;
    let victims = r.victims@;
    let _ = lemma_make_room(costs, max, cost as int, ranking.incoming_hits, list);
    super::every_victim_is_needed(costs, max, cost as int, ranking.incoming_hits, list);
    assert(
        forall|i: int| 0 <= i < victims.drop_last().len() ==> victims.drop_last()[i] == victims[i]
    );
    lemma_together(costs, victims.drop_last());
}

/// The victims of an admission are different keys that were charged what is said of
/// them, and the incoming key is none of them.
pub proof fn victims_are_charged<S: BuildHasher>(
    l: &mut AsyncLFUPolicy<S>,
    key: u64,
    cost: i64,
    ranking: &Ranking,
    r: Admission,
)
    requires
        call_ensures(AsyncLFUPolicy::<S>::add, (l, key, cost, ranking), r),
        old(l).wf(),
    ensures
        !among(r.victims@, key),
        forall|i: int|
            0 <= i < r.victims@.len() ==> old(l)@.contains_key((#[trigger] r.victims@[i]).key)
                && old(l)@[r.victims@[i].key] == r.victims@[i].cost,
        forall|i: int, j: int|
            0 <= i < j < r.victims@.len() ==> (#[trigger] r.victims@[i]).key != (
            #[trigger] r.victims@[j]).key,
{
    l.charges_are_finite();
    let _ = lemma_make_room(
        old(l)@,
        old(l).bound() as int,
        cost as int,
        ranking.incoming_hits,
        ranking.candidates@,
    );
}

// Single charges

/// Removing a key takes its charge off the ledger and off the sum, and gives it back;
/// every other key stays as it is.
pub proof fn removals_give_the_charge_back<S: BuildHasher>(
    l: &mut AsyncLFUPolicy<S>,
    key: u64,
    r: Option<i64>,
    before: i128,
    after: i128,
    k: u64,
)
    requires
        call_ensures(AsyncLFUPolicy::<S>::remove, (l, key), r),
        call_ensures(AsyncLFUPolicy::<S>::used, (old(l),), before),
        call_ensures(AsyncLFUPolicy::<S>::used, (final(l),), after),
        old(l).wf(),
    ensures
        !final(l)@.contains_key(key),
        r is Some == old(l)@.contains_key(key),
        r is Some ==> r == Some(old(l)@[key]) && after == before - r->0,
        r is None ==> after == before,
        k != key ==> agree(old(l)@, final(l)@, k),
{
    l.charges_are_finite();
    if old(l)@.contains_key(key) {
        sums_shrink_by_what_is_removed(old(l)@, key);
    } else {
        assert(final(l)@ =~= old(l)@);
    }
}

/// Updating a key that is charged changes its charge, and the sum by the difference;
/// any other key and every other charge is left alone.
pub proof fn updates_change_one_charge<S: BuildHasher>(
    l: &mut AsyncLFUPolicy<S>,
    key: u64,
    cost: i64,
    r: bool,
    before: i128,
    after: i128,
    k: u64,
)
    requires
        call_ensures(AsyncLFUPolicy::<S>::update, (l, key, cost), r),
        call_ensures(AsyncLFUPolicy::<S>::used, (old(l),), before),
        call_ensures(AsyncLFUPolicy::<S>::used, (final(l),), after),
        old(l).wf(),
    ensures
        r == old(l)@.contains_key(key),
        r ==> final(l)@.contains_key(key) && final(l)@[key] == cost && after == before
            - old(l)@[key] + cost,
        !r ==> !final(l)@.contains_key(key) && after == before,
        k != key ==> agree(old(l)@, final(l)@, k),
{
    l.charges_are_finite();
    if old(l)@.contains_key(key) {
        let less = old(l)@.remove(key);
        sums_shrink_by_what_is_removed(old(l)@, key);
        sums_grow_by_what_is_added(less, key, cost);
        assert(less.insert(key, cost) =~= final(l)@);
    }
}

/// Whatever is done to a ledger, its bound, its number of counters and whether it
/// collects metrics stay what they were.
pub proof fn settings_of_a_ledger_stay<S: BuildHasher>(
    l: &mut AsyncLFUPolicy<S>,
    key: u64,
    cost: i64,
    ranking: &Ranking,
    a: Admission,
    removed: Option<i64>,
    updated: bool,
)
    requires
        call_ensures(AsyncLFUPolicy::<S>::add, (l, key, cost, ranking), a) || call_ensures(
            AsyncLFUPolicy::<S>::remove,
            (l, key),
            removed,
        ) || call_ensures(AsyncLFUPolicy::<S>::update, (l, key, cost), updated) || call_ensures(
            AsyncLFUPolicy::<S>::clear,
            (l,),
            (),
        ),
    ensures
        final(l).bound() == old(l).bound(),
        final(l).counters() == old(l).counters(),
        final(l).collecting() == old(l).collecting(),
{
}

/// A new ledger charges nothing, has the settings it was given, and collects no
/// metrics; once told to, it does, and that changes nothing else. A cleared one
/// charges nothing.
pub proof fn ledgers_start_empty<S: BuildHasher>(
    num_counters: usize,
    max_cost: i64,
    hasher: S,
    new: AsyncLFUPolicy<S>,
    told: &mut AsyncLFUPolicy<S>,
    cleared: &mut AsyncLFUPolicy<S>,
    used: i128,
    used_cleared: i128,
    k: u64,
)
    requires
        call_ensures(AsyncLFUPolicy::<S>::with_hasher, (num_counters, max_cost, hasher), new),
        call_ensures(AsyncLFUPolicy::<S>::used, (&new,), used),
        call_ensures(AsyncLFUPolicy::<S>::collect_metrics, (told,), ()),
        call_ensures(AsyncLFUPolicy::<S>::clear, (cleared,), ()),
        call_ensures(AsyncLFUPolicy::<S>::used, (final(cleared),), used_cleared),
    ensures
        !new@.contains_key(k),
        used == 0,
        new.bound() == max_cost,
        new.counters() == num_counters,
        !new.collecting(),
        final(told).collecting(),
        final(told).bound() == old(told).bound(),
        final(told).counters() == old(told).counters(),
        agree(old(told)@, final(told)@, k),
        !final(cleared)@.contains_key(k),
        used_cleared == 0,
{
}

/// What the ledger tells of a key is what the key is charged, and it lists exactly the
/// keys that are charged, each once. Its sum is that of what it tells.
pub proof fn ledgers_tell_what_is_charged<S: BuildHasher>(
    l: &AsyncLFUPolicy<S>,
    k: u64,
    charge: Option<i64>,
    keys: Vec<u64>,
    used: i128,
    max_cost: i64,
    num_counters: usize,
    collects: bool,
)
    requires
        call_ensures(AsyncLFUPolicy::<S>::charge, (l, k), charge),
        call_ensures(AsyncLFUPolicy::<S>::keys, (l,), keys),
        call_ensures(AsyncLFUPolicy::<S>::used, (l,), used),
        call_ensures(AsyncLFUPolicy::<S>::max_cost, (l,), max_cost),
        call_ensures(AsyncLFUPolicy::<S>::num_counters, (l,), num_counters),
        call_ensures(AsyncLFUPolicy::<S>::collects_metrics, (l,), collects),
    ensures
        charge is Some == l@.contains_key(k),
        charge is Some ==> charge == Some(l@[k]),
        keys@.contains(k) == l@.contains_key(k),
        forall|i: int, j: int| 0 <= i < j < keys@.len() ==> keys@[i] != keys@[j],
        used == crate::policy::total(l@),
        max_cost == l.bound(),
        num_counters == l.counters(),
        collects == l.collecting(),
{
    assert(keys@.to_set().contains(k) <==> keys@.contains(k));
}

/// Room is needed exactly for a key that is not charged, at a cost within the maximum
/// that does not fit beside what is charged.
pub proof fn room_is_needed_where_it_lacks<S: BuildHasher>(
    l: &AsyncLFUPolicy<S>,
    key: u64,
    cost: i64,
    r: bool,
    used: i128,
)
    requires
        call_ensures(AsyncLFUPolicy::<S>::needs_room, (l, key, cost), r),
        call_ensures(AsyncLFUPolicy::<S>::used, (l,), used),
    ensures
        r <==> !l@.contains_key(key) && cost <= l.bound() && used + cost > l.bound(),
{
}

} // verus!
