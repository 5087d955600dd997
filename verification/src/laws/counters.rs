//! What the counters count: dropped inserts, and how often keys are asked for.

use vstd::prelude::*;
use crate::frequency::AccessCounters;
use crate::metrics::{MetricType, Metrics};
use crate::policy::Ranking;

verus! {

/// Counting under a hash adds to the counter of that hash and to the sum, and to no
/// other counter. Two hashes share a counter where they are the same modulo the number
/// of counters. Where the counters stand still, nothing changes.
pub proof fn counts_go_to_their_counter(
    m: &mut Metrics,
    hash: u64,
    delta: u64,
    other: u64,
    before: u64,
    after: u64,
    own_before: u64,
    own_after: u64,
    other_before: u64,
    other_after: u64,
)
    requires
        call_ensures(Metrics::add, (m, MetricType::DropSets, hash, delta), ()),
        call_ensures(Metrics::get, (old(m), MetricType::DropSets), before),
        call_ensures(Metrics::get, (final(m), MetricType::DropSets), after),
        call_ensures(Metrics::get_under, (old(m), MetricType::DropSets, hash), own_before),
        call_ensures(Metrics::get_under, (final(m), MetricType::DropSets, hash), own_after),
        call_ensures(Metrics::get_under, (old(m), MetricType::DropSets, other), other_before),
        call_ensures(Metrics::get_under, (final(m), MetricType::DropSets, other), other_after),
    ensures
        final(m).counting() == old(m).counting(),
        old(m).counting() ==> {
            &&& after == before.wrapping_add(delta)
            &&& own_after == own_before.wrapping_add(delta)
            &&& hash % 256 == other % 256 ==> other_after == own_after
            &&& hash % 256 != other % 256 ==> other_after == other_before
        },
        !old(m).counting() ==> {
            &&& after == before
            &&& own_after == own_before
            &&& other_after == other_before
        },
{
    old(m).counters_are_many();
    crate::metrics::counting_adds_up(old(m).dropped(), hash, delta);
}

/// What is told of a hash is what its counter counted.
pub proof fn counters_are_told_by_hash(m: &Metrics, hash: u64, own: u64, op: bool)
    requires
        call_ensures(Metrics::get_under, (m, MetricType::DropSets, hash), own),
        call_ensures(Metrics::is_op, (m,), op),
    ensures
        m.dropped().len() == 256,
        own == m.dropped()[hash as int % 256],
        op == m.counting(),
{
    m.counters_are_many();
}

/// New counters count nothing; they stand still or count, as they are made. Cleared
/// ones count nothing and go on as before.
pub proof fn counters_start_at_zero(
    still: Metrics,
    counting: Metrics,
    cleared: &mut Metrics,
    hash: u64,
    sums: (u64, u64, u64),
    own: (u64, u64, u64),
    ops: (bool, bool),
)
    requires
        call_ensures(Metrics::new, (), still),
        call_ensures(Metrics::new_op, (), counting),
        call_ensures(Metrics::clear, (cleared,), ()),
        call_ensures(Metrics::get, (&still, MetricType::DropSets), sums.0),
        call_ensures(Metrics::get, (&counting, MetricType::DropSets), sums.1),
        call_ensures(Metrics::get, (final(cleared), MetricType::DropSets), sums.2),
        call_ensures(Metrics::get_under, (&still, MetricType::DropSets, hash), own.0),
        call_ensures(Metrics::get_under, (&counting, MetricType::DropSets, hash), own.1),
        call_ensures(Metrics::get_under, (final(cleared), MetricType::DropSets, hash), own.2),
        call_ensures(Metrics::is_op, (&still,), ops.0),
        call_ensures(Metrics::is_op, (&counting,), ops.1),
    ensures
        sums == (0u64, 0u64, 0u64),
        own == (0u64, 0u64, 0u64),
        !ops.0 && !still.counting(),
        ops.1 && counting.counting(),
        final(cleared).counting() == old(cleared).counting(),
{
    crate::metrics::nothing_counted_is_zero(256);
}

/// New access counters remember nothing.
pub proof fn nothing_was_asked_for_yet(num_counters: usize, f: AccessCounters, key: u64, hits: u64)
    requires
        num_counters > 0,
        call_ensures(AccessCounters::new, (num_counters,), f),
        call_ensures(AccessCounters::hits, (&f, key), hits),
    ensures
        hits == 0,
        f@.counters.len() == num_counters,
        f@.touches == 0,
{
}

/// Asking for a key counts a hit for every key with its counter, up to fifteen, and for
/// no other key. After as many touches as there are counters every count is halved.
pub proof fn touches_are_remembered(
    f: &mut AccessCounters,
    key: u64,
    other: u64,
    before: u64,
    after: u64,
    other_before: u64,
    other_after: u64,
)
    requires
        old(f).wf(),
        call_ensures(AccessCounters::touch, (f, key), ()),
        call_ensures(AccessCounters::hits, (old(f), key), before),
        call_ensures(AccessCounters::hits, (final(f), key), after),
        call_ensures(AccessCounters::hits, (old(f), other), other_before),
        call_ensures(AccessCounters::hits, (final(f), other), other_after),
    ensures
        before <= 15 && after <= 15,
        ({
            let n = old(f)@.counters.len();
            let full = old(f)@.touches + 1 >= n;
            let own: int = if before < 15 {
                before + 1
            } else {
                15
            };
            &&& final(f)@.counters.len() == n
            &&& final(f)@.touches == if full {
                0
            } else {
                old(f)@.touches + 1
            }
            &&& !full ==> after == own
            &&& full ==> after == own / 2
            &&& key as int % n as int == other as int % n as int ==> other_after == after
            &&& key as int % n as int != other as int % n as int ==> other_after == if full {
                other_before as int / 2
            } else {
                other_before as int
            }
        }),
{
    old(f).hits_are_bounded(key);
    old(f).hits_are_bounded(other);
    final(f).hits_are_bounded(key);
    let n = old(f)@.counters.len() as int;
    vstd::arithmetic::div_mod::lemma_mod_bound(key as int, n);
    vstd::arithmetic::div_mod::lemma_mod_bound(other as int, n);
}

/// A ranking tells how often the incoming key is asked for. It lists every charged key
/// with how often that is asked for, each once where it is charged once, and no other;
/// and the least asked for first.
pub proof fn rankings_put_the_least_asked_for_first(
    f: &AccessCounters,
    incoming: u64,
    charged: Vec<u64>,
    r: Ranking,
    k: u64,
    hits: u64,
    incoming_hits: u64,
)
    requires
        call_ensures(AccessCounters::rank, (f, incoming, &charged), r),
        call_ensures(AccessCounters::hits, (f, incoming), incoming_hits),
        call_ensures(AccessCounters::hits, (f, k), hits),
    ensures
        r.incoming_hits == incoming_hits,
        charged@.contains(k) <==> exists|a: int|
            0 <= a < r.candidates@.len() && (#[trigger] r.candidates@[a]).key == k,
        forall|a: int|
            0 <= a < r.candidates@.len() && (#[trigger] r.candidates@[a]).key == k
                ==> r.candidates@[a].hits == hits,
        forall|a: int, b: int|
            0 <= a < b < r.candidates@.len() ==> (#[trigger] r.candidates@[a]).hits <= (
            #[trigger] r.candidates@[b]).hits,
        forall|a: int, b: int|
            charged@.no_duplicates() && 0 <= a < b < r.candidates@.len() ==> (
            #[trigger] r.candidates@[a]).key != (#[trigger] r.candidates@[b]).key,
{
}

} // verus!
