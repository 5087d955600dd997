//! Counters of what the cache did.

use vstd::prelude::*;

verus! {

/// What can be counted.
#[derive(Debug, Clone, Copy, PartialEq, Eq, Structural)]
pub enum MetricType {
    /// Inserts that did not reach the working task.
    DropSets,
}

/// How many counters there are of each type. An event is counted under the index
/// hash of its key, so that keys spread over them.
pub const SHARDS: usize = 256;

/// The counters of a cache. They stand still unless they were switched on.
#[derive(Clone, Copy)]
pub struct Metrics {
    op: bool,
    drop_sets: [u64; 256],
}

/// The counter that an index hash falls to.
pub open spec fn shard(hash: u64) -> int {
    hash as int % SHARDS as int
}

/// Counters that counted nothing.
pub open spec fn zeros() -> Seq<u64> {
    Seq::new(SHARDS as nat, |i: int| 0u64)
}

/// The counters after `delta` more under `hash`. A counter wraps around.
pub open spec fn counted(counters: Seq<u64>, hash: u64, delta: u64) -> Seq<u64> {
    counters.update(shard(hash), counters[shard(hash)].wrapping_add(delta))
}

/// The sum of the counters, modulo their range.
pub open spec fn wrapping_sum(counters: Seq<u64>) -> u64
    decreases counters.len(),
{
    if counters.len() == 0 {
        0
    } else {
        wrapping_sum(counters.drop_last()).wrapping_add(counters.last())
    }
}

/// Counting under any hash adds to the sum of the counters.
pub proof fn counting_adds_up(counters: Seq<u64>, hash: u64, delta: u64)
    requires
        counters.len() == SHARDS,
    ensures
        wrapping_sum(counted(counters, hash, delta)) == wrapping_sum(counters).wrapping_add(delta),
{
    lemma_sum_of_update(counters, shard(hash), delta);
}

proof fn lemma_sum_of_update(counters: Seq<u64>, i: int, delta: u64)
    requires
        0 <= i < counters.len(),
    ensures
        wrapping_sum(counters.update(i, counters[i].wrapping_add(delta))) == wrapping_sum(
            counters,
        ).wrapping_add(delta),
    decreases counters.len(),
{
    let after = counters.update(i, counters[i].wrapping_add(delta));
    if i == counters.len() - 1 {
        assert(after.drop_last() =~= counters.drop_last());
    } else {
        lemma_sum_of_update(counters.drop_last(), i, delta);
        assert(after.drop_last() =~= counters.drop_last().update(
            i,
            counters.drop_last()[i].wrapping_add(delta),
        ));
    }
}

/// Counters that counted nothing sum up to nothing.
pub proof fn nothing_counted_is_zero(n: nat)
    ensures
        wrapping_sum(Seq::new(n, |i: int| 0u64)) == 0,
    decreases n,
{
    if n > 0 {
        nothing_counted_is_zero((n - 1) as nat);
        assert(Seq::new(n, |i: int| 0u64).drop_last() =~= Seq::new((n - 1) as nat, |i: int| 0u64));
    }
}

impl Metrics {
    /// There are as many counters as there are places for an index hash.
    pub proof fn counters_are_many(&self)
        ensures
            self.dropped().len() == SHARDS,
    {
    }

    /// Whether the counters count.
    pub closed spec fn counting(&self) -> bool {
        self.op
    }

    /// The counters of dropped inserts.
    pub closed spec fn dropped(&self) -> Seq<u64> {
        self.drop_sets@
    }

    /// Counters that stand still.
    pub fn new() -> (r: Self)
        ensures
            !r.counting(),
            r.dropped() == zeros(),
    {
        let r = Metrics { op: false, drop_sets: [0u64; 256] };
        assert(r.dropped() =~= zeros());
        r
    }

    /// Counters that count.
    pub fn new_op() -> (r: Self)
        ensures
            r.counting(),
            r.dropped() == zeros(),
    {
        let r = Metrics { op: true, drop_sets: [0u64; 256] };
        assert(r.dropped() =~= zeros());
        r
    }

    /// Whether the counters count.
    pub fn is_op(&self) -> (r: bool)
        ensures
            r == self.counting(),
    {
        self.op
    }

    /// How often something was counted, under whatever hash.
    pub fn get(&self, typ: MetricType) -> (r: u64)
        ensures
            r == (match typ {
                MetricType::DropSets => wrapping_sum(self.dropped()),
            }),
    {
        match typ {
            MetricType::DropSets => {
                let mut sum: u64 = 0;
                let mut i: usize = 0;
                while i < SHARDS
                    invariant
                        i <= SHARDS,
                        self.drop_sets@.len() == SHARDS,
                        sum == wrapping_sum(self.drop_sets@.take(i as int)),
                    decreases SHARDS - i,
                {
                    assert(self.drop_sets@.take(i + 1).drop_last() =~= self.drop_sets@.take(
                        i as int,
                    ));
                    sum = sum.wrapping_add(self.drop_sets[i]);
                    i += 1;
                }
                assert(self.drop_sets@.take(SHARDS as int) =~= self.drop_sets@);
                sum
            },
        }
    }

    /// What the counter that `hash` falls to counted.
    pub fn get_under(&self, typ: MetricType, hash: u64) -> (r: u64)
        ensures
            r == (match typ {
                MetricType::DropSets => self.dropped()[shard(hash)],
            }),
    {
        let i: usize = (hash % SHARDS as u64) as usize;
        match typ {
            MetricType::DropSets => self.drop_sets[i],
        }
    }

    /// Counts `delta` more of something under a hash.
    pub fn add(&mut self, typ: MetricType, hash: u64, delta: u64)
        ensures
            final(self).counting() == old(self).counting(),
            final(self).dropped() == (match typ {
                MetricType::DropSets => if old(self).counting() {
                    counted(old(self).dropped(), hash, delta)
                } else {
                    old(self).dropped()
                },
            }),
    {
        if self.op {
            let i: usize = (hash % SHARDS as u64) as usize;
            match typ {
                MetricType::DropSets => {
                    self.drop_sets[i] = self.drop_sets[i].wrapping_add(delta);
                },
            }
        }
    }

    /// Sets every counter to zero.
    pub fn clear(&mut self)
        ensures
            final(self).counting() == old(self).counting(),
            final(self).dropped() == zeros(),
    {
        self.drop_sets = [0u64; 256];
        assert(self.dropped() =~= zeros());
    }
}

} // verus!
