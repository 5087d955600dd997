//! How often keys are asked for.

use vstd::prelude::*;
use crate::policy::{Candidate, Ranking};

verus! {

/// The most that an access counter of four bits can say.
pub const MAX_HITS: u8 = 15;

/// Access counters. Keys share them, so that they never take up more room.
pub struct AccessCounters {
    counters: Vec<u8>,
    touches: usize,
}

/// What access counters say, and how many touches they have had since they were
/// last halved.
#[verifier::ext_equal]
pub struct CountersView {
    pub counters: Seq<u8>,
    pub touches: nat,
}

impl CountersView {
    /// The counter of a key.
    pub open spec fn slot(self, key: u64) -> int {
        key as int % self.counters.len() as int
    }

    /// How often a key was asked for, by its counter.
    pub open spec fn hits(self, key: u64) -> u64 {
        self.counters[self.slot(key)] as u64
    }

    /// The counters with one more hit of a key. A full counter stays full.
    pub open spec fn bumped(self, key: u64) -> Seq<u8> {
        let hits = self.counters[self.slot(key)];
        self.counters.update(
            self.slot(key),
            if hits < MAX_HITS {
                (hits + 1) as u8
            } else {
                hits
            },
        )
    }

    /// The counters after a key was asked for. Once there were as many touches as
    /// there are counters, all counters are halved, so that what was asked for long
    /// ago is forgotten.
    pub open spec fn touched(self, key: u64) -> Self {
        if self.touches + 1 >= self.counters.len() {
            CountersView { counters: self.bumped(key).map_values(|c: u8| c / 2), touches: 0 }
        } else {
            CountersView { counters: self.bumped(key), touches: self.touches + 1 }
        }
    }
}

/// Whether `ranking` is how `charged` keys could make room for `incoming`: each of
/// them is a candidate, once, and those that are asked for least come first.
pub open spec fn ranks(
    counters: CountersView,
    incoming: u64,
    charged: Seq<u64>,
    ranking: Ranking,
) -> bool {
    let list = ranking.candidates@;
    &&& ranking.incoming_hits == counters.hits(incoming)
    &&& forall|a: int|
        0 <= a < list.len() ==> charged.contains((#[trigger] list[a]).key) && list[a].hits
            == counters.hits(list[a].key)
    &&& forall|k: u64| #[trigger]
        charged.contains(k) ==> exists|a: int| 0 <= a < list.len() && (#[trigger] list[a]).key == k
    &&& forall|a: int, b: int|
        0 <= a < b < list.len() ==> (#[trigger] list[a]).hits <= (#[trigger] list[b]).hits
    &&& forall|a: int, b: int|
        charged.no_duplicates() && 0 <= a < b < list.len() ==> (#[trigger] list[a]).key != (
        #[trigger] list[b]).key
}

impl View for AccessCounters {
    type V = CountersView;

    closed spec fn view(&self) -> CountersView {
        CountersView { counters: self.counters@, touches: self.touches as nat }
    }
}

impl AccessCounters {
    /// There is a counter, none says more than it can, and they are halved in time.
    pub closed spec fn wf(&self) -> bool {
        &&& self.counters@.len() > 0
        &&& self.touches < self.counters@.len()
        &&& forall|i: int|
            0 <= i < self.counters@.len() ==> (#[trigger] self.counters@[i]) <= MAX_HITS
    }

    /// Well-formed counters say no more than they can of any key. There is one at
    /// least, and they are halved in time.
    pub proof fn hits_are_bounded(&self, key: u64)
        requires
            self.wf(),
        ensures
            self@.hits(key) <= MAX_HITS,
            self@.touches < self@.counters.len(),
    {
    }

    /// Counters of keys that were never asked for.
    pub fn new(num_counters: usize) -> (r: Self)
        requires
            num_counters > 0,
        ensures
            r.wf(),
            r@ == (CountersView {
                counters: Seq::new(num_counters as nat, |i: int| 0u8),
                touches: 0,
            }),
    {
        let counters: Vec<u8> = vec![0u8; num_counters];
        assert(counters@ =~= Seq::new(num_counters as nat, |i: int| 0u8));
        AccessCounters { counters, touches: 0 }
    }

    /// How often a key was asked for, as far as that is remembered.
    pub fn hits(&self, key: u64) -> (r: u64)
        requires
            self.wf(),
        ensures
            r == self@.hits(key),
    {
        let slot: usize = (key % self.counters.len() as u64) as usize;
        self.counters[slot] as u64
    }

    /// Counts that a key was asked for.
    pub fn touch(&mut self, key: u64)
        requires
            old(self).wf(),
        ensures
            final(self).wf(),
            final(self)@ == old(self)@.touched(key),
    {
        let n: usize = self.counters.len();
        let slot: usize = (key % n as u64) as usize;
        let hits: u8 = self.counters[slot];
        let hits: u8 = if hits < MAX_HITS {
            hits + 1
        } else {
            hits
        };
        self.counters.set(slot, hits);
        assert(self.counters@ =~= old(self)@.bumped(key));
        self.touches = self.touches + 1;
        if self.touches >= n {
            self.halve();
        }
    }

    /// Halves all counters.
    fn halve(&mut self)
        requires
            old(self).counters@.len() > 0,
            forall|i: int|
                0 <= i < old(self).counters@.len() ==> (#[trigger] old(self).counters@[i])
                    <= MAX_HITS,
        ensures
            final(self).wf(),
            final(self)@.counters == old(self)@.counters.map_values(|c: u8| c / 2),
            final(self)@.touches == 0,
    {
        let ghost before = self.counters@;
        let n: usize = self.counters.len();
        let mut i: usize = 0;
        while i < n
            invariant
                i <= n,
                n == before.len(),
                self.counters@.len() == n,
                forall|j: int| 0 <= j < i ==> (#[trigger] self.counters@[j]) == before[j] / 2,
                forall|j: int| i <= j < n ==> (#[trigger] self.counters@[j]) == before[j],
            decreases n - i,
        {
            let half: u8 = self.counters[i] / 2;
            self.counters.set(i, half);
            i += 1;
        }
        self.touches = 0;
        assert(self.counters@ =~= before.map_values(|c: u8| c / 2));
    }

    /// How the charged keys could make room for an incoming one.
    pub fn rank(&self, incoming: u64, charged: &Vec<u64>) -> (r: Ranking)
        requires
            self.wf(),
        ensures
            ranks(self@, incoming, charged@, r),
    {
        let ghost seen = self@;
        let mut list: Vec<Candidate> = Vec::new();
        let mut level: u64 = 0;
        while level <= MAX_HITS as u64
            invariant
                self.wf(),
                seen == self@,
                level <= MAX_HITS + 1,
                forall|a: int|
                    0 <= a < list@.len() ==> charged@.contains((#[trigger] list@[a]).key)
                        && list@[a].hits == seen.hits(list@[a].key) && list@[a].hits < level,
                forall|i: int|
                    0 <= i < charged@.len() && seen.hits(#[trigger] charged@[i]) < level
                        ==> exists|a: int|
                        0 <= a < list@.len() && (#[trigger] list@[a]).key == charged@[i],
                forall|a: int, b: int|
                    0 <= a < b < list@.len() ==> (#[trigger] list@[a]).hits <= (
                    #[trigger] list@[b]).hits,
                forall|a: int, b: int|
                    charged@.no_duplicates() && 0 <= a < b < list@.len() ==> (
                    #[trigger] list@[a]).key != (
                    #[trigger] list@[b]).key,
            decreases MAX_HITS + 1 - level,
        {
            let mut i: usize = 0;
            while i < charged.len()
                invariant
                    self.wf(),
                    seen == self@,
                    i <= charged@.len(),
                    forall|a: int|
                        0 <= a < list@.len() ==> charged@.contains((#[trigger] list@[a]).key)
                            && list@[a].hits == seen.hits(list@[a].key) && list@[a].hits <= level,
                    forall|a: int|
                        0 <= a < list@.len() && (#[trigger] list@[a]).hits == level
                            ==> charged@.take(i as int).contains(list@[a].key),
                    forall|j: int|
                        0 <= j < charged@.len() && (seen.hits(#[trigger] charged@[j]) < level || (
                        j < i && seen.hits(charged@[j]) == level)) ==> exists|a: int|
                            0 <= a < list@.len() && (#[trigger] list@[a]).key == charged@[j],
                    forall|a: int, b: int|
                        0 <= a < b < list@.len() ==> (#[trigger] list@[a]).hits <= (
                        #[trigger] list@[b]).hits,
                    forall|a: int, b: int|
                        charged@.no_duplicates() && 0 <= a < b < list@.len() ==> (
                        #[trigger] list@[a]).key != (
                        #[trigger] list@[b]).key,
                decreases charged@.len() - i,
            {
                let key: u64 = charged[i];
                let hits: u64 = self.hits(key);
                let ghost before = list@;
                proof {
                    let early = charged@.take(i as int);
                    let next = charged@.take(i + 1);
                    assert forall|k: u64| #[trigger] early.contains(k) implies next.contains(k) by {
                        let j = choose|j: int| 0 <= j < early.len() && early[j] == k;
                        assert(next[j] == k);
                    }
                    assert(next[i as int] == key);
                    if charged@.no_duplicates() && early.contains(key) {
                        let j = choose|j: int| 0 <= j < early.len() && early[j] == key;
                        assert(charged@[j] == charged@[i as int]);
                    }
                }
                if hits == level {
                    list.push(Candidate { key, hits });
                    proof {
                        assert(list@[before.len() as int].key == key);
                        assert forall|j: int|
                            0 <= j < charged@.len() && (seen.hits(#[trigger] charged@[j]) < level
                                || (j < i + 1 && seen.hits(charged@[j])
                                == level)) implies exists|a: int|
                            0 <= a < list@.len() && (#[trigger] list@[a]).key == charged@[j] by {
                            if j != i {
                                let a = choose|a: int|
                                    0 <= a < before.len() && (#[trigger] before[a]).key
                                        == charged@[j];
                                assert(list@[a].key == charged@[j]);
                            }
                        }
                    }
                }
                i += 1;
            }
            level += 1;
        }
        proof {
            assert forall|k: u64| #[trigger] charged@.contains(k) implies exists|a: int|
                0 <= a < list@.len() && (#[trigger] list@[a]).key == k by {
                let i = choose|i: int| 0 <= i < charged@.len() && charged@[i] == k;
                self.hits_are_bounded(k);
                assert(seen.hits(charged@[i]) < level);
            }
        }
        let r = Ranking { incoming_hits: self.hits(incoming), candidates: list };
        r
    }
}

} // verus!
