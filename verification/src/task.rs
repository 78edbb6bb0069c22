//! The periodic task: an unbounded loop that, once per fixed interval,
//! increments a counter and emits it. The loop itself, and the cooperative
//! suspension between emissions, live with the scheduler outside the library;
//! here stands the state each iteration carries and what it emits.

use vstd::prelude::*;

verus! {

/// The counter values a task has emitted after `count` iterations: the
/// sequence `1, 2, ..., count`.
pub open spec fn emissions(count: nat) -> Seq<int> {
    Seq::new(count, |k: int| k + 1)
}

/// The state a periodic task carries between iterations: how many counter
/// values it has emitted so far.
pub struct PeriodicTask {
    pub count: u64,
}

impl PeriodicTask {
    /// Every counter value emitted so far.
    pub open spec fn emitted(self) -> Seq<int> {
        emissions(self.count as nat)
    }

    /// A fresh task: the counter resets each invocation, so nothing is
    /// emitted yet.
    pub fn new() -> (t: Self)
        ensures
            t.count == 0,
            t.emitted() == Seq::<int>::empty(),
    {
        proof {
            assert(emissions(0) =~= Seq::<int>::empty());
        }
        PeriodicTask { count: 0 }
    }

    /// One iteration: increment the counter and hand back the value to emit.
    /// The emitted history grows by exactly that value.
    pub fn tick(&mut self) -> (v: u64)
        requires
            old(self).count < u64::MAX,
        ensures
            final(self).count == old(self).count + 1,
            v == final(self).count,
            final(self).emitted() == old(self).emitted().push(v as int),
    {
        proof {
            assert(emissions((self.count + 1) as nat) =~= emissions(self.count as nat).push(
                self.count as int + 1,
            ));
        }
        self.count = self.count + 1;
        self.count
    }
}

/// For every task, the emitted counter values form a strictly increasing
/// sequence, and the first emitted value is 1.
pub proof fn lemma_counters_monotonic(count: nat)
    ensures
        forall|i: int, j: int|
            0 <= i < j < emissions(count).len() ==> emissions(count)[i] < emissions(count)[j],
        count > 0 ==> emissions(count)[0] == 1,
{
}

} // verus!
