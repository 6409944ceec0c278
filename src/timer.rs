use vstd::prelude::*;

verus! {

/// A repeating countdown measured in nanoseconds: it accumulates the time it
/// is fed and reports a completion whenever a full period has gone by,
/// keeping the remainder for the next period.
#[derive(Clone, Copy, Debug, PartialEq, Eq, Structural)]
pub struct SpawnTimer {
    pub period_nanos: u64,
    pub elapsed_nanos: u64,
}

/// Whether feeding `delta` nanoseconds to a timer that stands at `elapsed`
/// of `period` completes a period.
pub open spec fn tick_finishes(period: nat, elapsed: nat, delta: nat) -> bool {
    elapsed + delta >= period
}

/// Where a timer that stands at `elapsed` of `period` stands after `delta`
/// more nanoseconds.
pub open spec fn tick_elapsed(period: nat, elapsed: nat, delta: nat) -> nat
    recommends
        period > 0,
{
    (elapsed + delta) % period
}

impl SpawnTimer {
    /// A timer with a positive period that has not yet completed it.
    pub open spec fn wf(&self) -> bool {
        0 < self.period_nanos && self.elapsed_nanos < self.period_nanos
    }

    /// A timer of the given period, at its start.
    pub fn new(period_nanos: u64) -> (t: SpawnTimer)
        requires
            period_nanos > 0,
        ensures
            t.wf(),
            t.period_nanos == period_nanos,
            t.elapsed_nanos == 0,
    {
        SpawnTimer { period_nanos, elapsed_nanos: 0 }
    }

    /// Feeds `delta_nanos` to the timer; true when a period was completed
    /// on this call. One call reports at most one completion.
    pub fn tick(&mut self, delta_nanos: u64) -> (just_finished: bool)
        requires
            old(self).wf(),
        ensures
            final(self).wf(),
            final(self).period_nanos == old(self).period_nanos,
            final(self).elapsed_nanos == tick_elapsed(
                old(self).period_nanos as nat,
                old(self).elapsed_nanos as nat,
                delta_nanos as nat,
            ),
            just_finished == tick_finishes(
                old(self).period_nanos as nat,
                old(self).elapsed_nanos as nat,
                delta_nanos as nat,
            ),
    {
        let total: u128 = self.elapsed_nanos as u128 + delta_nanos as u128;
        let period: u128 = self.period_nanos as u128;
        let rest: u128 = total % period;
        assert(rest < period);
        self.elapsed_nanos = rest as u64;
        total >= period
    }
}

} // verus!
