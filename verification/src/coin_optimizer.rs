use vstd::prelude::*;

verus! {

/// How many iterations in a row may pass without a significant improvement
/// before the coin-betting optimiser stops.
pub const PATIENCE: usize = 50;

/// The early-stopping state of the coin-betting optimiser: the number of
/// iterations since the log-likelihood last rose above its best value by more
/// than the tolerance.
#[derive(Debug, Clone, Copy)]
pub struct StallMonitor {
    pub iters_since_improvement: usize,
}

/// What the optimiser does after one evaluation of the log-likelihood.
#[derive(Debug, Clone, Copy, PartialEq, Eq)]
pub struct StallDecision {
    /// Remember the current parameters as the best ones.
    pub record_best: bool,
    /// Take the current log-likelihood as the new best value.
    pub raise_best: bool,
    /// Stop iterating.
    pub stop: bool,
}

/// One observation: whether the log-likelihood exceeded the best value, and
/// whether it did so by more than the tolerance.
pub open spec fn significant(above_best: bool, beyond_tolerance: bool) -> bool {
    above_best && beyond_tolerance
}

/// The counter after one observation.
pub open spec fn next_count(count: nat, above_best: bool, beyond_tolerance: bool) -> nat {
    if significant(above_best, beyond_tolerance) {
        0
    } else {
        count + 1
    }
}

/// The counter after a run of observations, starting from zero.
pub open spec fn count_after(events: Seq<(bool, bool)>) -> nat
    decreases events.len(),
{
    if events.len() == 0 {
        0
    } else {
        let last = events[events.len() - 1];
        next_count(count_after(events.subrange(0, events.len() - 1)), last.0, last.1)
    }
}

/// The number of observations at the end of `events` that brought no
/// significant improvement.
pub open spec fn trailing_stalls(events: Seq<(bool, bool)>) -> nat
    decreases events.len(),
{
    if events.len() == 0 {
        0
    } else if significant(events[events.len() - 1].0, events[events.len() - 1].1) {
        0
    } else {
        trailing_stalls(events.subrange(0, events.len() - 1)) + 1
    }
}

/// After any run of observations, the counter is the number of observations
/// since the last significant improvement (or since the start).
pub proof fn law_counter_counts_trailing_stalls(events: Seq<(bool, bool)>)
    ensures
        count_after(events) == trailing_stalls(events),
    decreases events.len(),
{
    if events.len() > 0 {
        law_counter_counts_trailing_stalls(events.subrange(0, events.len() - 1));
    }
}

impl StallMonitor {
    pub fn new() -> (m: Self)
        ensures
            m.iters_since_improvement == 0,
    {
        StallMonitor { iters_since_improvement: 0 }
    }

    /// Records one evaluation of the log-likelihood: `above_best` says
    /// whether it exceeded the best value so far, `beyond_tolerance` whether
    /// it differs from that value by more than the tolerance. A value above
    /// the best always becomes the recorded best parameter vector, but only
    /// a significant improvement resets the counter and raises the best
    /// value; the optimiser stops once the counter exceeds `PATIENCE`.
    pub fn observe(&mut self, above_best: bool, beyond_tolerance: bool) -> (d: StallDecision)
        requires
            old(self).iters_since_improvement <= PATIENCE,
        ensures
            final(self).iters_since_improvement == next_count(
                old(self).iters_since_improvement as nat,
                above_best,
                beyond_tolerance,
            ),
            d.record_best == above_best,
            d.raise_best == significant(above_best, beyond_tolerance),
            d.stop == (final(self).iters_since_improvement > PATIENCE),
    {
        let mut raise_best = false;
        if above_best {
            if beyond_tolerance {
                self.iters_since_improvement = 0;
                raise_best = true;
            } else {
                self.iters_since_improvement = self.iters_since_improvement + 1;
            }
        } else {
            self.iters_since_improvement = self.iters_since_improvement + 1;
        }
        StallDecision {
            record_best: above_best,
            raise_best,
            stop: self.iters_since_improvement > PATIENCE,
        }
    }
}

} // verus!
