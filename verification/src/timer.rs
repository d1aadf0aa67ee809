//! The timing primitive: a one-shot countdown clock, advanced by a delta each
//! simulation tick, with a finished query and an elapsed-fraction query.

use vstd::prelude::*;
use crate::units::{DURATION_LIMIT_MS, PERMILLE};

verus! {

/// A one-shot countdown clock measured in whole milliseconds. Elapsed time is
/// capped at the duration, so a finished timer stays exactly at its duration.
/// A zero-duration timer is finished from the start.
#[derive(Clone, Copy, Debug, PartialEq, Eq, Structural)]
pub struct CountdownTimer {
    pub elapsed_ms: u64,
    pub duration_ms: u64,
}

impl CountdownTimer {
    pub open spec fn wf(self) -> bool {
        self.elapsed_ms <= self.duration_ms <= DURATION_LIMIT_MS
    }

    /// A timer is finished once its elapsed time has reached its duration.
    pub open spec fn spec_finished(self) -> bool {
        self.elapsed_ms == self.duration_ms
    }

    /// Elapsed fraction in permille; a zero-duration timer counts as fully
    /// elapsed.
    pub open spec fn spec_fraction_permille(self) -> int {
        if self.duration_ms == 0 {
            PERMILLE as int
        } else {
            self.elapsed_ms * PERMILLE / self.duration_ms as int
        }
    }

    /// The clock after advancing by `delta_ms`, saturating at the duration.
    pub open spec fn spec_ticked(self, delta_ms: u64) -> CountdownTimer {
        if self.elapsed_ms + delta_ms <= self.duration_ms {
            CountdownTimer {
                elapsed_ms: (self.elapsed_ms + delta_ms) as u64,
                duration_ms: self.duration_ms,
            }
        } else {
            CountdownTimer { elapsed_ms: self.duration_ms, duration_ms: self.duration_ms }
        }
    }

    pub fn new(duration_ms: u64) -> (t: Self)
        requires
            duration_ms <= DURATION_LIMIT_MS,
        ensures
            t.wf(),
            t.duration_ms == duration_ms,
            t.elapsed_ms == 0,
    {
        CountdownTimer { elapsed_ms: 0, duration_ms }
    }

    /// Advance the clock by `delta_ms`, saturating at the duration.
    pub fn tick(&mut self, delta_ms: u64)
        requires
            old(self).wf(),
            delta_ms <= DURATION_LIMIT_MS,
        ensures
            final(self).wf(),
            *final(self) == old(self).spec_ticked(delta_ms),
    {
        let stepped = self.elapsed_ms + delta_ms;
        if stepped <= self.duration_ms {
            self.elapsed_ms = stepped;
        } else {
            self.elapsed_ms = self.duration_ms;
        }
    }

    pub fn finished(&self) -> (r: bool)
        ensures
            r == self.spec_finished(),
    {
        self.elapsed_ms == self.duration_ms
    }

    /// Whether the elapsed fraction strictly exceeds `threshold_pm` permille.
    pub fn fraction_exceeds_permille(&self, threshold_pm: u64) -> (r: bool)
        requires
            self.wf(),
            threshold_pm <= PERMILLE,
        ensures
            r == (self.elapsed_ms * PERMILLE > self.duration_ms * threshold_pm),
    {
        proof {
            assert(self.elapsed_ms * PERMILLE <= DURATION_LIMIT_MS * PERMILLE
                && self.duration_ms * threshold_pm <= DURATION_LIMIT_MS * PERMILLE)
                by (nonlinear_arith)
                requires
                    self.elapsed_ms <= DURATION_LIMIT_MS,
                    self.duration_ms <= DURATION_LIMIT_MS,
                    threshold_pm <= PERMILLE;
        }
        self.elapsed_ms * PERMILLE > self.duration_ms * threshold_pm
    }

    /// Elapsed fraction in permille, rounded down.
    pub fn fraction_permille(&self) -> (r: u64)
        requires
            self.wf(),
        ensures
            r == self.spec_fraction_permille(),
            r <= PERMILLE,
    {
        if self.duration_ms == 0 {
            PERMILLE
        } else {
            proof {
                assert(self.elapsed_ms * PERMILLE <= self.duration_ms * PERMILLE)
                    by (nonlinear_arith)
                    requires self.elapsed_ms <= self.duration_ms;
                assert(self.elapsed_ms * PERMILLE / self.duration_ms as int <= PERMILLE)
                    by (nonlinear_arith)
                    requires
                        self.duration_ms > 0,
                        self.elapsed_ms * PERMILLE <= self.duration_ms * PERMILLE;
            }
            self.elapsed_ms * PERMILLE / self.duration_ms
        }
    }

    /// Restart the clock from zero with the same duration.
    pub fn reset(&mut self)
        ensures
            final(self).duration_ms == old(self).duration_ms,
            final(self).elapsed_ms == 0,
    {
        self.elapsed_ms = 0;
    }

    /// Restart the clock from zero with a new duration.
    pub fn set(&mut self, duration_ms: u64)
        requires
            duration_ms <= DURATION_LIMIT_MS,
        ensures
            final(self).wf(),
            final(self).duration_ms == duration_ms,
            final(self).elapsed_ms == 0,
    {
        self.elapsed_ms = 0;
        self.duration_ms = duration_ms;
    }

    /// Restart the clock from zero with the duration scaled down to
    /// `factor_pm` permille of its old value (rounded down).
    pub fn shrink_permille(&mut self, factor_pm: u64)
        requires
            old(self).wf(),
            factor_pm <= PERMILLE,
        ensures
            final(self).wf(),
            final(self).duration_ms == old(self).duration_ms * factor_pm / PERMILLE as int,
            final(self).elapsed_ms == 0,
    {
        proof {
            assert(self.duration_ms * factor_pm / PERMILLE as int <= self.duration_ms)
                by (nonlinear_arith)
                requires factor_pm <= PERMILLE, PERMILLE > 0;
        }
        self.duration_ms = self.duration_ms * factor_pm / PERMILLE;
        self.elapsed_ms = 0;
    }
}

} // verus!
