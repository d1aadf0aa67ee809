//! Combat statistics and health. Stats are owned by each combatant and read
//! by the pipelines; health is mutated only through `take_damage` and `heal`,
//! and death is signaled by `take_damage`'s return value, never performed
//! here.

use vstd::prelude::*;
use crate::units::{AMOUNT_LIMIT, MILLI, PERMILLE};

verus! {

/// Per-combatant offensive and defensive statistics.
///
/// `damage` and `armor` are amounts in thousandths of a unit; `crit_chance`
/// and `damage_reduction` are fractions in permille (so at most `PERMILLE`);
/// `crit_damage` and `attack_speed` are permille multipliers.
#[derive(Clone, Copy, Debug, PartialEq, Eq, Structural)]
pub struct CombatStats {
    pub damage: u64,
    pub crit_chance: u64,
    pub crit_damage: u64,
    pub attack_speed: u64,
    pub armor: u64,
    pub damage_reduction: u64,
}

/// Largest accepted crit-damage multiplier (a thousandfold, in permille).
pub const CRIT_DAMAGE_LIMIT: u64 = 1000000;

impl CombatStats {
    pub open spec fn wf(self) -> bool {
        &&& self.damage <= AMOUNT_LIMIT
        &&& self.crit_chance <= PERMILLE
        &&& self.crit_damage <= CRIT_DAMAGE_LIMIT
        &&& self.armor <= AMOUNT_LIMIT
        &&& self.damage_reduction <= PERMILLE
    }
}

impl Default for CombatStats {
    /// Baseline player statistics: 100.0 damage, 10% crit chance for double
    /// damage, normal attack speed, no armor and no damage reduction.
    fn default() -> (s: Self)
        ensures
            s.wf(),
            s.damage == 100 * MILLI,
            s.crit_chance == 100,
            s.crit_damage == 2 * PERMILLE,
            s.attack_speed == PERMILLE,
            s.armor == 0,
            s.damage_reduction == 0,
    {
        CombatStats {
            damage: 100000,
            crit_chance: 100,
            crit_damage: 2000,
            attack_speed: 1000,
            armor: 0,
            damage_reduction: 0,
        }
    }
}

/// A combatant's hit points, in thousandths of a unit. `current` never
/// exceeds `max` and never goes negative; `max` is positive.
#[derive(Clone, Copy, Debug, PartialEq, Eq, Structural)]
pub struct Health {
    pub current: u64,
    pub max: u64,
}

impl Health {
    pub open spec fn wf(self) -> bool {
        &&& 0 < self.max <= AMOUNT_LIMIT
        &&& self.current <= self.max
    }

    /// A fresh combatant starts at full health.
    pub fn new(max: u64) -> (h: Self)
        requires
            0 < max <= AMOUNT_LIMIT,
        ensures
            h.wf(),
            h.current == max,
            h.max == max,
    {
        Health { current: max, max }
    }

    /// Subtract `amount` from current health, saturating at zero; returns
    /// whether health reached zero.
    pub fn take_damage(&mut self, amount: u64) -> (died: bool)
        requires
            old(self).wf(),
        ensures
            final(self).wf(),
            final(self).max == old(self).max,
            final(self).current == if amount <= old(self).current {
                old(self).current - amount
            } else {
                0
            },
            died == (final(self).current == 0),
    {
        if amount <= self.current {
            self.current = self.current - amount;
        } else {
            self.current = 0;
        }
        self.current == 0
    }

    /// Add `amount` to current health, capped at `max`.
    pub fn heal(&mut self, amount: u64)
        requires
            old(self).wf(),
            amount <= AMOUNT_LIMIT,
        ensures
            final(self).wf(),
            final(self).max == old(self).max,
            final(self).current == if old(self).current + amount <= old(self).max {
                old(self).current + amount
            } else {
                old(self).max as int
            },
    {
        let raised = self.current + amount;
        if raised <= self.max {
            self.current = raised;
        } else {
            self.current = self.max;
        }
    }

    /// Current health as a permille fraction of the maximum, rounded down.
    pub fn percentage(&self) -> (r: u64)
        requires
            self.wf(),
        ensures
            r == self.current * PERMILLE / self.max as int,
            r <= PERMILLE,
    {
        proof {
            assert(self.current * PERMILLE <= self.max * PERMILLE)
                by (nonlinear_arith)
                requires self.current <= self.max;
            assert(self.current * PERMILLE / self.max as int <= PERMILLE)
                by (nonlinear_arith)
                requires
                    self.max > 0,
                    self.current * PERMILLE <= self.max * PERMILLE;
        }
        self.current * PERMILLE / self.max
    }

    /// Whether current health is strictly below `threshold_pm` permille of
    /// the maximum: the exact comparison `current / max < threshold_pm / 1000`.
    pub fn below_permille(&self, threshold_pm: u64) -> (r: bool)
        requires
            self.wf(),
            threshold_pm <= PERMILLE,
        ensures
            r == (self.current * PERMILLE < self.max * threshold_pm),
    {
        proof {
            assert(self.current * PERMILLE <= AMOUNT_LIMIT * PERMILLE
                && self.max * threshold_pm <= AMOUNT_LIMIT * PERMILLE)
                by (nonlinear_arith)
                requires
                    self.current <= AMOUNT_LIMIT,
                    self.max <= AMOUNT_LIMIT,
                    threshold_pm <= PERMILLE;
        }
        self.current * PERMILLE < self.max * threshold_pm
    }
}

} // verus!
