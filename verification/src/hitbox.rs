//! Hit volumes and hurtboxes. A hitbox is spawned when an attack enters its
//! active phase and carries a hit ledger: the targets it has already struck.
//! The ledger is the sole gate against multi-hits per swing, and the damage
//! pipeline consumes each ledger entry exactly once.

use vstd::prelude::*;
use crate::geom::{Vec2, spec_aabb_overlap, aabb_overlap};
use crate::stats::CombatStats;
use crate::attack::AttackType;
use crate::units::{AMOUNT_LIMIT, COORD_LIMIT, PERMILLE};

verus! {

/// A damageable region attached to a combatant. `invulnerable` is raised
/// during dash i-frames or by externally granted invulnerability.
#[derive(Clone, Copy, Debug, PartialEq, Eq, Structural)]
pub struct Hurtbox {
    pub size: Vec2,
    pub invulnerable: bool,
}

impl Hurtbox {
    pub open spec fn wf(self) -> bool {
        self.size.extent()
    }

    pub fn new(size: Vec2, invulnerable: bool) -> (h: Self)
        requires
            size.extent(),
        ensures
            h.wf(),
            h.size == size,
            h.invulnerable == invulnerable,
    {
        Hurtbox { size, invulnerable }
    }
}

/// An ephemeral hit volume. `hit_entities` is the hit ledger; entries below
/// `resolved_hits` have already been consumed by the damage pipeline.
#[derive(Clone, Debug)]
pub struct Hitbox {
    pub size: Vec2,
    pub offset: Vec2,
    pub damage: u64,
    pub knockback: u64,
    pub active: bool,
    pub hit_entities: Vec<u64>,
    pub resolved_hits: usize,
}

/// Damage multiplier (permille) applied to the attacker's base damage for a
/// hitbox of the given attack type: light attacks scale with the combo
/// counter, the other types use fixed multipliers.
pub open spec fn spec_damage_mult_pm(t: AttackType, combo_count: u32) -> u64 {
    match t {
        AttackType::LightAttack => (PERMILLE + 200 * combo_count) as u64,
        AttackType::HeavyAttack => 2000,
        AttackType::DashAttack => 1500,
        AttackType::Special => 3000,
    }
}

/// Hit-volume extent by attack type.
pub open spec fn spec_hitbox_size(t: AttackType) -> Vec2 {
    match t {
        AttackType::LightAttack => Vec2 { x: 60, y: 40 },
        AttackType::HeavyAttack => Vec2 { x: 80, y: 60 },
        AttackType::DashAttack => Vec2 { x: 50, y: 30 },
        AttackType::Special => Vec2 { x: 100, y: 100 },
    }
}

/// Forward offset of the hit volume from its owner by attack type.
pub open spec fn spec_hitbox_offset(t: AttackType) -> Vec2 {
    match t {
        AttackType::LightAttack => Vec2 { x: 40, y: 0 },
        AttackType::HeavyAttack => Vec2 { x: 50, y: 0 },
        AttackType::DashAttack => Vec2 { x: 30, y: 0 },
        AttackType::Special => Vec2 { x: 0, y: 0 },
    }
}

/// Knockback magnitude by attack type.
pub open spec fn spec_knockback_mag(t: AttackType) -> u64 {
    match t {
        AttackType::LightAttack => 50,
        AttackType::HeavyAttack => 150,
        AttackType::DashAttack => 100,
        AttackType::Special => 200,
    }
}

impl Hitbox {
    pub open spec fn wf(self) -> bool {
        &&& self.size.extent()
        &&& self.offset.bounded()
        &&& self.damage <= 3 * AMOUNT_LIMIT
        &&& self.knockback <= COORD_LIMIT
        &&& self.resolved_hits <= self.hit_entities@.len()
        &&& self.hit_entities@.no_duplicates()
    }

    /// The ledger holds this target: the hitbox has already struck it.
    pub open spec fn spec_struck(self, target: u64) -> bool {
        self.hit_entities@.contains(target)
    }

    /// The damage pipeline has already fired for this (hitbox, target) pair.
    pub open spec fn spec_resolved(self, target: u64) -> bool {
        self.hit_entities@.take(self.resolved_hits as int).contains(target)
    }

    /// Build the hit volume for an attack of type `t` at the given combo
    /// count, scaling the attacker's base damage by the type's multiplier.
    pub fn for_attack(t: AttackType, combo_count: u32, stats: &CombatStats) -> (h: Self)
        requires
            stats.wf(),
            combo_count <= 3,
        ensures
            h.wf(),
            h.size == spec_hitbox_size(t),
            h.offset == spec_hitbox_offset(t),
            h.damage == stats.damage * spec_damage_mult_pm(t, combo_count) / PERMILLE as int,
            h.knockback == spec_knockback_mag(t),
            h.active,
            h.hit_entities@ == Seq::<u64>::empty(),
            h.resolved_hits == 0,
    {
        let mult_pm: u64 = match t {
            AttackType::LightAttack => PERMILLE + 200 * combo_count as u64,
            AttackType::HeavyAttack => 2000,
            AttackType::DashAttack => 1500,
            AttackType::Special => 3000,
        };
        proof {
            assert(stats.damage * mult_pm <= AMOUNT_LIMIT * 3000) by (nonlinear_arith)
                requires stats.damage <= AMOUNT_LIMIT, mult_pm <= 3000;
            assert(stats.damage * mult_pm / PERMILLE as int <= 3 * AMOUNT_LIMIT)
                by (nonlinear_arith)
                requires 0 <= stats.damage * mult_pm <= AMOUNT_LIMIT * 3000;
        }
        let (size, offset) = match t {
            AttackType::LightAttack => (Vec2 { x: 60, y: 40 }, Vec2 { x: 40, y: 0 }),
            AttackType::HeavyAttack => (Vec2 { x: 80, y: 60 }, Vec2 { x: 50, y: 0 }),
            AttackType::DashAttack => (Vec2 { x: 50, y: 30 }, Vec2 { x: 30, y: 0 }),
            AttackType::Special => (Vec2 { x: 100, y: 100 }, Vec2 { x: 0, y: 0 }),
        };
        let knockback: u64 = match t {
            AttackType::LightAttack => 50,
            AttackType::HeavyAttack => 150,
            AttackType::DashAttack => 100,
            AttackType::Special => 200,
        };
        Hitbox {
            size,
            offset,
            damage: stats.damage * mult_pm / PERMILLE,
            knockback,
            active: true,
            hit_entities: Vec::new(),
            resolved_hits: 0,
        }
    }

    /// Linear scan of the hit ledger.
    pub fn has_struck(&self, target: u64) -> (r: bool)
        ensures
            r == self.spec_struck(target),
    {
        let mut i: usize = 0;
        while i < self.hit_entities.len()
            invariant
                i <= self.hit_entities@.len(),
                forall|j: int| 0 <= j < i ==> self.hit_entities@[j] != target,
            decreases self.hit_entities@.len() - i,
        {
            if self.hit_entities[i] == target {
                return true;
            }
            i = i + 1;
        }
        false
    }

    /// Append a target that has not been struck before to the hit ledger.
    /// This is the resolver's only side effect.
    pub fn record_hit(&mut self, target: u64)
        requires
            old(self).wf(),
            !old(self).spec_struck(target),
        ensures
            final(self).wf(),
            final(self).hit_entities@ == old(self).hit_entities@.push(target),
            final(self).spec_struck(target),
            final(self).resolved_hits == old(self).resolved_hits,
            final(self).size == old(self).size,
            final(self).offset == old(self).offset,
            final(self).damage == old(self).damage,
            final(self).knockback == old(self).knockback,
            final(self).active == old(self).active,
    {
        self.hit_entities.push(target);
        proof {
            assert(self.hit_entities@.last() == target);
            assert(self.hit_entities@.no_duplicates());
        }
    }

    /// Test the ledger gates and the overlap test for one candidate target,
    /// and record the hit when every gate passes. Returns whether the target
    /// was recorded. The gates: a hitbox never strikes its owner, an
    /// invulnerable target, or a target already in its ledger, and boxes must
    /// strictly overlap.
    pub fn try_register(
        &mut self,
        hitbox_pos: Vec2,
        owner: u64,
        target: u64,
        target_hurtbox: &Hurtbox,
        target_pos: Vec2,
    ) -> (registered: bool)
        requires
            old(self).wf(),
            old(self).active,
            hitbox_pos.bounded(),
            target_hurtbox.wf(),
            target_pos.bounded(),
        ensures
            final(self).wf(),
            registered == (target != owner && !target_hurtbox.invulnerable
                && !old(self).spec_struck(target)
                && spec_aabb_overlap(hitbox_pos, old(self).size, target_pos,
                    target_hurtbox.size)),
            registered ==> final(self).hit_entities@ == old(self).hit_entities@.push(target),
            !registered ==> *final(self) == *old(self),
            final(self).resolved_hits == old(self).resolved_hits,
            final(self).size == old(self).size,
            final(self).offset == old(self).offset,
            final(self).damage == old(self).damage,
            final(self).knockback == old(self).knockback,
            final(self).active == old(self).active,
    {
        if target == owner {
            return false;
        }
        if target_hurtbox.invulnerable {
            return false;
        }
        if self.has_struck(target) {
            return false;
        }
        if aabb_overlap(hitbox_pos, self.size, target_pos, target_hurtbox.size) {
            self.record_hit(target);
            true
        } else {
            false
        }
    }
}

/// Single-hit guarantee, first half: a well-formed hit ledger holds any
/// target at most once — two ledger indices holding the same target are the
/// same index. Since the damage pipeline consumes each ledger index exactly
/// once (the resolved prefix only grows, and only fresh entries are
/// consumed), it fires at most once for any (hitbox, target) pair across the
/// hitbox's lifetime.
pub proof fn lemma_single_hit(h: Hitbox, target: u64)
    requires
        h.wf(),
    ensures
        forall|i: int, j: int|
            0 <= i < h.hit_entities@.len() && 0 <= j < h.hit_entities@.len()
                && h.hit_entities@[i] == target && h.hit_entities@[j] == target ==> i == j,
{
}

/// Single-hit guarantee over the consumed prefix: the damage pipeline
/// consumes ledger indices in order, each exactly once (`resolved_hits` only
/// ever grows, and only fresh entries are consumed), and a well-formed
/// ledger holds a target at most once — so across the hitbox's lifetime at
/// most one consumed index ever names the target.
pub proof fn lemma_single_hit_lifetime(h: Hitbox, target: u64)
    requires
        h.wf(),
    ensures
        forall|i: int, j: int|
            0 <= i < h.resolved_hits && 0 <= j < h.resolved_hits
                && h.hit_entities@[i] == target && h.hit_entities@[j] == target ==> i == j,
{
}

/// Single-hit guarantee, second half: a pair already resolved was struck, and
/// a pair never struck can never be resolved.
pub proof fn lemma_resolved_implies_struck(h: Hitbox, target: u64)
    requires
        h.wf(),
    ensures
        h.spec_resolved(target) ==> h.spec_struck(target),
{
    if h.spec_resolved(target) {
        let prefix = h.hit_entities@.take(h.resolved_hits as int);
        let i = choose|i: int| 0 <= i < prefix.len() && prefix[i] == target;
        assert(h.hit_entities@[i] == target);
    }
}

} // verus!
