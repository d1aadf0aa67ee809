//! The damage pipeline: one uniform roll decides the critical hit, armor is
//! subtracted with a floor of one full point, and the defender's damage
//! reduction scales the remainder. Every step is exact integer arithmetic,
//! so the pipeline is verified for every possible roll; only the draw itself
//! is trusted.

use vstd::prelude::*;
use rand::Rng;
use crate::stats::CombatStats;
use crate::units::{AMOUNT_LIMIT, MILLI, PERMILLE};

verus! {

#[derive(Clone, Copy, Debug, PartialEq, Eq, Structural)]
pub enum DamageType {
    Physical,
    Fire,
    Ice,
    Lightning,
    Poison,
    Bleed,
    True,
}

/// Coarse identity labels carried by telemetry records.
#[derive(Clone, Copy, Debug, PartialEq, Eq, Structural)]
pub enum CombatantTag {
    Player,
    Enemy,
    Unknown,
}

/// An append-only telemetry record of one damage application; not
/// authoritative state.
#[derive(Clone, Copy, Debug, PartialEq, Eq, Structural)]
pub struct DamageEvent {
    pub source: CombatantTag,
    pub target: CombatantTag,
    pub amount: u64,
    pub is_crit: bool,
    pub damage_type: DamageType,
    pub timestamp: u64,
}

/// The append-only combat telemetry log, capped and trimmed by its external
/// owner.
#[derive(Clone, Debug)]
pub struct CombatLog {
    pub recent_damage: Vec<DamageEvent>,
}

impl CombatLog {
    pub fn new() -> (log: Self)
        ensures
            log.recent_damage@ == Seq::<DamageEvent>::empty(),
    {
        CombatLog { recent_damage: Vec::new() }
    }
}

/// A roll below the attacker's crit chance (both in permille) crits; chance 0
/// can never crit and chance 1000 always crits.
pub open spec fn spec_crit_applies(roll_pm: u64, crit_chance: u64) -> bool {
    roll_pm < crit_chance
}

/// Damage after the crit roll: scaled by the crit multiplier on a crit,
/// unchanged otherwise.
pub open spec fn spec_crit_damage(hit_damage: u64, crit: bool, crit_damage: u64) -> int {
    if crit {
        hit_damage * crit_damage / PERMILLE as int
    } else {
        hit_damage as int
    }
}

/// Armor subtraction with the floor: damage below the armor value still lands
/// for one full point, never zero or negative.
pub open spec fn spec_mitigated(damage: int, armor: u64) -> int {
    if damage - armor >= MILLI {
        damage - armor
    } else {
        MILLI as int
    }
}

/// The defender's multiplicative damage reduction.
pub open spec fn spec_reduced(damage: int, damage_reduction: u64) -> int {
    damage * (PERMILLE - damage_reduction) / PERMILLE as int
}

/// The full pipeline for one (hit, roll) pair.
pub open spec fn spec_final_damage(
    roll_pm: u64,
    hit_damage: u64,
    attacker: CombatStats,
    defender: CombatStats,
) -> int {
    spec_reduced(
        spec_mitigated(
            spec_crit_damage(hit_damage, spec_crit_applies(roll_pm, attacker.crit_chance),
                attacker.crit_damage),
            defender.armor,
        ),
        defender.damage_reduction,
    )
}

/// Armor floor: whatever the armor value, the pre-reduction damage is at
/// least one full point — and above the floor it is exactly the difference.
pub proof fn lemma_armor_floor(damage: int, armor: u64)
    requires
        damage >= 0,
    ensures
        spec_mitigated(damage, armor) >= MILLI,
        damage - armor >= MILLI ==> spec_mitigated(damage, armor) == damage - armor,
{
}

/// Crit determinism at the boundaries: a crit chance of zero never crits and
/// a crit chance of one (1000 permille) always crits, for every roll the
/// pipeline can draw.
pub proof fn lemma_crit_boundaries(roll_pm: u64)
    requires
        roll_pm < PERMILLE,
    ensures
        !spec_crit_applies(roll_pm, 0),
        spec_crit_applies(roll_pm, PERMILLE),
{
}

/// Relies on `rand::thread_rng` and `rand::Rng::gen_range`: a sample from the
/// non-empty range `0..bound` is an integer below the bound. Nothing is
/// assumed about its distribution.
#[verifier::external_body]
pub fn sample_below(bound: u64) -> (r: u64)
    requires
        bound >= 1,
    ensures
        r < bound,
{
    rand::thread_rng().gen_range(0..bound)
}

/// Resolve one hit for a known roll: crit scaling, armor subtraction with the
/// one-point floor, then multiplicative damage reduction. Verified for every
/// roll value.
pub fn resolve_hit(
    roll_pm: u64,
    hit_damage: u64,
    attacker: &CombatStats,
    defender: &CombatStats,
) -> (out: (u64, bool))
    requires
        roll_pm < PERMILLE,
        attacker.wf(),
        defender.wf(),
        hit_damage <= 3 * AMOUNT_LIMIT,
    ensures
        out.1 == spec_crit_applies(roll_pm, attacker.crit_chance),
        out.0 == spec_final_damage(roll_pm, hit_damage, *attacker, *defender),
        out.0 <= 3000 * AMOUNT_LIMIT,
{
    let is_crit = roll_pm < attacker.crit_chance;
    let scaled: u64 = if is_crit {
        proof {
            assert(hit_damage * attacker.crit_damage <= (3 * AMOUNT_LIMIT) * 1000000)
                by (nonlinear_arith)
                requires
                    hit_damage <= 3 * AMOUNT_LIMIT,
                    attacker.crit_damage <= 1000000;
            assert(hit_damage * attacker.crit_damage / PERMILLE as int <= 3000 * AMOUNT_LIMIT)
                by (nonlinear_arith)
                requires 0 <= hit_damage * attacker.crit_damage <= (3 * AMOUNT_LIMIT) * 1000000;
        }
        hit_damage * attacker.crit_damage / PERMILLE
    } else {
        hit_damage
    };
    let floored: u64 = if scaled >= defender.armor + MILLI {
        scaled - defender.armor
    } else {
        MILLI
    };
    let keep_pm: u64 = PERMILLE - defender.damage_reduction;
    proof {
        assert(floored * keep_pm <= (3000 * AMOUNT_LIMIT) * PERMILLE) by (nonlinear_arith)
            requires floored <= 3000 * AMOUNT_LIMIT, keep_pm <= PERMILLE;
        assert(floored * keep_pm / PERMILLE as int <= 3000 * AMOUNT_LIMIT) by (nonlinear_arith)
            requires 0 <= floored * keep_pm <= (3000 * AMOUNT_LIMIT) * PERMILLE;
    }
    let amount: u64 = floored * keep_pm / PERMILLE;
    (amount, is_crit)
}

/// Draw the crit roll and resolve one hit. The roll is random, so the
/// contract promises only what holds of every outcome: the result is the
/// verified pipeline applied to some roll below one.
pub fn resolve_hit_rolled(
    hit_damage: u64,
    attacker: &CombatStats,
    defender: &CombatStats,
) -> (out: (u64, bool))
    requires
        attacker.wf(),
        defender.wf(),
        hit_damage <= 3 * AMOUNT_LIMIT,
    ensures
        exists|roll_pm: u64|
            roll_pm < PERMILLE
                && out.1 == spec_crit_applies(roll_pm, attacker.crit_chance)
                && out.0 == spec_final_damage(roll_pm, hit_damage, *attacker, *defender),
        out.0 <= 3000 * AMOUNT_LIMIT,
        attacker.crit_chance == 0 ==> !out.1,
        attacker.crit_chance == PERMILLE ==> out.1,
{
    let roll_pm = sample_below(PERMILLE);
    let out = resolve_hit(roll_pm, hit_damage, attacker, defender);
    proof {
        lemma_crit_boundaries(roll_pm);
    }
    out
}

} // verus!
