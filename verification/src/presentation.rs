//! Telegraph and damage-number presentation values: purely derived from
//! combat state, with no decisions of their own. The telegraph warns of an
//! upcoming enemy attack with a timed area and a fade/flash alpha curve; a
//! damage number floats upward, slows down and fades out over a fixed
//! lifetime.

use vstd::prelude::*;
use crate::geom::Vec2;
use crate::timer::CountdownTimer;
use crate::ai::{AIState, EnemyType, spec_telegraph_duration_ms, get_telegraph_duration};
use crate::damage::sample_below;
use crate::direction::spec_div_trunc;
use crate::movement::{apply_velocity, spec_integrated};
use crate::units::{DURATION_LIMIT_MS, PERMILLE, TICK_LIMIT_MS, VEL_LIMIT};

verus! {

#[derive(Clone, Copy, Debug, PartialEq, Eq, Structural)]
pub enum TelegraphType {
    MeleeSwing,
    RangedShot,
    AreaOfEffect,
    ChargeAttack,
}

/// A color in permille components.
#[derive(Clone, Copy, Debug, PartialEq, Eq, Structural)]
pub struct ColorPm {
    pub red: u64,
    pub green: u64,
    pub blue: u64,
    pub alpha: u64,
}

/// A timed visual warning of an enemy's upcoming attack.
#[derive(Clone, Copy, Debug, PartialEq, Eq, Structural)]
pub struct Telegraph {
    pub duration: CountdownTimer,
    pub telegraph_type: TelegraphType,
    pub damage_area: Vec2,
    pub color: ColorPm,
}

/// The warning shape and color a telegraphing enemy presents, by type;
/// bosses telegraph through their own presentation and get none here.
pub open spec fn spec_telegraph_shape(t: EnemyType) -> Option<(Vec2, ColorPm,
    TelegraphType)> {
    match t {
        EnemyType::CommonMelee => Some((Vec2 { x: 60, y: 60 },
            ColorPm { red: 1000, green: 0, blue: 0, alpha: 500 }, TelegraphType::MeleeSwing)),
        EnemyType::CommonRanged => Some((Vec2 { x: 20, y: 200 },
            ColorPm { red: 1000, green: 1000, blue: 0, alpha: 500 },
            TelegraphType::RangedShot)),
        EnemyType::EliteMelee => Some((Vec2 { x: 80, y: 80 },
            ColorPm { red: 1000, green: 0, blue: 0, alpha: 500 }, TelegraphType::MeleeSwing)),
        EnemyType::EliteRanged => Some((Vec2 { x: 30, y: 300 },
            ColorPm { red: 1000, green: 500, blue: 0, alpha: 500 },
            TelegraphType::RangedShot)),
        _ => None,
    }
}

/// The telegraph spawned for an enemy entering the telegraphing state: its
/// type's shape and color under its type's telegraph duration. Nothing is
/// spawned in any other state or for a boss.
pub fn telegraph_for(state: AIState, enemy_type: EnemyType) -> (t: Option<Telegraph>)
    ensures
        t is Some <==> state is Telegraphing && spec_telegraph_shape(enemy_type) is Some,
        t matches Some(tele) ==> {
            &&& Some((tele.damage_area, tele.color, tele.telegraph_type))
                == spec_telegraph_shape(enemy_type)
            &&& tele.duration == (CountdownTimer {
                elapsed_ms: 0,
                duration_ms: spec_telegraph_duration_ms(enemy_type),
            })
            &&& tele.duration.wf()
        },
{
    if !matches!(state, AIState::Telegraphing) {
        return None;
    }
    let (area, color, telegraph_type) = match enemy_type {
        EnemyType::CommonMelee => (Vec2 { x: 60, y: 60 },
            ColorPm { red: 1000, green: 0, blue: 0, alpha: 500 }, TelegraphType::MeleeSwing),
        EnemyType::CommonRanged => (Vec2 { x: 20, y: 200 },
            ColorPm { red: 1000, green: 1000, blue: 0, alpha: 500 },
            TelegraphType::RangedShot),
        EnemyType::EliteMelee => (Vec2 { x: 80, y: 80 },
            ColorPm { red: 1000, green: 0, blue: 0, alpha: 500 }, TelegraphType::MeleeSwing),
        EnemyType::EliteRanged => (Vec2 { x: 30, y: 300 },
            ColorPm { red: 1000, green: 500, blue: 0, alpha: 500 },
            TelegraphType::RangedShot),
        EnemyType::MiniBoss | EnemyType::Boss => {
            return None;
        },
    };
    Some(Telegraph {
        duration: CountdownTimer::new(get_telegraph_duration(enemy_type)),
        telegraph_type,
        damage_area: area,
        color,
    })
}

/// The telegraph's alpha over its countdown fraction (both permille): it
/// fades in over the first fifth, holds full visibility, and flashes between
/// full and half over the last fifth as a final warning.
pub open spec fn spec_telegraph_alpha_pm(progress_pm: int) -> int {
    if progress_pm < 200 {
        progress_pm * 5
    } else if progress_pm > 800 {
        if (progress_pm / 100) % 2 == 0 {
            PERMILLE as int
        } else {
            500
        }
    } else {
        PERMILLE as int
    }
}

/// Advance a telegraph's countdown and report its alpha and whether it has
/// run out and should be taken down.
pub fn update_telegraphs(tele: &mut Telegraph, delta_ms: u64) -> (out: (u64, bool))
    requires
        old(tele).duration.wf(),
        delta_ms <= DURATION_LIMIT_MS,
    ensures
        final(tele).duration == old(tele).duration.spec_ticked(delta_ms),
        final(tele).telegraph_type == old(tele).telegraph_type,
        final(tele).damage_area == old(tele).damage_area,
        final(tele).color == old(tele).color,
        out.0 == spec_telegraph_alpha_pm(final(tele).duration.spec_fraction_permille()),
        out.1 == final(tele).duration.spec_finished(),
{
    tele.duration.tick(delta_ms);
    let progress = tele.duration.fraction_permille();
    let alpha = if progress < 200 {
        progress * 5
    } else if progress > 800 {
        if (progress / 100) % 2 == 0 {
            PERMILLE
        } else {
            500
        }
    } else {
        PERMILLE
    };
    (alpha, tele.duration.finished())
}

/// A floating damage number: the amount (thousandths) and crit flag shown,
/// a decaying velocity and a fixed lifetime.
#[derive(Clone, Copy, Debug, PartialEq, Eq, Structural)]
pub struct DamageNumber {
    pub amount: u64,
    pub is_crit: bool,
    pub lifetime: CountdownTimer,
    pub velocity: Vec2,
}

/// Lifetime of a damage number, in milliseconds.
pub const DAMAGE_NUMBER_LIFETIME_MS: u64 = 1000;

/// Spawn the damage number for one damage application: it rises at 100
/// units/s with a sideways drift drawn from -50..=50.
pub fn spawn_damage_numbers(amount: u64, is_crit: bool) -> (n: DamageNumber)
    ensures
        n.amount == amount,
        n.is_crit == is_crit,
        n.lifetime == (CountdownTimer { elapsed_ms: 0, duration_ms: DAMAGE_NUMBER_LIFETIME_MS }),
        -50 <= n.velocity.x <= 50,
        n.velocity.y == 100,
{
    let drift = sample_below(101);
    DamageNumber {
        amount,
        is_crit,
        lifetime: CountdownTimer::new(DAMAGE_NUMBER_LIFETIME_MS),
        velocity: Vec2 { x: drift as i64 - 50, y: 100 },
    }
}

/// A velocity component slowed to 95%, rounded toward zero.
pub open spec fn spec_decayed(v: int) -> int {
    spec_div_trunc(v * 19, 20)
}

fn decay_component(v: i64) -> (r: i64)
    requires
        -VEL_LIMIT <= v <= VEL_LIMIT,
    ensures
        r == spec_decayed(v as int),
        -VEL_LIMIT <= r <= VEL_LIMIT,
{
    proof {
        assert(-(VEL_LIMIT * 19) <= v * 19 <= VEL_LIMIT * 19) by (nonlinear_arith)
            requires -VEL_LIMIT <= v <= VEL_LIMIT;
    }
    if v >= 0 {
        v * 19 / 20
    } else {
        -((-v) * 19 / 20)
    }
}

/// Advance a floating damage number one tick: it drifts by its velocity,
/// slows to 95%, and fades linearly with its lifetime. Returns its alpha
/// (permille) and whether it has expired.
pub fn update_damage_numbers(n: &mut DamageNumber, pos: &mut Vec2, delta_ms: u64) -> (out: (
    u64,
    bool,
))
    requires
        old(n).lifetime.wf(),
        -VEL_LIMIT <= old(n).velocity.x <= VEL_LIMIT,
        -VEL_LIMIT <= old(n).velocity.y <= VEL_LIMIT,
        old(pos).bounded(),
        delta_ms <= TICK_LIMIT_MS,
    ensures
        final(n).amount == old(n).amount,
        final(n).is_crit == old(n).is_crit,
        final(n).lifetime == old(n).lifetime.spec_ticked(delta_ms),
        final(n).velocity.x == spec_decayed(old(n).velocity.x as int),
        final(n).velocity.y == spec_decayed(old(n).velocity.y as int),
        -VEL_LIMIT <= final(n).velocity.x <= VEL_LIMIT,
        -VEL_LIMIT <= final(n).velocity.y <= VEL_LIMIT,
        final(pos).bounded(),
        final(pos).x == spec_integrated(old(pos).x as int, old(n).velocity.x as int, delta_ms),
        final(pos).y == spec_integrated(old(pos).y as int, old(n).velocity.y as int, delta_ms),
        out.0 == PERMILLE - final(n).lifetime.spec_fraction_permille(),
        out.1 == final(n).lifetime.spec_finished(),
{
    n.lifetime.tick(delta_ms);
    apply_velocity(pos, n.velocity, delta_ms);
    n.velocity = Vec2 { x: decay_component(n.velocity.x), y: decay_component(n.velocity.y) };
    let alpha = PERMILLE - n.lifetime.fraction_permille();
    (alpha, n.lifetime.finished())
}

} // verus!
