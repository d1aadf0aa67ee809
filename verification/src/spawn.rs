//! Enemy spawning for the room collaborator: health and damage scale
//! linearly with the room number by per-type increments, and each archetype
//! comes with its behavior, ranges, combat statistics and hurtbox.

use vstd::prelude::*;
use crate::geom::Vec2;
use crate::stats::{CombatStats, Health};
use crate::hitbox::Hurtbox;
use crate::ai::{Enemy, EnemyAI, EnemyBehavior, EnemyType};
use crate::units::MILLI;

verus! {

/// Everything a freshly spawned enemy is made of; the embedding turns this
/// into a world entity.
#[derive(Clone, Copy, Debug, PartialEq, Eq, Structural)]
pub struct SpawnedEnemy {
    pub enemy: Enemy,
    pub ai: EnemyAI,
    pub health: Health,
    pub stats: CombatStats,
    pub hurtbox: Hurtbox,
    pub position: Vec2,
}

/// Largest accepted room number: keeps every scaled amount within bounds.
pub const ROOM_LIMIT: u32 = 1000000;

/// Base health (thousandths) of a melee enemy in the given room.
pub open spec fn spec_melee_health(t: EnemyType, room_number: u32) -> int {
    match t {
        EnemyType::EliteMelee => 1000 * MILLI + room_number * (200 * MILLI),
        _ => 200 * MILLI + room_number * (20 * MILLI),
    }
}

/// Base damage (thousandths) of a melee enemy in the given room.
pub open spec fn spec_melee_damage(t: EnemyType, room_number: u32) -> int {
    match t {
        EnemyType::EliteMelee => 40 * MILLI + room_number * (4 * MILLI),
        _ => 20 * MILLI + room_number * (2 * MILLI),
    }
}

/// Base health (thousandths) of a ranged enemy in the given room.
pub open spec fn spec_ranged_health(t: EnemyType, room_number: u32) -> int {
    match t {
        EnemyType::EliteRanged => 800 * MILLI + room_number * (150 * MILLI),
        _ => 150 * MILLI + room_number * (15 * MILLI),
    }
}

/// Base damage (thousandths) of a ranged enemy in the given room.
pub open spec fn spec_ranged_damage(t: EnemyType, room_number: u32) -> int {
    match t {
        EnemyType::EliteRanged => 30 * MILLI + room_number * (3 * MILLI),
        _ => 15 * MILLI + room_number * 1500,
    }
}

/// Spawn an aggressive melee enemy at `position`, its health and damage
/// scaled by the room number, with a 5% crit chance for 1.5x damage, normal
/// attack speed, no mitigation, and a 30x30 hurtbox.
pub fn spawn_melee_enemy(position: Vec2, enemy_type: EnemyType, room_number: u32) -> (s:
    SpawnedEnemy)
    requires
        position.bounded(),
        room_number <= ROOM_LIMIT,
    ensures
        s.enemy == (Enemy {
            enemy_type,
            behavior: EnemyBehavior::Aggressive,
            aggro_range: 300,
            attack_range: 50,
        }),
        s.ai.state is Idle,
        s.ai.target is None,
        s.ai.last_known_position is None,
        s.ai.wf(),
        s.health.wf(),
        s.health.max == spec_melee_health(enemy_type, room_number),
        s.health.current == s.health.max,
        s.stats.wf(),
        s.stats.damage == spec_melee_damage(enemy_type, room_number),
        s.stats.crit_chance == 50,
        s.stats.crit_damage == 1500,
        s.stats.attack_speed == 1000,
        s.stats.armor == 0,
        s.stats.damage_reduction == 0,
        s.hurtbox == (Hurtbox { size: Vec2 { x: 30, y: 30 }, invulnerable: false }),
        s.position == position,
    {
        let base_health: u64 = match enemy_type {
            EnemyType::EliteMelee => 1000000 + (room_number as u64) * 200000,
            _ => 200000 + (room_number as u64) * 20000,
        };
        let damage: u64 = match enemy_type {
            EnemyType::EliteMelee => 40000 + (room_number as u64) * 4000,
            _ => 20000 + (room_number as u64) * 2000,
        };
        SpawnedEnemy {
            enemy: Enemy {
                enemy_type,
                behavior: EnemyBehavior::Aggressive,
                aggro_range: 300,
                attack_range: 50,
            },
            ai: EnemyAI::new_idle(),
            health: Health::new(base_health),
            stats: CombatStats {
                damage,
                crit_chance: 50,
                crit_damage: 1500,
                attack_speed: 1000,
                armor: 0,
                damage_reduction: 0,
            },
            hurtbox: Hurtbox::new(Vec2 { x: 30, y: 30 }, false),
            position,
        }
    }

/// Spawn a defensive ranged enemy at `position`, its health and damage
/// scaled by the room number, with a 10% crit chance for double damage, 0.8x
/// attack speed, no mitigation, and a 25x25 hurtbox.
pub fn spawn_ranged_enemy(position: Vec2, enemy_type: EnemyType, room_number: u32) -> (s:
    SpawnedEnemy)
    requires
        position.bounded(),
        room_number <= ROOM_LIMIT,
    ensures
        s.enemy == (Enemy {
            enemy_type,
            behavior: EnemyBehavior::Defensive,
            aggro_range: 400,
            attack_range: 200,
        }),
        s.ai.state is Idle,
        s.ai.target is None,
        s.ai.last_known_position is None,
        s.ai.wf(),
        s.health.wf(),
        s.health.max == spec_ranged_health(enemy_type, room_number),
        s.health.current == s.health.max,
        s.stats.wf(),
        s.stats.damage == spec_ranged_damage(enemy_type, room_number),
        s.stats.crit_chance == 100,
        s.stats.crit_damage == 2000,
        s.stats.attack_speed == 800,
        s.stats.armor == 0,
        s.stats.damage_reduction == 0,
        s.hurtbox == (Hurtbox { size: Vec2 { x: 25, y: 25 }, invulnerable: false }),
        s.position == position,
    {
        let base_health: u64 = match enemy_type {
            EnemyType::EliteRanged => 800000 + (room_number as u64) * 150000,
            _ => 150000 + (room_number as u64) * 15000,
        };
        let damage: u64 = match enemy_type {
            EnemyType::EliteRanged => 30000 + (room_number as u64) * 3000,
            _ => 15000 + (room_number as u64) * 1500,
        };
        SpawnedEnemy {
            enemy: Enemy {
                enemy_type,
                behavior: EnemyBehavior::Defensive,
                aggro_range: 400,
                attack_range: 200,
            },
            ai: EnemyAI::new_idle(),
            health: Health::new(base_health),
            stats: CombatStats {
                damage,
                crit_chance: 100,
                crit_damage: 2000,
                attack_speed: 800,
                armor: 0,
                damage_reduction: 0,
            },
            hurtbox: Hurtbox::new(Vec2 { x: 25, y: 25 }, false),
            position,
        }
    }

} // verus!
