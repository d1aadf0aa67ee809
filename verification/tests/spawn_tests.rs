use combat_core::ai::{AIState, EnemyBehavior, EnemyType};
use combat_core::geom::Vec2;
use combat_core::spawn::{spawn_melee_enemy, spawn_ranged_enemy};

fn v(x: i64, y: i64) -> Vec2 {
    Vec2 { x, y }
}

#[test]
fn common_melee_scaling() {
    // base 200 health + 20 per room, base 20 damage + 2 per room.
    let s = spawn_melee_enemy(v(10, 20), EnemyType::CommonMelee, 3);
    assert_eq!(s.health.max, 260000);
    assert_eq!(s.health.current, 260000);
    assert_eq!(s.stats.damage, 26000);
    assert_eq!(s.stats.crit_chance, 50);
    assert_eq!(s.stats.crit_damage, 1500);
    assert_eq!(s.stats.attack_speed, 1000);
    assert!(matches!(s.enemy.behavior, EnemyBehavior::Aggressive));
    assert_eq!(s.enemy.aggro_range, 300);
    assert_eq!(s.enemy.attack_range, 50);
    assert_eq!(s.hurtbox.size, v(30, 30));
    assert!(!s.hurtbox.invulnerable);
    assert!(matches!(s.ai.state, AIState::Idle));
    assert_eq!(s.position, v(10, 20));
}

#[test]
fn elite_melee_scaling() {
    // base 1000 health + 200 per room, base 40 damage + 4 per room.
    let s = spawn_melee_enemy(v(0, 0), EnemyType::EliteMelee, 5);
    assert_eq!(s.health.max, 2000000);
    assert_eq!(s.stats.damage, 60000);
}

#[test]
fn common_ranged_scaling() {
    // base 150 health + 15 per room, base 15 damage + 1.5 per room.
    let s = spawn_ranged_enemy(v(0, 0), EnemyType::CommonRanged, 4);
    assert_eq!(s.health.max, 210000);
    assert_eq!(s.stats.damage, 21000);
    assert_eq!(s.stats.crit_chance, 100);
    assert_eq!(s.stats.crit_damage, 2000);
    assert_eq!(s.stats.attack_speed, 800);
    assert!(matches!(s.enemy.behavior, EnemyBehavior::Defensive));
    assert_eq!(s.enemy.aggro_range, 400);
    assert_eq!(s.enemy.attack_range, 200);
    assert_eq!(s.hurtbox.size, v(25, 25));
}

#[test]
fn elite_ranged_scaling() {
    // base 800 health + 150 per room, base 30 damage + 3 per room.
    let s = spawn_ranged_enemy(v(0, 0), EnemyType::EliteRanged, 2);
    assert_eq!(s.health.max, 1100000);
    assert_eq!(s.stats.damage, 36000);
}

#[test]
fn room_zero_gives_base_values() {
    let s = spawn_melee_enemy(v(0, 0), EnemyType::CommonMelee, 0);
    assert_eq!(s.health.max, 200000);
    assert_eq!(s.stats.damage, 20000);
}
