use combat_core::ai::{
    AIState, AttackIntent, EnemyBehavior, EnemyType, MoveCommand, enemy_attack_system,
    enemy_movement, get_recovery_duration, get_telegraph_duration, movement_speed,
    update_enemy_ai,
};
use combat_core::geom::Vec2;
use combat_core::spawn::spawn_melee_enemy;
use combat_core::stats::Health;

fn v(x: i64, y: i64) -> Vec2 {
    Vec2 { x, y }
}

#[test]
fn tuning_tables() {
    assert_eq!(get_telegraph_duration(EnemyType::CommonMelee), 500);
    assert_eq!(get_telegraph_duration(EnemyType::CommonRanged), 700);
    assert_eq!(get_telegraph_duration(EnemyType::EliteMelee), 800);
    assert_eq!(get_telegraph_duration(EnemyType::EliteRanged), 1000);
    assert_eq!(get_telegraph_duration(EnemyType::MiniBoss), 1500);
    assert_eq!(get_telegraph_duration(EnemyType::Boss), 2000);
    assert_eq!(get_recovery_duration(EnemyType::CommonMelee), 300);
    assert_eq!(get_recovery_duration(EnemyType::CommonRanged), 500);
    assert_eq!(get_recovery_duration(EnemyType::EliteMelee), 400);
    assert_eq!(get_recovery_duration(EnemyType::EliteRanged), 600);
    assert_eq!(get_recovery_duration(EnemyType::MiniBoss), 500);
    assert_eq!(get_recovery_duration(EnemyType::Boss), 1000);
    assert_eq!(movement_speed(EnemyType::CommonMelee), 150);
    assert_eq!(movement_speed(EnemyType::CommonRanged), 100);
    assert_eq!(movement_speed(EnemyType::EliteMelee), 200);
    assert_eq!(movement_speed(EnemyType::EliteRanged), 120);
    assert_eq!(movement_speed(EnemyType::MiniBoss), 180);
    assert_eq!(movement_speed(EnemyType::Boss), 100);
}

#[test]
fn ai_cycle_through_attack() {
    // aggro 300, attack 50 (the melee archetype): 400 units away stays
    // idle, 250 starts the chase, inside 50 telegraphs for the type's
    // duration, then attacks, recovers and rejoins the chase (Aggressive).
    let s = spawn_melee_enemy(v(0, 0), EnemyType::CommonMelee, 1);
    assert_eq!(s.enemy.aggro_range, 300);
    assert_eq!(s.enemy.attack_range, 50);
    assert!(matches!(s.enemy.behavior, EnemyBehavior::Aggressive));
    let mut ai = s.ai;
    let enemy = s.enemy;
    let health = s.health;

    update_enemy_ai(&mut ai, &enemy, &health, v(0, 0), 9, v(400, 0), 16);
    assert!(matches!(ai.state, AIState::Idle));
    assert!(ai.target.is_none());

    update_enemy_ai(&mut ai, &enemy, &health, v(0, 0), 9, v(250, 0), 16);
    assert!(matches!(ai.state, AIState::Chasing));
    assert_eq!(ai.target, Some(9));

    update_enemy_ai(&mut ai, &enemy, &health, v(0, 0), 9, v(30, 0), 16);
    assert!(matches!(ai.state, AIState::Telegraphing));
    assert_eq!(ai.state_timer.duration_ms, 500);
    assert_eq!(ai.last_known_position, Some(v(30, 0)));

    update_enemy_ai(&mut ai, &enemy, &health, v(0, 0), 9, v(30, 0), 500);
    assert!(matches!(ai.state, AIState::Attacking));
    assert_eq!(ai.state_timer.duration_ms, 300);

    update_enemy_ai(&mut ai, &enemy, &health, v(0, 0), 9, v(30, 0), 300);
    assert!(matches!(ai.state, AIState::Recovering));
    assert_eq!(ai.state_timer.duration_ms, 300);

    update_enemy_ai(&mut ai, &enemy, &health, v(0, 0), 9, v(30, 0), 300);
    assert!(matches!(ai.state, AIState::Chasing));
}

#[test]
fn chase_dropped_beyond_aggro() {
    let s = spawn_melee_enemy(v(0, 0), EnemyType::CommonMelee, 1);
    let mut ai = s.ai;
    update_enemy_ai(&mut ai, &s.enemy, &s.health, v(0, 0), 9, v(250, 0), 16);
    assert!(matches!(ai.state, AIState::Chasing));
    // 1.5x aggro = 450; at 500 the target is lost.
    update_enemy_ai(&mut ai, &s.enemy, &s.health, v(0, 0), 9, v(500, 0), 16);
    assert!(matches!(ai.state, AIState::Idle));
    assert!(ai.target.is_none());
}

#[test]
fn low_health_chasing_timer_shrinks() {
    // An Aggressive enemy at 25% health while chasing: the state timer's
    // next duration is exactly 0.7x the nominal value.
    let s = spawn_melee_enemy(v(0, 0), EnemyType::CommonMelee, 1);
    let mut ai = s.ai;
    let wounded = Health { current: 250, max: 1000 };
    update_enemy_ai(&mut ai, &s.enemy, &wounded, v(0, 0), 9, v(250, 0), 16);
    assert!(matches!(ai.state, AIState::Chasing));
    assert_eq!(ai.state_timer.duration_ms, 350);
    assert_eq!(ai.state_timer.elapsed_ms, 0);
}

#[test]
fn support_enemy_keeps_nominal_timer() {
    let s = spawn_melee_enemy(v(0, 0), EnemyType::CommonMelee, 1);
    let mut enemy = s.enemy;
    enemy.behavior = EnemyBehavior::Support;
    let mut ai = s.ai;
    let wounded = Health { current: 250, max: 1000 };
    update_enemy_ai(&mut ai, &enemy, &wounded, v(0, 0), 9, v(250, 0), 16);
    assert!(matches!(ai.state, AIState::Chasing));
    assert_eq!(ai.state_timer.duration_ms, 500);
}

#[test]
fn defensive_flees_when_crowded() {
    let s = spawn_melee_enemy(v(0, 0), EnemyType::CommonMelee, 1);
    let mut enemy = s.enemy;
    enemy.behavior = EnemyBehavior::Defensive;
    let mut ai = s.ai;
    ai.state = AIState::Recovering;
    ai.state_timer = combat_core::timer::CountdownTimer::new(0);
    // 0.7x attack range = 35; a target at 20 drives the enemy to flee.
    update_enemy_ai(&mut ai, &enemy, &s.health, v(0, 0), 9, v(20, 0), 16);
    assert!(matches!(ai.state, AIState::Fleeing));
    assert_eq!(ai.state_timer.duration_ms, 1000);
}

#[test]
fn movement_policy_by_state() {
    let s = spawn_melee_enemy(v(0, 0), EnemyType::CommonMelee, 1);
    // Chasing far away: drive at base speed toward the target.
    let cmd = enemy_movement(AIState::Chasing, &s.enemy, v(0, 0), v(300, 0), v(0, 0));
    assert_eq!(cmd, MoveCommand::Drive(v(150, 0)));
    // Chasing inside 90% of attack range: halt.
    let cmd = enemy_movement(AIState::Chasing, &s.enemy, v(0, 0), v(30, 0), v(0, 0));
    assert_eq!(cmd, MoveCommand::Drive(v(0, 0)));
    // Fleeing from a close target: away at 1.2x speed.
    let cmd = enemy_movement(AIState::Fleeing, &s.enemy, v(0, 0), v(30, 0), v(0, 0));
    assert_eq!(cmd, MoveCommand::Drive(v(-180, 0)));
    // Winding up: a fifth of the current velocity is retained.
    let cmd = enemy_movement(AIState::Telegraphing, &s.enemy, v(0, 0), v(30, 0), v(100, -50));
    assert_eq!(cmd, MoveCommand::Drive(v(20, -10)));
    // Patrolling wanders; idle halts.
    assert_eq!(enemy_movement(AIState::Patrolling, &s.enemy, v(0, 0), v(30, 0), v(5, 5)),
        MoveCommand::Wander);
    assert_eq!(enemy_movement(AIState::Idle, &s.enemy, v(0, 0), v(30, 0), v(5, 5)),
        MoveCommand::Drive(v(0, 0)));
}

#[test]
fn melee_attack_intent() {
    let s = spawn_melee_enemy(v(0, 0), EnemyType::CommonMelee, 1);
    let intent = enemy_attack_system(AIState::Attacking, &s.enemy, &s.stats, 4, v(0, 0),
        v(100, 0));
    match intent {
        Some(AttackIntent::MeleeHitbox { hitbox, offset }) => {
            assert_eq!(hitbox.size, v(40, 40));
            assert_eq!(offset, v(30, 0));
            assert_eq!(hitbox.damage, s.stats.damage);
            assert_eq!(hitbox.knockback, 30);
            assert!(hitbox.hit_entities.is_empty());
        },
        _ => panic!("expected a melee hit volume"),
    }
    assert!(enemy_attack_system(AIState::Chasing, &s.enemy, &s.stats, 4, v(0, 0), v(100, 0))
        .is_none());
}

#[test]
fn ranged_attack_intent() {
    let s = combat_core::spawn::spawn_ranged_enemy(v(0, 0), EnemyType::CommonRanged, 1);
    let intent = enemy_attack_system(AIState::Attacking, &s.enemy, &s.stats, 4, v(0, 0),
        v(100, 0));
    match intent {
        Some(AttackIntent::RangedProjectile { projectile, velocity }) => {
            assert_eq!(projectile.damage, s.stats.damage);
            assert_eq!(projectile.speed, 300);
            assert_eq!(projectile.lifetime.duration_ms, 3000);
            assert_eq!(projectile.piercing, 0);
            assert_eq!(projectile.owner, 4);
            assert_eq!(velocity, v(300, 0));
        },
        _ => panic!("expected a projectile"),
    }
}

#[test]
fn boss_requests_nothing_here() {
    let mut s = spawn_melee_enemy(v(0, 0), EnemyType::MiniBoss, 1);
    s.enemy.enemy_type = EnemyType::MiniBoss;
    assert!(enemy_attack_system(AIState::Attacking, &s.enemy, &s.stats, 4, v(0, 0),
        v(100, 0)).is_none());
}
