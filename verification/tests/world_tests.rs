use combat_core::ai::EnemyType;
use combat_core::attack::AttackType;
use combat_core::geom::Vec2;
use combat_core::spawn::spawn_melee_enemy;
use combat_core::state::{CurrentGameState, GameState};
use combat_core::world::{Combatant, World, update_projectiles};

fn v(x: i64, y: i64) -> Vec2 {
    Vec2 { x, y }
}

fn combat_game() -> GameState {
    let mut g = GameState::default();
    g.current_state = CurrentGameState::InRun;
    g
}

fn arena_with_player_and_enemy() -> World {
    let mut w = World::new(combat_game());
    let mut player = Combatant::new_player(1, v(0, 0));
    player.stats.crit_chance = 0;
    w.add_combatant(player);
    let spawned = spawn_melee_enemy(v(50, 0), EnemyType::CommonMelee, 1);
    w.add_combatant(Combatant::from_spawned(2, spawned));
    w
}

#[test]
fn full_swing_hits_exactly_once() {
    let mut w = arena_with_player_and_enemy();
    let st = w.combatants[0].stats;
    w.combatants[0].attack.start_attack(AttackType::LightAttack, &st);
    let enemy_health = w.combatants[1].health.current;
    assert_eq!(enemy_health, 220000);

    // Startup finishes: the hit volume spawns, strikes, and damage lands in
    // the same tick. Light combo 1: 100.0 * 1.2 = 120.0 damage.
    w.combat_tick(133);
    assert_eq!(w.combatants[1].health.current, enemy_health - 120000);
    assert_eq!(w.hitboxes.len(), 1);
    assert_eq!(w.hitboxes[0].hitbox.hit_entities, vec![2]);
    assert_eq!(w.hitboxes[0].hitbox.resolved_hits, 1);
    assert_eq!(w.stats.damage_dealt, 120000);
    assert_eq!(w.log.recent_damage.len(), 1);
    assert_eq!(w.log.recent_damage[0].amount, 120000);
    assert!(!w.log.recent_damage[0].is_crit);

    // The knockback impulse pushed the enemy away from the hit volume at
    // (40, 0): direction (1, 0) scaled to 50.
    assert_eq!(w.combatants[1].velocity, v(50, 0));

    // The same swing never fires twice for the same target: the active
    // window closes, the volume is cleaned up, health is untouched.
    w.combat_tick(67);
    assert_eq!(w.combatants[1].health.current, enemy_health - 120000);
    assert_eq!(w.hitboxes.len(), 0);
    assert_eq!(w.log.recent_damage.len(), 1);
}

#[test]
fn no_tick_outside_combat() {
    let mut w = arena_with_player_and_enemy();
    w.game.current_state = CurrentGameState::MainMenu;
    let st = w.combatants[0].stats;
    w.combatants[0].attack.start_attack(AttackType::LightAttack, &st);
    let before = w.combatants[0].attack.startup_timer.elapsed_ms;
    w.combat_tick(133);
    assert_eq!(w.combatants[0].attack.startup_timer.elapsed_ms, before);
    assert!(w.hitboxes.is_empty());
}

#[test]
fn paused_combat_is_a_no_op() {
    let mut w = arena_with_player_and_enemy();
    w.game.paused = true;
    w.combat_tick(133);
    assert_eq!(w.time_ms, 0);
}

#[test]
fn enemy_death_removes_and_counts_once() {
    let mut w = arena_with_player_and_enemy();
    w.combatants[1].pending_death = true;
    w.handle_death();
    assert_eq!(w.combatants.len(), 1);
    assert_eq!(w.combatants[0].id, 1);
    assert_eq!(w.stats.enemies_killed, 1);
    assert_eq!(w.stats.deaths, 0);
    assert!(matches!(w.game.current_state, CurrentGameState::InRun));
    w.handle_death();
    assert_eq!(w.stats.enemies_killed, 1);
}

#[test]
fn player_death_keeps_entity_and_defeats_run() {
    let mut w = arena_with_player_and_enemy();
    w.combatants[0].pending_death = true;
    w.handle_death();
    assert_eq!(w.combatants.len(), 2);
    assert!(!w.combatants[0].pending_death);
    assert!(matches!(w.game.current_state, CurrentGameState::Death));
    assert_eq!(w.stats.deaths, 1);
    assert_eq!(w.stats.enemies_killed, 0);
    w.handle_death();
    assert_eq!(w.stats.deaths, 1);
}

#[test]
fn lethal_swing_flags_and_removes_enemy() {
    let mut w = arena_with_player_and_enemy();
    w.combatants[1].health.current = 1000;
    let st = w.combatants[0].stats;
    w.combatants[0].attack.start_attack(AttackType::HeavyAttack, &st);
    w.combat_tick(333);
    assert_eq!(w.combatants.len(), 1);
    assert_eq!(w.stats.enemies_killed, 1);
}

#[test]
fn invulnerable_target_never_struck() {
    let mut w = arena_with_player_and_enemy();
    w.combatants[1].hurtbox.invulnerable = true;
    let st = w.combatants[0].stats;
    w.combatants[0].attack.start_attack(AttackType::LightAttack, &st);
    w.combat_tick(133);
    assert_eq!(w.combatants[1].health.current, 220000);
    assert!(w.hitboxes[0].hitbox.hit_entities.is_empty());
}

#[test]
fn orphaned_hitbox_cleaned_up() {
    let mut w = arena_with_player_and_enemy();
    let st = w.combatants[0].stats;
    w.combatants[0].attack.start_attack(AttackType::LightAttack, &st);
    w.combat_tick(133);
    assert_eq!(w.hitboxes.len(), 1);
    // The owner vanishes; the volume is garbage on the next pass.
    w.combatants.remove(0);
    w.cleanup_hitboxes();
    assert!(w.hitboxes.is_empty());
}

#[test]
fn enemy_tick_telegraphs_then_strikes() {
    let mut w = arena_with_player_and_enemy();
    // Close the distance: the enemy first acquires the target, then the
    // cycle telegraphs (500ms for the common melee), attacks for 300ms.
    let shots = w.enemy_tick(1, v(30, 0), 16);
    assert!(shots.is_empty());
    let ai = w.combatants[1].ai.unwrap();
    assert!(matches!(ai.state, combat_core::ai::AIState::Chasing));
    let shots = w.enemy_tick(1, v(30, 0), 16);
    assert!(shots.is_empty());
    let ai = w.combatants[1].ai.unwrap();
    assert!(matches!(ai.state, combat_core::ai::AIState::Telegraphing));
    let shots = w.enemy_tick(1, v(30, 0), 500);
    assert!(shots.is_empty());
    let ai = w.combatants[1].ai.unwrap();
    assert!(matches!(ai.state, combat_core::ai::AIState::Attacking));
    // Entering the attacking state landed exactly one melee hit volume.
    assert_eq!(w.hitboxes.len(), 1);
    assert_eq!(w.hitboxes[0].owner, 2);
    assert_eq!(w.hitboxes[0].hitbox.size, v(40, 40));
    // Staying in the attacking state does not land another.
    let _ = w.enemy_tick(1, v(30, 0), 16);
    assert_eq!(w.hitboxes.len(), 1);
}

#[test]
fn ranged_enemy_fires_one_projectile_per_cycle() {
    let mut w = World::new(combat_game());
    w.add_combatant(Combatant::new_player(1, v(0, 0)));
    let spawned = combat_core::spawn::spawn_ranged_enemy(v(100, 0), EnemyType::CommonRanged,
        1);
    w.add_combatant(Combatant::from_spawned(2, spawned));
    // Within attack range 200: chase begins, telegraph (700ms), then attack.
    let _ = w.enemy_tick(1, v(0, 0), 16);
    let _ = w.enemy_tick(1, v(0, 0), 16);
    let shots = w.enemy_tick(1, v(0, 0), 700);
    assert_eq!(shots.len(), 1);
    assert_eq!(shots[0].projectile.owner, 2);
    assert_eq!(shots[0].projectile.speed, 300);
    let shots = w.enemy_tick(1, v(0, 0), 16);
    assert!(shots.is_empty());
}

#[test]
fn projectiles_fly_and_expire() {
    let mut w = World::new(combat_game());
    w.add_combatant(Combatant::new_player(1, v(0, 0)));
    let spawned = combat_core::spawn::spawn_ranged_enemy(v(100, 0), EnemyType::CommonRanged,
        1);
    w.add_combatant(Combatant::from_spawned(2, spawned));
    let _ = w.enemy_tick(1, v(0, 0), 16);
    let _ = w.enemy_tick(1, v(0, 0), 16);
    let mut shots = w.enemy_tick(1, v(0, 0), 700);
    assert_eq!(shots.len(), 1);
    let start_x = shots[0].pos.x;
    update_projectiles(&mut shots, 1000);
    assert_eq!(shots.len(), 1);
    // Flying toward the player at 300 units/s for one second.
    assert_eq!(shots[0].pos.x, start_x - 300);
    update_projectiles(&mut shots, 2000);
    assert!(shots.is_empty());
}

#[test]
fn empty_world_ticks_quietly() {
    let mut w = World::new(combat_game());
    w.combat_tick(16);
    assert!(w.combatants.is_empty());
    assert!(w.hitboxes.is_empty());
    assert_eq!(w.time_ms, 16);
}

#[test]
fn orphaned_hitbox_skipped_by_damage_pass() {
    let mut w = arena_with_player_and_enemy();
    let st = w.combatants[0].stats;
    w.combatants[0].attack.start_attack(AttackType::LightAttack, &st);
    w.update_attack_state(133);
    w.spawn_hitboxes();
    w.check_hit_detection();
    assert_eq!(w.hitboxes[0].hitbox.hit_entities, vec![2]);
    // The owner vanishes before the damage pass: the volume is never
    // dereferenced, nothing is consumed, no event is logged.
    w.combatants.remove(0);
    let strikes = w.apply_damage();
    assert!(strikes.is_empty());
    assert_eq!(w.hitboxes[0].hitbox.resolved_hits, 0);
    assert_eq!(w.combatants[0].health.current, 220000);
    assert!(w.log.recent_damage.is_empty());
}

#[test]
fn enemy_phase_without_player_is_a_no_op() {
    let mut w = World::new(combat_game());
    let spawned = spawn_melee_enemy(v(50, 0), EnemyType::CommonMelee, 1);
    w.add_combatant(Combatant::from_spawned(2, spawned));
    let before_ai = w.combatants[0].ai;
    let shots = w.enemy_phase(16);
    assert!(shots.is_empty());
    assert_eq!(w.combatants[0].ai, before_ai);
    assert!(w.hitboxes.is_empty());
}

#[test]
fn enemy_phase_steps_against_the_player() {
    let mut w = arena_with_player_and_enemy();
    w.combatants[0].pos = v(30, 0);
    let _ = w.enemy_phase(16);
    let ai = w.combatants[1].ai.unwrap();
    assert!(matches!(ai.state, combat_core::ai::AIState::Chasing));
}
