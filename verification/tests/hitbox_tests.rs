use combat_core::attack::AttackType;
use combat_core::geom::{Vec2, aabb_overlap, dist_sq, within_range};
use combat_core::hitbox::{Hitbox, Hurtbox};
use combat_core::stats::CombatStats;

fn v(x: i64, y: i64) -> Vec2 {
    Vec2 { x, y }
}

#[test]
fn aabb_overlapping_boxes() {
    assert!(aabb_overlap(v(40, 0), v(60, 40), v(50, 0), v(30, 30)));
    assert!(aabb_overlap(v(0, 0), v(10, 10), v(0, 0), v(10, 10)));
}

#[test]
fn aabb_touching_edges_do_not_count() {
    // Boxes of half-extent 5 centered 10 apart touch exactly and must not
    // overlap.
    assert!(!aabb_overlap(v(0, 0), v(10, 10), v(10, 0), v(10, 10)));
    assert!(!aabb_overlap(v(0, 0), v(10, 10), v(0, 10), v(10, 10)));
    assert!(aabb_overlap(v(0, 0), v(10, 10), v(9, 0), v(10, 10)));
}

#[test]
fn aabb_disjoint_boxes() {
    assert!(!aabb_overlap(v(0, 0), v(10, 10), v(100, 100), v(10, 10)));
}

#[test]
fn light_hitbox_scales_with_combo() {
    let mut stats = CombatStats::default();
    stats.damage = 100000;
    let h0 = Hitbox::for_attack(AttackType::LightAttack, 0, &stats);
    assert_eq!(h0.damage, 100000);
    let h2 = Hitbox::for_attack(AttackType::LightAttack, 2, &stats);
    assert_eq!(h2.damage, 140000);
    let h3 = Hitbox::for_attack(AttackType::LightAttack, 3, &stats);
    assert_eq!(h3.damage, 160000);
    assert_eq!(h3.size, Vec2 { x: 60, y: 40 });
    assert_eq!(h3.offset, Vec2 { x: 40, y: 0 });
    assert_eq!(h3.knockback, 50);
}

#[test]
fn fixed_multiplier_hitboxes() {
    let mut stats = CombatStats::default();
    stats.damage = 100000;
    let heavy = Hitbox::for_attack(AttackType::HeavyAttack, 0, &stats);
    assert_eq!(heavy.damage, 200000);
    assert_eq!(heavy.knockback, 150);
    let dash = Hitbox::for_attack(AttackType::DashAttack, 0, &stats);
    assert_eq!(dash.damage, 150000);
    let special = Hitbox::for_attack(AttackType::Special, 0, &stats);
    assert_eq!(special.damage, 300000);
    assert_eq!(special.offset, Vec2 { x: 0, y: 0 });
}

#[test]
fn ledger_blocks_second_hit() {
    let stats = CombatStats::default();
    let mut h = Hitbox::for_attack(AttackType::LightAttack, 1, &stats);
    let hurtbox = Hurtbox::new(v(30, 30), false);
    let first = h.try_register(v(0, 0), 1, 2, &hurtbox, v(20, 0));
    assert!(first);
    assert_eq!(h.hit_entities, vec![2]);
    let second = h.try_register(v(0, 0), 1, 2, &hurtbox, v(20, 0));
    assert!(!second);
    assert_eq!(h.hit_entities, vec![2]);
}

#[test]
fn owner_and_invulnerable_are_skipped() {
    let stats = CombatStats::default();
    let mut h = Hitbox::for_attack(AttackType::LightAttack, 1, &stats);
    let hurtbox = Hurtbox::new(v(30, 30), false);
    assert!(!h.try_register(v(0, 0), 7, 7, &hurtbox, v(20, 0)));
    let shielded = Hurtbox::new(v(30, 30), true);
    assert!(!h.try_register(v(0, 0), 7, 8, &shielded, v(20, 0)));
    assert!(h.hit_entities.is_empty());
}

#[test]
fn non_overlapping_target_not_registered() {
    let stats = CombatStats::default();
    let mut h = Hitbox::for_attack(AttackType::LightAttack, 1, &stats);
    let hurtbox = Hurtbox::new(v(30, 30), false);
    assert!(!h.try_register(v(0, 0), 1, 2, &hurtbox, v(500, 0)));
    assert!(h.hit_entities.is_empty());
}

#[test]
fn distance_queries() {
    assert_eq!(dist_sq(v(0, 0), v(3, 4)), 25);
    assert!(within_range(v(0, 0), v(3, 4), 6));
    assert!(!within_range(v(0, 0), v(3, 4), 5));
}
