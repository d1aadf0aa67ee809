use combat_core::damage::{resolve_hit, resolve_hit_rolled, sample_below};
use combat_core::stats::{CombatStats, Health};

fn stats(crit_chance: u64, crit_damage: u64, armor: u64, damage_reduction: u64) -> CombatStats {
    CombatStats {
        damage: 0,
        crit_chance,
        crit_damage,
        attack_speed: 1000,
        armor,
        damage_reduction,
    }
}

#[test]
fn armor_floor_exact() {
    // damage 5.0 against armor 100.0: the pre-reduction damage is floored at
    // exactly 1.0, never zero or negative.
    let attacker = stats(0, 2000, 0, 0);
    let defender = stats(0, 2000, 100000, 0);
    let (amount, is_crit) = resolve_hit(0, 5000, &attacker, &defender);
    assert!(!is_crit);
    assert_eq!(amount, 1000);
}

#[test]
fn armor_floor_never_zero_with_heavy_armor() {
    let attacker = stats(0, 2000, 0, 0);
    for armor in [0u64, 1000, 5000, 100000, 100000000] {
        let defender = stats(0, 2000, armor, 0);
        let (amount, _) = resolve_hit(500, 5000, &attacker, &defender);
        assert!(amount >= 1);
    }
}

#[test]
fn armor_subtracts_above_floor() {
    let attacker = stats(0, 2000, 0, 0);
    let defender = stats(0, 2000, 30000, 0);
    let (amount, _) = resolve_hit(999, 100000, &attacker, &defender);
    assert_eq!(amount, 70000);
}

#[test]
fn crit_chance_zero_never_crits() {
    let attacker = stats(0, 2000, 0, 0);
    let defender = stats(0, 2000, 0, 0);
    for roll in [0u64, 1, 500, 999] {
        let (_, is_crit) = resolve_hit(roll, 10000, &attacker, &defender);
        assert!(!is_crit);
    }
    for _ in 0..20 {
        let (_, is_crit) = resolve_hit_rolled(10000, &attacker, &defender);
        assert!(!is_crit);
    }
}

#[test]
fn crit_chance_one_always_crits() {
    let attacker = stats(1000, 2000, 0, 0);
    let defender = stats(0, 2000, 0, 0);
    for roll in [0u64, 1, 500, 999] {
        let (amount, is_crit) = resolve_hit(roll, 10000, &attacker, &defender);
        assert!(is_crit);
        assert_eq!(amount, 20000);
    }
    for _ in 0..20 {
        let (_, is_crit) = resolve_hit_rolled(10000, &attacker, &defender);
        assert!(is_crit);
    }
}

#[test]
fn crit_multiplies_before_armor() {
    // 10.0 damage, 1.5x crit, 5.0 armor: (10 * 1.5) - 5 = 10.0.
    let attacker = stats(1000, 1500, 0, 0);
    let defender = stats(0, 2000, 5000, 0);
    let (amount, is_crit) = resolve_hit(0, 10000, &attacker, &defender);
    assert!(is_crit);
    assert_eq!(amount, 10000);
}

#[test]
fn damage_reduction_scales_after_floor() {
    // 50.0 damage, no armor, 25% reduction: 37.5.
    let attacker = stats(0, 2000, 0, 0);
    let defender = stats(0, 2000, 0, 250);
    let (amount, _) = resolve_hit(0, 50000, &attacker, &defender);
    assert_eq!(amount, 37500);
}

#[test]
fn full_reduction_blocks_everything() {
    let attacker = stats(0, 2000, 0, 0);
    let defender = stats(0, 2000, 0, 1000);
    let (amount, _) = resolve_hit(0, 50000, &attacker, &defender);
    assert_eq!(amount, 0);
}

#[test]
fn health_take_damage_saturates_and_signals_death() {
    let mut h = Health::new(100000);
    assert!(!h.take_damage(40000));
    assert_eq!(h.current, 60000);
    assert!(h.take_damage(90000));
    assert_eq!(h.current, 0);
}

#[test]
fn health_heal_caps_at_max() {
    let mut h = Health::new(100000);
    h.take_damage(50000);
    h.heal(20000);
    assert_eq!(h.current, 70000);
    h.heal(1000000);
    assert_eq!(h.current, 100000);
}

#[test]
fn health_percentage_permille() {
    let mut h = Health::new(100000);
    assert_eq!(h.percentage(), 1000);
    h.take_damage(75000);
    assert_eq!(h.percentage(), 250);
    assert!(h.below_permille(300));
    assert!(!h.below_permille(250));
}

#[test]
fn sample_below_stays_below_bound() {
    for _ in 0..100 {
        assert!(sample_below(1000) < 1000);
        assert_eq!(sample_below(1), 0);
    }
}
