use combat_core::ai::{AIState, EnemyType};
use combat_core::geom::Vec2;
use combat_core::presentation::{
    DamageNumber, Telegraph, TelegraphType, spawn_damage_numbers, telegraph_for,
    update_damage_numbers, update_telegraphs,
};
use combat_core::timer::CountdownTimer;

fn v(x: i64, y: i64) -> Vec2 {
    Vec2 { x, y }
}

#[test]
fn telegraph_only_while_telegraphing() {
    assert!(telegraph_for(AIState::Chasing, EnemyType::CommonMelee).is_none());
    assert!(telegraph_for(AIState::Attacking, EnemyType::CommonMelee).is_none());
    let t = telegraph_for(AIState::Telegraphing, EnemyType::CommonMelee).unwrap();
    assert_eq!(t.damage_area, v(60, 60));
    assert_eq!(t.duration.duration_ms, 500);
    assert!(matches!(t.telegraph_type, TelegraphType::MeleeSwing));
    assert_eq!((t.color.red, t.color.green, t.color.blue, t.color.alpha), (1000, 0, 0, 500));
}

#[test]
fn telegraph_shapes_by_type() {
    let t = telegraph_for(AIState::Telegraphing, EnemyType::CommonRanged).unwrap();
    assert_eq!(t.damage_area, v(20, 200));
    assert_eq!(t.duration.duration_ms, 700);
    assert!(matches!(t.telegraph_type, TelegraphType::RangedShot));
    let t = telegraph_for(AIState::Telegraphing, EnemyType::EliteMelee).unwrap();
    assert_eq!(t.damage_area, v(80, 80));
    let t = telegraph_for(AIState::Telegraphing, EnemyType::EliteRanged).unwrap();
    assert_eq!(t.damage_area, v(30, 300));
    assert_eq!(t.color.green, 500);
    assert!(telegraph_for(AIState::Telegraphing, EnemyType::Boss).is_none());
    assert!(telegraph_for(AIState::Telegraphing, EnemyType::MiniBoss).is_none());
}

#[test]
fn telegraph_alpha_fades_in_holds_and_flashes() {
    let mut t = Telegraph {
        duration: CountdownTimer::new(1000),
        telegraph_type: TelegraphType::MeleeSwing,
        damage_area: v(60, 60),
        color: combat_core::presentation::ColorPm { red: 1000, green: 0, blue: 0, alpha: 500 },
    };
    // 10% in: fading in at five times the progress.
    let (alpha, expired) = update_telegraphs(&mut t, 100);
    assert_eq!(alpha, 500);
    assert!(!expired);
    // 50% in: fully visible.
    let (alpha, _) = update_telegraphs(&mut t, 400);
    assert_eq!(alpha, 1000);
    // 95% in: flashing low on an odd hundredth-step.
    let (alpha, _) = update_telegraphs(&mut t, 450);
    assert_eq!(alpha, 500);
    // Run out: the warning is taken down.
    let (alpha, expired) = update_telegraphs(&mut t, 50);
    assert_eq!(alpha, 1000);
    assert!(expired);
}

#[test]
fn damage_number_spawn_and_decay() {
    let n = spawn_damage_numbers(120000, true);
    assert_eq!(n.amount, 120000);
    assert!(n.is_crit);
    assert_eq!(n.velocity.y, 100);
    assert!(n.velocity.x >= -50 && n.velocity.x <= 50);
    assert_eq!(n.lifetime.duration_ms, 1000);
}

#[test]
fn damage_number_floats_slows_and_fades() {
    let mut n = DamageNumber {
        amount: 5000,
        is_crit: false,
        lifetime: CountdownTimer::new(1000),
        velocity: v(40, 100),
    };
    let mut pos = v(0, 0);
    let (alpha, expired) = update_damage_numbers(&mut n, &mut pos, 500);
    assert!(!expired);
    assert_eq!(alpha, 500);
    assert_eq!(pos, v(20, 50));
    // 95% velocity retention, rounded toward zero.
    assert_eq!(n.velocity, v(38, 95));
    let (alpha, expired) = update_damage_numbers(&mut n, &mut pos, 500);
    assert!(expired);
    assert_eq!(alpha, 0);
}
