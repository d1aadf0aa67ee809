use combat_core::geom::Vec2;
use combat_core::hitbox::Hurtbox;
use combat_core::knockback::apply_knockback;
use combat_core::movement::{
    DashState, MovementStats, apply_velocity, clamp_to_arena, try_start_dash,
    update_dash_state,
};

fn v(x: i64, y: i64) -> Vec2 {
    Vec2 { x, y }
}

#[test]
fn dash_starts_in_motion_direction_with_iframes() {
    let mut dash = DashState::default();
    dash.cooldown_timer.tick(400);
    let stats = MovementStats::default();
    let mut velocity = v(300, 0);
    let mut hurtbox = Hurtbox::new(v(32, 32), false);
    let started = try_start_dash(&mut dash, &mut velocity, &stats, &mut hurtbox, true);
    assert!(started);
    assert!(dash.is_dashing);
    assert_eq!(velocity, v(800, 0));
    assert_eq!(dash.dash_direction, v(800, 0));
    assert!(hurtbox.invulnerable);
}

#[test]
fn dash_default_direction_is_right() {
    let mut dash = DashState::default();
    dash.cooldown_timer.tick(400);
    let stats = MovementStats::default();
    let mut velocity = v(0, 0);
    let mut hurtbox = Hurtbox::new(v(32, 32), false);
    assert!(try_start_dash(&mut dash, &mut velocity, &stats, &mut hurtbox, true));
    assert_eq!(velocity, v(800, 0));
}

#[test]
fn dash_blocked_by_cooldown() {
    let mut dash = DashState::default();
    let stats = MovementStats::default();
    let mut velocity = v(300, 0);
    let mut hurtbox = Hurtbox::new(v(32, 32), false);
    // The fresh cooldown clock has not run out yet.
    assert!(!try_start_dash(&mut dash, &mut velocity, &stats, &mut hurtbox, true));
    assert!(!dash.is_dashing);
}

#[test]
fn dash_ends_dropping_iframes_and_restarting_cooldown() {
    let mut dash = DashState::default();
    dash.cooldown_timer.tick(400);
    let stats = MovementStats::default();
    let mut velocity = v(300, 0);
    let mut hurtbox = Hurtbox::new(v(32, 32), false);
    assert!(try_start_dash(&mut dash, &mut velocity, &stats, &mut hurtbox, true));
    update_dash_state(&mut dash, &mut velocity, &mut hurtbox, 100);
    assert!(dash.is_dashing);
    assert_eq!(velocity, v(800, 0));
    update_dash_state(&mut dash, &mut velocity, &mut hurtbox, 100);
    assert!(!dash.is_dashing);
    assert!(!hurtbox.invulnerable);
    assert_eq!(velocity, v(0, 0));
    assert!(dash.cooldown_timer.elapsed_ms < dash.cooldown_timer.duration_ms);
}

#[test]
fn velocity_integrates_per_second() {
    let mut pos = v(0, 0);
    apply_velocity(&mut pos, v(300, -150), 1000);
    assert_eq!(pos, v(300, -150));
    apply_velocity(&mut pos, v(300, 0), 500);
    assert_eq!(pos, v(450, -150));
}

#[test]
fn arena_clamp() {
    let mut pos = v(700, -500);
    clamp_to_arena(&mut pos);
    assert_eq!(pos, v(584, -384));
    let mut pos = v(-700, 500);
    clamp_to_arena(&mut pos);
    assert_eq!(pos, v(-584, 384));
    let mut pos = v(10, 20);
    clamp_to_arena(&mut pos);
    assert_eq!(pos, v(10, 20));
}

#[test]
fn knockback_adds_directed_impulse() {
    let mut velocity = v(0, 0);
    apply_knockback(&mut velocity, v(0, 0), v(10, 0), 50);
    assert_eq!(velocity, v(50, 0));
    // A second simultaneous hit compounds.
    apply_knockback(&mut velocity, v(0, 0), v(0, 10), 50);
    assert_eq!(velocity, v(50, 50));
}

#[test]
fn knockback_at_coincidence_is_a_no_op() {
    let mut velocity = v(7, -3);
    apply_knockback(&mut velocity, v(5, 5), v(5, 5), 200);
    assert_eq!(velocity, v(7, -3));
}

#[test]
fn knockback_diagonal_is_normalized() {
    let mut velocity = v(0, 0);
    // Direction (3, 4) at distance 5, magnitude 100: impulse (60, 80).
    apply_knockback(&mut velocity, v(0, 0), v(3, 4), 100);
    assert_eq!(velocity, v(60, 80));
}
