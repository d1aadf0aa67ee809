use combat_core::direction::{dir_scaled, isqrt};
use combat_core::geom::{Vec2, beyond_scaled_range, dist_sq, within_scaled_range};
use combat_core::timer::CountdownTimer;

fn v(x: i64, y: i64) -> Vec2 {
    Vec2 { x, y }
}

#[test]
fn isqrt_exact_values() {
    assert_eq!(isqrt(0), 0);
    assert_eq!(isqrt(1), 1);
    assert_eq!(isqrt(2), 1);
    assert_eq!(isqrt(3), 1);
    assert_eq!(isqrt(4), 2);
    assert_eq!(isqrt(24), 4);
    assert_eq!(isqrt(25), 5);
    assert_eq!(isqrt(26), 5);
    assert_eq!(isqrt(1000000), 1000);
    assert_eq!(isqrt(u64::MAX), 0xFFFF_FFFF);
}

#[test]
fn dir_scaled_normalizes() {
    assert_eq!(dir_scaled(v(0, 0), v(10, 0), 300), v(300, 0));
    assert_eq!(dir_scaled(v(0, 0), v(0, -10), 300), v(0, -300));
    assert_eq!(dir_scaled(v(0, 0), v(3, 4), 100), v(60, 80));
    assert_eq!(dir_scaled(v(3, 4), v(0, 0), 100), v(-60, -80));
}

#[test]
fn dir_scaled_coincidence_is_zero() {
    assert_eq!(dir_scaled(v(5, 5), v(5, 5), 300), v(0, 0));
}

#[test]
fn scaled_range_comparisons() {
    // distance 100 against range 60 scaled by 1.5 = 90: beyond.
    assert!(beyond_scaled_range(v(0, 0), v(100, 0), 60, 3, 2));
    // distance 80 against the same 90: not beyond.
    assert!(!beyond_scaled_range(v(0, 0), v(80, 0), 60, 3, 2));
    // distance 30 against range 50 scaled by 0.7 = 35: within.
    assert!(within_scaled_range(v(0, 0), v(30, 0), 50, 7, 10));
    assert!(!within_scaled_range(v(0, 0), v(40, 0), 50, 7, 10));
    assert_eq!(dist_sq(v(1, 1), v(4, 5)), 25);
}

#[test]
fn countdown_timer_behavior() {
    let mut t = CountdownTimer::new(100);
    assert!(!t.finished());
    t.tick(60);
    assert_eq!(t.elapsed_ms, 60);
    assert!(t.fraction_exceeds_permille(500));
    assert!(!t.fraction_exceeds_permille(600));
    t.tick(60);
    assert!(t.finished());
    assert_eq!(t.elapsed_ms, 100);
    assert_eq!(t.fraction_permille(), 1000);
    t.reset();
    assert!(!t.finished());
    assert_eq!(t.elapsed_ms, 0);
}

#[test]
fn zero_duration_timer_is_born_finished() {
    let t = CountdownTimer::new(0);
    assert!(t.finished());
    assert_eq!(t.fraction_permille(), 1000);
}

#[test]
fn timer_shrink_restarts_scaled() {
    let mut t = CountdownTimer::new(500);
    t.tick(200);
    t.shrink_permille(700);
    assert_eq!(t.duration_ms, 350);
    assert_eq!(t.elapsed_ms, 0);
}
