use combat_core::attack::{AttackPhase, AttackState, AttackType, scaled_ms};
use combat_core::stats::CombatStats;

fn default_stats() -> CombatStats {
    CombatStats::default()
}

fn phase(s: &AttackState) -> AttackPhase {
    if !s.is_attacking {
        AttackPhase::Idle
    } else if s.startup_timer.elapsed_ms < s.startup_timer.duration_ms {
        AttackPhase::Startup
    } else if s.active_timer.elapsed_ms < s.active_timer.duration_ms {
        AttackPhase::Active
    } else if s.recovery_timer.elapsed_ms < s.recovery_timer.duration_ms {
        AttackPhase::Recovery
    } else {
        AttackPhase::Complete
    }
}

#[test]
fn light_attack_base_durations() {
    let stats = default_stats();
    let mut s = AttackState::new_idle();
    s.start_attack(AttackType::LightAttack, &stats);
    assert_eq!(s.startup_timer.duration_ms, 133);
    assert_eq!(s.active_timer.duration_ms, 67);
    assert_eq!(s.recovery_timer.duration_ms, 100);
    assert!(!s.can_cancel);
}

#[test]
fn heavy_dash_special_durations() {
    let stats = default_stats();
    let mut s = AttackState::new_idle();
    s.start_attack(AttackType::HeavyAttack, &stats);
    assert_eq!(
        (
            s.startup_timer.duration_ms,
            s.active_timer.duration_ms,
            s.recovery_timer.duration_ms,
        ),
        (333, 133, 333)
    );
    s = AttackState::new_idle();
    s.start_attack(AttackType::DashAttack, &stats);
    assert_eq!(
        (
            s.startup_timer.duration_ms,
            s.active_timer.duration_ms,
            s.recovery_timer.duration_ms,
        ),
        (50, 100, 50)
    );
    assert!(s.can_cancel);
    s = AttackState::new_idle();
    s.start_attack(AttackType::Special, &stats);
    assert_eq!(
        (
            s.startup_timer.duration_ms,
            s.active_timer.duration_ms,
            s.recovery_timer.duration_ms,
        ),
        (167, 83, 250)
    );
}

#[test]
fn attack_speed_scales_inversely() {
    let mut stats = default_stats();
    stats.attack_speed = 2000;
    let mut s = AttackState::new_idle();
    s.start_attack(AttackType::LightAttack, &stats);
    assert_eq!(s.startup_timer.duration_ms, 66);
    assert_eq!(s.active_timer.duration_ms, 33);
    assert_eq!(s.recovery_timer.duration_ms, 50);
}

#[test]
fn degenerate_attack_speed_clamped() {
    assert_eq!(scaled_ms(133, 0), 1330);
    assert_eq!(scaled_ms(133, 50), 1330);
    assert_eq!(scaled_ms(133, 100), 1330);
    assert_eq!(scaled_ms(133, 1000), 133);
}

#[test]
fn phase_ordering_full_span() {
    let stats = default_stats();
    let mut s = AttackState::new_idle();
    s.start_attack(AttackType::LightAttack, &stats);
    assert!(matches!(phase(&s), AttackPhase::Startup));
    assert!(s.is_attacking);
    s.advance(133);
    assert!(matches!(phase(&s), AttackPhase::Active));
    assert!(s.is_attacking);
    s.advance(67);
    assert!(matches!(phase(&s), AttackPhase::Recovery));
    assert!(s.is_attacking);
    assert!(s.can_cancel);
    s.advance(100);
    assert!(matches!(phase(&s), AttackPhase::Complete));
    assert!(s.is_attacking);
    s.advance(1);
    assert!(matches!(phase(&s), AttackPhase::Idle));
    assert!(!s.is_attacking);
    assert!(!s.can_cancel);
}

#[test]
fn cancel_window_opens_late_in_startup() {
    let stats = default_stats();
    let mut s = AttackState::new_idle();
    s.start_attack(AttackType::LightAttack, &stats);
    s.advance(100);
    assert!(!s.can_cancel);
    s.advance(10);
    assert!(s.can_cancel);
}

#[test]
fn combo_wrap_sequence() {
    let stats = default_stats();
    let mut s = AttackState::new_idle();
    let mut combos = Vec::new();
    for _ in 0..4 {
        s.start_attack(AttackType::LightAttack, &stats);
        combos.push(s.combo_count);
        s.advance(133);
        s.advance(67);
        s.advance(100);
        s.advance(1);
        assert!(!s.is_attacking);
    }
    assert_eq!(combos, vec![1, 2, 3, 1]);
}

#[test]
fn heavy_attack_resets_combo() {
    let stats = default_stats();
    let mut s = AttackState::new_idle();
    s.start_attack(AttackType::LightAttack, &stats);
    assert_eq!(s.combo_count, 1);
    s.advance(133);
    s.advance(67);
    s.advance(100);
    s.advance(1);
    s.start_attack(AttackType::HeavyAttack, &stats);
    assert_eq!(s.combo_count, 0);
}

#[test]
fn rejected_while_uncancellable() {
    let stats = default_stats();
    let mut s = AttackState::new_idle();
    assert!(s.try_start_attack(AttackType::LightAttack, &stats, false));
    let accepted = s.try_start_attack(AttackType::HeavyAttack, &stats, false);
    assert!(!accepted);
    assert!(matches!(s.attack_type, AttackType::LightAttack));
}

#[test]
fn rejected_while_dashing_unless_dash_attack() {
    let stats = default_stats();
    let mut s = AttackState::new_idle();
    assert!(!s.try_start_attack(AttackType::LightAttack, &stats, true));
    s.start_attack(AttackType::DashAttack, &stats);
    assert!(s.try_start_attack(AttackType::LightAttack, &stats, true));
}

#[test]
fn recovery_always_cancellable() {
    let stats = default_stats();
    let mut s = AttackState::new_idle();
    s.start_attack(AttackType::HeavyAttack, &stats);
    s.advance(333);
    s.advance(133);
    s.advance(10);
    assert!(s.can_cancel);
    assert!(s.is_attacking);
}

#[test]
fn start_attack_rejected_mid_swing() {
    // A start_attack call while an attack runs with its cancel window still
    // closed is a no-op: no timer, flag or combo change.
    let stats = default_stats();
    let mut s = AttackState::new_idle();
    s.start_attack(AttackType::LightAttack, &stats);
    let before = s;
    s.start_attack(AttackType::HeavyAttack, &stats);
    assert_eq!(s, before);
    assert!(matches!(s.attack_type, AttackType::LightAttack));
    assert_eq!(s.combo_count, 1);
    // Once the cancel window opens, the same call is accepted.
    s.advance(120);
    assert!(s.can_cancel);
    s.start_attack(AttackType::HeavyAttack, &stats);
    assert!(matches!(s.attack_type, AttackType::HeavyAttack));
    assert_eq!(s.combo_count, 0);
}
