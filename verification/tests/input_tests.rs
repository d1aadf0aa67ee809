use combat_core::attack::{AttackState, AttackType};
use combat_core::input::{InputAction, InputBuffer, handle_attack_input};
use combat_core::stats::CombatStats;

#[test]
fn default_window_is_a_tenth_of_a_second() {
    let b = InputBuffer::default();
    assert_eq!(b.max_buffer_time, 100);
    assert!(b.buffer.is_empty());
}

#[test]
fn prune_discards_stale_actions() {
    let mut b = InputBuffer::new(100);
    b.push_action(InputAction::LightAttack, 0);
    b.push_action(InputAction::Dash, 50);
    b.push_action(InputAction::HeavyAttack, 120);
    b.prune(130);
    let actions: Vec<InputAction> = b.buffer.iter().map(|e| e.action).collect();
    assert_eq!(actions, vec![InputAction::Dash, InputAction::HeavyAttack]);
}

#[test]
fn take_attack_consumes_first_fresh_request() {
    let mut b = InputBuffer::new(100);
    b.push_action(InputAction::Dash, 95);
    b.push_action(InputAction::LightAttack, 10);
    b.push_action(InputAction::HeavyAttack, 96);
    // At t=115 the light attack from t=10 is stale; the heavy one is taken,
    // everything else stays.
    let taken = b.take_attack(115);
    assert_eq!(taken, Some(AttackType::HeavyAttack));
    assert_eq!(b.buffer.len(), 2);
    assert_eq!(b.buffer[0].action, InputAction::Dash);
    assert_eq!(b.buffer[1].action, InputAction::LightAttack);
    assert_eq!(b.take_attack(115), None);
}

#[test]
fn take_dash_consumes_only_dash() {
    let mut b = InputBuffer::new(100);
    b.push_action(InputAction::LightAttack, 10);
    b.push_action(InputAction::Dash, 20);
    assert!(b.take_dash(30));
    assert_eq!(b.buffer.len(), 1);
    assert!(!b.take_dash(30));
}

#[test]
fn fresh_press_wins_over_buffer() {
    let stats = CombatStats::default();
    let mut attack = AttackState::new_idle();
    let mut buffer = InputBuffer::new(100);
    buffer.push_action(InputAction::HeavyAttack, 10);
    let started = handle_attack_input(&mut attack, &mut buffer, &stats, false,
        Some(AttackType::LightAttack), 20);
    assert_eq!(started, Some(AttackType::LightAttack));
    assert!(matches!(attack.attack_type, AttackType::LightAttack));
    assert_eq!(buffer.buffer.len(), 1);
}

#[test]
fn buffered_attack_fires_when_nothing_pressed() {
    let stats = CombatStats::default();
    let mut attack = AttackState::new_idle();
    let mut buffer = InputBuffer::new(100);
    buffer.push_action(InputAction::HeavyAttack, 10);
    let started = handle_attack_input(&mut attack, &mut buffer, &stats, false, None, 20);
    assert_eq!(started, Some(AttackType::HeavyAttack));
    assert!(buffer.buffer.is_empty());
}

#[test]
fn gated_input_leaves_buffer_for_later() {
    let stats = CombatStats::default();
    let mut attack = AttackState::new_idle();
    attack.start_attack(AttackType::HeavyAttack, &stats);
    let mut buffer = InputBuffer::new(100);
    buffer.push_action(InputAction::LightAttack, 10);
    // The heavy attack cannot be cancelled yet: nothing starts and the
    // buffered request is kept.
    let started = handle_attack_input(&mut attack, &mut buffer, &stats, false, None, 20);
    assert_eq!(started, None);
    assert!(matches!(attack.attack_type, AttackType::HeavyAttack));
    assert_eq!(buffer.buffer.len(), 1);
}

#[test]
fn dash_gates_attacks() {
    let stats = CombatStats::default();
    let mut attack = AttackState::new_idle();
    let mut buffer = InputBuffer::new(100);
    let started = handle_attack_input(&mut attack, &mut buffer, &stats, true,
        Some(AttackType::LightAttack), 20);
    assert_eq!(started, None);
    assert!(!attack.is_attacking);
}
