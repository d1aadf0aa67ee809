//! The attack state machine: a per-combatant phase tracker that advances
//! startup, active and recovery clocks in strict sequence, opens the cancel
//! window late in startup and throughout recovery, and drives the light-attack
//! combo counter.

use vstd::prelude::*;
use crate::timer::CountdownTimer;
use crate::stats::CombatStats;
use crate::units::{DURATION_LIMIT_MS, PERMILLE};

verus! {

#[derive(Clone, Copy, Debug, PartialEq, Eq, Structural)]
pub enum AttackType {
    LightAttack,
    HeavyAttack,
    DashAttack,
    Special,
}

/// The position of an attack within its lifecycle. `Complete` is the
/// single-tick state after the recovery clock finishes and before the next
/// advance returns the combatant to `Idle`.
#[derive(Clone, Copy, Debug, PartialEq, Eq, Structural)]
pub enum AttackPhase {
    Idle,
    Startup,
    Active,
    Recovery,
    Complete,
}

/// Unscaled startup duration by attack type, in milliseconds.
pub open spec fn spec_startup_base_ms(t: AttackType) -> u64 {
    match t {
        AttackType::LightAttack => 133,
        AttackType::HeavyAttack => 333,
        AttackType::DashAttack => 50,
        AttackType::Special => 167,
    }
}

/// Unscaled active duration by attack type, in milliseconds.
pub open spec fn spec_active_base_ms(t: AttackType) -> u64 {
    match t {
        AttackType::LightAttack => 67,
        AttackType::HeavyAttack => 133,
        AttackType::DashAttack => 100,
        AttackType::Special => 83,
    }
}

/// Unscaled recovery duration by attack type, in milliseconds.
pub open spec fn spec_recovery_base_ms(t: AttackType) -> u64 {
    match t {
        AttackType::LightAttack => 100,
        AttackType::HeavyAttack => 333,
        AttackType::DashAttack => 50,
        AttackType::Special => 250,
    }
}

/// Attack-speed divisor floor: speeds below 0.1 are clamped up to it, so a
/// degenerate speed can never stretch a phase without bound.
pub const MIN_SPEED_PERMILLE: u64 = 100;

/// A phase duration scaled inversely by attack speed:
/// `base / max(speed, 0.1)`, computed exactly in permille.
pub open spec fn spec_scaled_ms(base_ms: u64, attack_speed: u64) -> int {
    let divisor = if attack_speed >= MIN_SPEED_PERMILLE {
        attack_speed as int
    } else {
        MIN_SPEED_PERMILLE as int
    };
    base_ms * PERMILLE / divisor
}

/// Scaled durations stay below the timer bound whenever the base does.
pub proof fn lemma_scaled_ms_bound(base_ms: u64, attack_speed: u64)
    requires
        base_ms <= 1000,
    ensures
        0 <= spec_scaled_ms(base_ms, attack_speed) <= 10 * base_ms,
{
    let divisor = if attack_speed >= MIN_SPEED_PERMILLE {
        attack_speed as int
    } else {
        MIN_SPEED_PERMILLE as int
    };
    assert(0 <= base_ms * PERMILLE / divisor <= 10 * base_ms) by (nonlinear_arith)
        requires divisor >= 100, base_ms >= 0;
}

/// Compute a phase duration scaled by attack speed.
pub fn scaled_ms(base_ms: u64, attack_speed: u64) -> (r: u64)
    requires
        base_ms <= 1000,
    ensures
        r == spec_scaled_ms(base_ms, attack_speed),
        r <= 10 * base_ms,
{
    proof {
        lemma_scaled_ms_bound(base_ms, attack_speed);
    }
    let divisor = if attack_speed >= MIN_SPEED_PERMILLE {
        attack_speed
    } else {
        MIN_SPEED_PERMILLE
    };
    base_ms * PERMILLE / divisor
}

/// Fraction of startup (in permille) past which the attack may be cancelled
/// early.
pub const CANCEL_WINDOW_PERMILLE: u64 = 800;

/// Per-combatant attack phase tracker: the three sequential clocks, the
/// cancel window flag and the light-combo counter.
#[derive(Clone, Copy, Debug, PartialEq, Eq, Structural)]
pub struct AttackState {
    pub is_attacking: bool,
    pub attack_type: AttackType,
    pub startup_timer: CountdownTimer,
    pub active_timer: CountdownTimer,
    pub recovery_timer: CountdownTimer,
    pub can_cancel: bool,
    pub combo_count: u32,
}

impl AttackState {
    pub open spec fn wf(self) -> bool {
        &&& self.startup_timer.wf()
        &&& self.active_timer.wf()
        &&& self.recovery_timer.wf()
        &&& self.combo_count <= 3
    }

    /// Exactly one of the three clocks is current at a time: the phases are
    /// sequential, never concurrent.
    pub open spec fn phase(self) -> AttackPhase {
        if !self.is_attacking {
            AttackPhase::Idle
        } else if !self.startup_timer.spec_finished() {
            AttackPhase::Startup
        } else if !self.active_timer.spec_finished() {
            AttackPhase::Active
        } else if !self.recovery_timer.spec_finished() {
            AttackPhase::Recovery
        } else {
            AttackPhase::Complete
        }
    }

    /// The phase in which this attack's hit volume exists.
    pub open spec fn in_active_phase(self) -> bool {
        self.phase() is Active
    }

    /// The combo counter after an accepted attack of type `t`: light attacks
    /// climb to 3 and wrap back to 1; every other type resets the combo.
    pub open spec fn spec_next_combo(self, t: AttackType) -> u32 {
        match t {
            AttackType::LightAttack => if self.combo_count < 3 {
                (self.combo_count + 1) as u32
            } else {
                1
            },
            _ => 0,
        }
    }

    /// The state after an accepted `start_attack`: all three clocks are reset
    /// to the type's base durations scaled inversely by attack speed, the
    /// cancel window is closed (except for a dash attack, which is
    /// immediately cancellable), and the combo counter advances.
    pub open spec fn spec_started(self, t: AttackType, stats: CombatStats) -> AttackState {
        AttackState {
            is_attacking: true,
            attack_type: t,
            startup_timer: CountdownTimer {
                elapsed_ms: 0,
                duration_ms: spec_scaled_ms(spec_startup_base_ms(t), stats.attack_speed) as u64,
            },
            active_timer: CountdownTimer {
                elapsed_ms: 0,
                duration_ms: spec_scaled_ms(spec_active_base_ms(t), stats.attack_speed) as u64,
            },
            recovery_timer: CountdownTimer {
                elapsed_ms: 0,
                duration_ms: spec_scaled_ms(spec_recovery_base_ms(t), stats.attack_speed) as u64,
            },
            can_cancel: t is DashAttack,
            combo_count: self.spec_next_combo(t),
        }
    }

    /// A `start_attack` request is rejected while an attack whose cancel
    /// window has not opened is still running.
    pub open spec fn spec_can_start(self) -> bool {
        !(self.is_attacking && !self.can_cancel)
    }

    /// A `start_attack` request is rejected while a dash is under way (unless
    /// the current attack is itself a dash attack), and while an attack whose
    /// cancel window has not opened is still running.
    pub open spec fn spec_accepts(self, is_dashing: bool) -> bool {
        &&& !(is_dashing && !(self.attack_type is DashAttack))
        &&& self.spec_can_start()
    }

    /// The state machine's single-tick transition. Exactly one clock
    /// advances: startup first (opening the cancel window past 80% of its
    /// fraction), then active, then recovery (always cancellable); once all
    /// three have finished the attack ends and the cancel window closes.
    pub open spec fn spec_advanced(self, delta_ms: u64) -> AttackState {
        if !self.is_attacking {
            self
        } else if !self.startup_timer.spec_finished() {
            let t = self.startup_timer.spec_ticked(delta_ms);
            AttackState {
                startup_timer: t,
                can_cancel: self.can_cancel
                    || t.elapsed_ms * PERMILLE > t.duration_ms * CANCEL_WINDOW_PERMILLE,
                ..self
            }
        } else if !self.active_timer.spec_finished() {
            AttackState { active_timer: self.active_timer.spec_ticked(delta_ms), ..self }
        } else if !self.recovery_timer.spec_finished() {
            AttackState {
                recovery_timer: self.recovery_timer.spec_ticked(delta_ms),
                can_cancel: true,
                ..self
            }
        } else {
            AttackState { is_attacking: false, can_cancel: false, ..self }
        }
    }

    /// Whether the attack currently stands in its active (damage-window)
    /// phase.
    pub fn is_in_active_phase(&self) -> (r: bool)
        ensures
            r == self.in_active_phase(),
    {
        self.is_attacking && self.startup_timer.finished() && !self.active_timer.finished()
    }

    /// An idle state with light-attack base durations loaded, as a combatant
    /// is created.
    pub fn new_idle() -> (s: Self)
        ensures
            s.wf(),
            s.phase() is Idle,
            !s.is_attacking,
            !s.can_cancel,
            s.combo_count == 0,
            s.attack_type is LightAttack,
    {
        AttackState {
            is_attacking: false,
            attack_type: AttackType::LightAttack,
            startup_timer: CountdownTimer::new(133),
            active_timer: CountdownTimer::new(67),
            recovery_timer: CountdownTimer::new(100),
            can_cancel: false,
            combo_count: 0,
        }
    }

    /// Enter an attack of type `attack_type`. The request is rejected as a
    /// no-op while a running attack's cancel window is still closed; the
    /// dash half of the admission rule needs the dash state and is enforced
    /// by `try_start_attack` and `handle_attack_input`.
    pub fn start_attack(&mut self, attack_type: AttackType, stats: &CombatStats)
        requires
            old(self).wf(),
        ensures
            final(self).wf(),
            !old(self).spec_can_start() ==> *final(self) == *old(self),
            old(self).spec_can_start() ==> *final(self) == old(self).spec_started(
                attack_type, *stats) && final(self).phase() !is Idle,
    {
        if self.is_attacking && !self.can_cancel {
            return;
        }
        proof {
            lemma_scaled_ms_bound(spec_startup_base_ms(attack_type), stats.attack_speed);
            lemma_scaled_ms_bound(spec_active_base_ms(attack_type), stats.attack_speed);
            lemma_scaled_ms_bound(spec_recovery_base_ms(attack_type), stats.attack_speed);
        }
        self.is_attacking = true;
        self.attack_type = attack_type;
        let (startup_base, active_base, recovery_base) = match attack_type {
            AttackType::LightAttack => (133, 67, 100),
            AttackType::HeavyAttack => (333, 133, 333),
            AttackType::DashAttack => (50, 100, 50),
            AttackType::Special => (167, 83, 250),
        };
        self.startup_timer = CountdownTimer::new(scaled_ms(startup_base, stats.attack_speed));
        self.active_timer = CountdownTimer::new(scaled_ms(active_base, stats.attack_speed));
        self.recovery_timer = CountdownTimer::new(scaled_ms(recovery_base, stats.attack_speed));
        self.can_cancel = match attack_type {
            AttackType::DashAttack => true,
            _ => false,
        };
        self.combo_count = match attack_type {
            AttackType::LightAttack => if self.combo_count < 3 {
                self.combo_count + 1
            } else {
                1
            },
            _ => 0,
        };
    }

    /// Gate and enter a new attack: rejected (a no-op returning `false`)
    /// while a dash is under way and the current attack is not a dash attack,
    /// or while an attack that cannot yet be cancelled is running.
    pub fn try_start_attack(
        &mut self,
        attack_type: AttackType,
        stats: &CombatStats,
        is_dashing: bool,
    ) -> (accepted: bool)
        requires
            old(self).wf(),
        ensures
            final(self).wf(),
            accepted == old(self).spec_accepts(is_dashing),
            accepted ==> *final(self) == old(self).spec_started(attack_type, *stats),
            !accepted ==> *final(self) == *old(self),
    {
        if is_dashing && !matches!(self.attack_type, AttackType::DashAttack) {
            return false;
        }
        if self.is_attacking && !self.can_cancel {
            return false;
        }
        self.start_attack(attack_type, stats);
        true
    }


    /// Advance the attack by one tick of `delta_ms` milliseconds.
    pub fn advance(&mut self, delta_ms: u64)
        requires
            old(self).wf(),
            delta_ms <= DURATION_LIMIT_MS,
        ensures
            final(self).wf(),
            *final(self) == old(self).spec_advanced(delta_ms),
    {
        if !self.is_attacking {
            return;
        }
        if !self.startup_timer.finished() {
            self.startup_timer.tick(delta_ms);
            if self.startup_timer.fraction_exceeds_permille(CANCEL_WINDOW_PERMILLE) {
                self.can_cancel = true;
            }
        } else if !self.active_timer.finished() {
            self.active_timer.tick(delta_ms);
        } else if !self.recovery_timer.finished() {
            self.recovery_timer.tick(delta_ms);
            self.can_cancel = true;
        } else {
            self.is_attacking = false;
            self.can_cancel = false;
        }
    }
}

impl Default for AttackState {
    /// The idle state a combatant is created with.
    fn default() -> (s: Self)
        ensures
            s.wf(),
            s.phase() is Idle,
            !s.is_attacking,
            !s.can_cancel,
            s.combo_count == 0,
    {
        AttackState::new_idle()
    }
}

/// Order of the phases along an attack's lifetime, with `Idle` last: an
/// attack that has ended never resumes.
pub open spec fn phase_index(p: AttackPhase) -> int {
    match p {
        AttackPhase::Startup => 0,
        AttackPhase::Active => 1,
        AttackPhase::Recovery => 2,
        AttackPhase::Complete => 3,
        AttackPhase::Idle => 4,
    }
}

/// Phase ordering: a single advance never moves an attack backwards through
/// startup, active, recovery and completion, the combatant stays attacking
/// for the whole span, and `is_attacking` turns false exactly at the advance
/// past the completed state.
pub proof fn lemma_phase_ordering(s: AttackState, delta_ms: u64)
    requires
        s.wf(),
    ensures
        phase_index(s.spec_advanced(delta_ms).phase()) >= phase_index(s.phase()),
        s.spec_advanced(delta_ms).is_attacking == (s.is_attacking && !(s.phase() is Complete)),
{
}

} // verus!
