//! The enemy AI state machine: a per-enemy behavior cycle driven by distance
//! to the target and low-health triggers, together with the per-type tuning
//! tables, the locomotion policy and the attack-intent emission consumed by
//! the hitbox resolver and damage pipeline.

use vstd::prelude::*;
use crate::geom::{
    Vec2, spec_within_range, within_range, spec_beyond_scaled_range, beyond_scaled_range,
    spec_within_scaled_range, within_scaled_range,
};
use crate::direction::{dir_scaled, spec_dir_scaled_x, spec_dir_scaled_y, spec_div_trunc};
use crate::timer::CountdownTimer;
use crate::stats::{CombatStats, Health};
use crate::hitbox::Hitbox;
use crate::units::{COORD_LIMIT, DURATION_LIMIT_MS, PERMILLE, VEL_LIMIT};

verus! {

#[derive(Clone, Copy, Debug, PartialEq, Eq, Structural)]
pub enum EnemyType {
    CommonMelee,
    CommonRanged,
    EliteMelee,
    EliteRanged,
    MiniBoss,
    Boss,
}

#[derive(Clone, Copy, Debug, PartialEq, Eq, Structural)]
pub enum EnemyBehavior {
    Aggressive,
    Defensive,
    Support,
    Patrol,
}

#[derive(Clone, Copy, Debug, PartialEq, Eq, Structural)]
pub enum AIState {
    Idle,
    Patrolling,
    Chasing,
    Attacking,
    Telegraphing,
    Recovering,
    Fleeing,
}

/// Static classification of an enemy; immutable after spawn except by
/// elite-modifier application.
#[derive(Clone, Copy, Debug, PartialEq, Eq, Structural)]
pub struct Enemy {
    pub enemy_type: EnemyType,
    pub behavior: EnemyBehavior,
    pub aggro_range: u64,
    pub attack_range: u64,
}

impl Enemy {
    pub open spec fn wf(self) -> bool {
        &&& self.aggro_range <= COORD_LIMIT
        &&& self.attack_range <= COORD_LIMIT
    }
}

/// Per-enemy behavior state: the current cycle state, the acquired target,
/// the last position the target was seen at while chasing, and the single
/// state timer reused across states.
#[derive(Clone, Copy, Debug, PartialEq, Eq, Structural)]
pub struct EnemyAI {
    pub state: AIState,
    pub target: Option<u64>,
    pub last_known_position: Option<Vec2>,
    pub state_timer: CountdownTimer,
}

/// Telegraph duration by enemy type, in milliseconds.
pub open spec fn spec_telegraph_duration_ms(t: EnemyType) -> u64 {
    match t {
        EnemyType::CommonMelee => 500,
        EnemyType::CommonRanged => 700,
        EnemyType::EliteMelee => 800,
        EnemyType::EliteRanged => 1000,
        EnemyType::MiniBoss => 1500,
        EnemyType::Boss => 2000,
    }
}

pub fn get_telegraph_duration(t: EnemyType) -> (r: u64)
    ensures
        r == spec_telegraph_duration_ms(t),
{
    match t {
        EnemyType::CommonMelee => 500,
        EnemyType::CommonRanged => 700,
        EnemyType::EliteMelee => 800,
        EnemyType::EliteRanged => 1000,
        EnemyType::MiniBoss => 1500,
        EnemyType::Boss => 2000,
    }
}

/// Post-attack recovery duration by enemy type, in milliseconds.
pub open spec fn spec_recovery_duration_ms(t: EnemyType) -> u64 {
    match t {
        EnemyType::CommonMelee => 300,
        EnemyType::CommonRanged => 500,
        EnemyType::EliteMelee => 400,
        EnemyType::EliteRanged => 600,
        EnemyType::MiniBoss => 500,
        EnemyType::Boss => 1000,
    }
}

pub fn get_recovery_duration(t: EnemyType) -> (r: u64)
    ensures
        r == spec_recovery_duration_ms(t),
{
    match t {
        EnemyType::CommonMelee => 300,
        EnemyType::CommonRanged => 500,
        EnemyType::EliteMelee => 400,
        EnemyType::EliteRanged => 600,
        EnemyType::MiniBoss => 500,
        EnemyType::Boss => 1000,
    }
}

/// Base movement speed by enemy type, in units per second.
pub open spec fn spec_movement_speed(t: EnemyType) -> u64 {
    match t {
        EnemyType::CommonMelee => 150,
        EnemyType::CommonRanged => 100,
        EnemyType::EliteMelee => 200,
        EnemyType::EliteRanged => 120,
        EnemyType::MiniBoss => 180,
        EnemyType::Boss => 100,
    }
}

pub fn movement_speed(t: EnemyType) -> (r: u64)
    ensures
        r == spec_movement_speed(t),
        r <= 240,
{
    match t {
        EnemyType::CommonMelee => 150,
        EnemyType::CommonRanged => 100,
        EnemyType::EliteMelee => 200,
        EnemyType::EliteRanged => 120,
        EnemyType::MiniBoss => 180,
        EnemyType::Boss => 100,
    }
}

/// Health fraction (permille) below which a non-support enemy acts faster
/// while chasing.
pub const LOW_HEALTH_PERMILLE: u64 = 300;

/// Factor (permille) by which a critically wounded chaser's state timer
/// shrinks each step.
pub const LOW_HEALTH_TIMER_PERMILLE: u64 = 700;

/// Fixed duration of the attacking state, in milliseconds.
pub const ATTACK_STATE_MS: u64 = 300;

/// Duration of the fleeing state, in milliseconds.
pub const FLEE_STATE_MS: u64 = 1000;

/// Duration of the chasing timer acquired on leaving idle, in milliseconds.
pub const CHASE_STATE_MS: u64 = 500;

impl EnemyAI {
    pub open spec fn wf(self) -> bool {
        self.state_timer.wf()
    }

    /// A freshly spawned enemy: idle, no target, timer expired.
    pub fn new_idle() -> (ai: Self)
        ensures
            ai.wf(),
            ai.state is Idle,
            ai.target is None,
            ai.last_known_position is None,
    {
        EnemyAI {
            state: AIState::Idle,
            target: None,
            last_known_position: None,
            state_timer: CountdownTimer::new(0),
        }
    }

    /// The behavior-cycle transition taken after the state timer has been
    /// ticked, following the transition table: Idle and Patrolling acquire
    /// the target inside aggro range; Chasing records the target's position
    /// and either telegraphs inside attack range or gives up beyond 1.5x
    /// aggro range; Telegraphing, Attacking and Recovering advance when the
    /// timer finishes; Recovering branches by behavior (a Defensive enemy too
    /// close to the target flees); Fleeing rejoins the chase when the timer
    /// finishes or the target is beyond 1.5x attack range.
    pub open spec fn spec_transitioned(
        self,
        enemy: Enemy,
        enemy_pos: Vec2,
        player_id: u64,
        player_pos: Vec2,
    ) -> EnemyAI {
        match self.state {
            AIState::Idle => if spec_within_range(enemy_pos, player_pos, enemy.aggro_range) {
                EnemyAI {
                    state: AIState::Chasing,
                    target: Some(player_id),
                    state_timer: CountdownTimer { elapsed_ms: 0, duration_ms: CHASE_STATE_MS },
                    ..self
                }
            } else {
                self
            },
            AIState::Patrolling => if spec_within_range(enemy_pos, player_pos,
                enemy.aggro_range) {
                EnemyAI { state: AIState::Chasing, target: Some(player_id), ..self }
            } else {
                self
            },
            AIState::Chasing => {
                let seen = EnemyAI { last_known_position: Some(player_pos), ..self };
                if spec_within_range(enemy_pos, player_pos, enemy.attack_range) {
                    EnemyAI {
                        state: AIState::Telegraphing,
                        state_timer: CountdownTimer {
                            elapsed_ms: 0,
                            duration_ms: spec_telegraph_duration_ms(enemy.enemy_type),
                        },
                        ..seen
                    }
                } else if spec_beyond_scaled_range(enemy_pos, player_pos, enemy.aggro_range,
                    3, 2) {
                    EnemyAI { state: AIState::Idle, target: None, ..seen }
                } else {
                    seen
                }
            },
            AIState::Telegraphing => if self.state_timer.spec_finished() {
                EnemyAI {
                    state: AIState::Attacking,
                    state_timer: CountdownTimer { elapsed_ms: 0, duration_ms: ATTACK_STATE_MS },
                    ..self
                }
            } else {
                self
            },
            AIState::Attacking => if self.state_timer.spec_finished() {
                EnemyAI {
                    state: AIState::Recovering,
                    state_timer: CountdownTimer {
                        elapsed_ms: 0,
                        duration_ms: spec_recovery_duration_ms(enemy.enemy_type),
                    },
                    ..self
                }
            } else {
                self
            },
            AIState::Recovering => if self.state_timer.spec_finished() {
                match enemy.behavior {
                    EnemyBehavior::Defensive => if spec_within_scaled_range(enemy_pos,
                        player_pos, enemy.attack_range, 7, 10) {
                        EnemyAI {
                            state: AIState::Fleeing,
                            state_timer: CountdownTimer {
                                elapsed_ms: 0,
                                duration_ms: FLEE_STATE_MS,
                            },
                            ..self
                        }
                    } else {
                        EnemyAI { state: AIState::Chasing, ..self }
                    },
                    _ => EnemyAI { state: AIState::Chasing, ..self },
                }
            } else {
                self
            },
            AIState::Fleeing => if self.state_timer.spec_finished()
                || spec_beyond_scaled_range(enemy_pos, player_pos, enemy.attack_range, 3, 2) {
                EnemyAI { state: AIState::Chasing, ..self }
            } else {
                self
            },
        }
    }

    /// The low-health modifier: while chasing with health strictly below 30%
    /// and a behavior other than Support, the state timer restarts with its
    /// duration shrunk to 70%.
    pub open spec fn spec_low_health_adjusted(self, enemy: Enemy, health: Health) -> EnemyAI {
        if health.current * PERMILLE < health.max * LOW_HEALTH_PERMILLE
            && !(enemy.behavior is Support) && self.state is Chasing {
            EnemyAI {
                state_timer: CountdownTimer {
                    elapsed_ms: 0,
                    duration_ms: (self.state_timer.duration_ms * LOW_HEALTH_TIMER_PERMILLE
                        / PERMILLE as int) as u64,
                },
                ..self
            }
        } else {
            self
        }
    }

    /// One full AI step: tick the state timer, take the cycle transition,
    /// then apply the low-health modifier.
    pub open spec fn spec_stepped(
        self,
        enemy: Enemy,
        health: Health,
        enemy_pos: Vec2,
        player_id: u64,
        player_pos: Vec2,
        delta_ms: u64,
    ) -> EnemyAI {
        let ticked = EnemyAI { state_timer: self.state_timer.spec_ticked(delta_ms), ..self };
        ticked.spec_transitioned(enemy, enemy_pos, player_id, player_pos)
            .spec_low_health_adjusted(enemy, health)
    }
}

/// Advance one enemy's behavior cycle by one tick against the (single)
/// tracked target. With no target in the world the caller skips the step
/// entirely: a missing target is a no-op for the tick, not an error.
pub fn update_enemy_ai(
    ai: &mut EnemyAI,
    enemy: &Enemy,
    health: &Health,
    enemy_pos: Vec2,
    player_id: u64,
    player_pos: Vec2,
    delta_ms: u64,
)
    requires
        old(ai).wf(),
        enemy.wf(),
        health.wf(),
        enemy_pos.bounded(),
        player_pos.bounded(),
        delta_ms <= DURATION_LIMIT_MS,
    ensures
        final(ai).wf(),
        *final(ai) == old(ai).spec_stepped(*enemy, *health, enemy_pos, player_id, player_pos,
            delta_ms),
{
    ai.state_timer.tick(delta_ms);
    match ai.state {
        AIState::Idle => {
            if within_range(enemy_pos, player_pos, enemy.aggro_range) {
                ai.state = AIState::Chasing;
                ai.target = Some(player_id);
                ai.state_timer = CountdownTimer::new(CHASE_STATE_MS);
            }
        },
        AIState::Patrolling => {
            if within_range(enemy_pos, player_pos, enemy.aggro_range) {
                ai.state = AIState::Chasing;
                ai.target = Some(player_id);
            }
        },
        AIState::Chasing => {
            ai.last_known_position = Some(player_pos);
            if within_range(enemy_pos, player_pos, enemy.attack_range) {
                ai.state = AIState::Telegraphing;
                ai.state_timer = CountdownTimer::new(
                    get_telegraph_duration(enemy.enemy_type));
            } else if beyond_scaled_range(enemy_pos, player_pos, enemy.aggro_range, 3, 2) {
                ai.state = AIState::Idle;
                ai.target = None;
            }
        },
        AIState::Telegraphing => {
            if ai.state_timer.finished() {
                ai.state = AIState::Attacking;
                ai.state_timer = CountdownTimer::new(ATTACK_STATE_MS);
            }
        },
        AIState::Attacking => {
            if ai.state_timer.finished() {
                ai.state = AIState::Recovering;
                ai.state_timer = CountdownTimer::new(
                    get_recovery_duration(enemy.enemy_type));
            }
        },
        AIState::Recovering => {
            if ai.state_timer.finished() {
                match enemy.behavior {
                    EnemyBehavior::Defensive => {
                        if within_scaled_range(enemy_pos, player_pos, enemy.attack_range, 7,
                            10) {
                            ai.state = AIState::Fleeing;
                            ai.state_timer = CountdownTimer::new(FLEE_STATE_MS);
                        } else {
                            ai.state = AIState::Chasing;
                        }
                    },
                    _ => {
                        ai.state = AIState::Chasing;
                    },
                }
            }
        },
        AIState::Fleeing => {
            if ai.state_timer.finished()
                || beyond_scaled_range(enemy_pos, player_pos, enemy.attack_range, 3, 2) {
                ai.state = AIState::Chasing;
            }
        },
    }
    if health.below_permille(LOW_HEALTH_PERMILLE) && !matches!(enemy.behavior,
        EnemyBehavior::Support) && matches!(ai.state, AIState::Chasing) {
        ai.state_timer.shrink_permille(LOW_HEALTH_TIMER_PERMILLE);
    }
}

/// What the locomotion policy asks of the mover this tick: a concrete
/// velocity, a retained fifth of the current velocity while winding up,
/// striking or recovering, or the patrol wander that the presentation layer
/// shapes.
#[derive(Clone, Copy, Debug, PartialEq, Eq, Structural)]
pub enum MoveCommand {
    Drive(Vec2),
    Wander,
}

/// A fifth of a velocity component, rounded toward zero: the residual drift
/// kept while telegraphing, attacking or recovering.
pub open spec fn spec_residual(v: int) -> int {
    spec_div_trunc(v, 5)
}

fn residual_component(v: i64) -> (r: i64)
    requires
        -VEL_LIMIT <= v <= VEL_LIMIT,
    ensures
        r == spec_residual(v as int),
        -VEL_LIMIT <= r <= VEL_LIMIT,
{
    if v >= 0 {
        v / 5
    } else {
        -((-v) / 5)
    }
}

/// The velocity the locomotion policy leaves a mover with, by AI state; a
/// patroller keeps its current velocity here (the wander is shaped by the
/// presentation layer).
pub open spec fn spec_moved_velocity(
    state: AIState,
    enemy: Enemy,
    enemy_pos: Vec2,
    player_pos: Vec2,
    current: Vec2,
) -> Vec2 {
    match state {
        AIState::Chasing => if spec_beyond_scaled_range(enemy_pos, player_pos,
            enemy.attack_range, 9, 10) {
            Vec2 {
                x: spec_dir_scaled_x(enemy_pos, player_pos,
                    spec_movement_speed(enemy.enemy_type)) as i64,
                y: spec_dir_scaled_y(enemy_pos, player_pos,
                    spec_movement_speed(enemy.enemy_type)) as i64,
            }
        } else {
            Vec2 { x: 0, y: 0 }
        },
        AIState::Fleeing => if spec_within_scaled_range(enemy_pos, player_pos,
            enemy.attack_range, 3, 2) {
            Vec2 {
                x: spec_dir_scaled_x(player_pos, enemy_pos,
                    (spec_movement_speed(enemy.enemy_type) * 12 / 10) as u64) as i64,
                y: spec_dir_scaled_y(player_pos, enemy_pos,
                    (spec_movement_speed(enemy.enemy_type) * 12 / 10) as u64) as i64,
            }
        } else {
            Vec2 { x: 0, y: 0 }
        },
        AIState::Telegraphing | AIState::Attacking | AIState::Recovering => Vec2 {
            x: spec_residual(current.x as int) as i64,
            y: spec_residual(current.y as int) as i64,
        },
        AIState::Patrolling => current,
        AIState::Idle => Vec2 { x: 0, y: 0 },
    }
}

/// The locomotion policy by AI state: a chaser outside 90% of attack range
/// drives at the type's base speed toward the target and halts inside it; a
/// fleeing enemy inside 1.5x attack range drives away at 1.2x speed; while
/// telegraphing, attacking or recovering a fifth of the current velocity is
/// retained; a patroller wanders; anything else halts.
pub fn enemy_movement(
    state: AIState,
    enemy: &Enemy,
    enemy_pos: Vec2,
    player_pos: Vec2,
    current_velocity: Vec2,
) -> (cmd: MoveCommand)
    requires
        enemy.wf(),
        enemy_pos.bounded(),
        player_pos.bounded(),
        -VEL_LIMIT <= current_velocity.x <= VEL_LIMIT,
        -VEL_LIMIT <= current_velocity.y <= VEL_LIMIT,
    ensures
        cmd matches MoveCommand::Wander <==> state is Patrolling,
        state is Chasing ==> cmd == (if spec_beyond_scaled_range(enemy_pos, player_pos,
            enemy.attack_range, 9, 10) {
            MoveCommand::Drive(Vec2 {
                x: spec_dir_scaled_x(enemy_pos, player_pos,
                    spec_movement_speed(enemy.enemy_type)) as i64,
                y: spec_dir_scaled_y(enemy_pos, player_pos,
                    spec_movement_speed(enemy.enemy_type)) as i64,
            })
        } else {
            MoveCommand::Drive(Vec2 { x: 0, y: 0 })
        }),
        state is Fleeing ==> cmd == (if spec_within_scaled_range(enemy_pos, player_pos,
            enemy.attack_range, 3, 2) {
            MoveCommand::Drive(Vec2 {
                x: spec_dir_scaled_x(player_pos, enemy_pos,
                    (spec_movement_speed(enemy.enemy_type) * 12 / 10) as u64) as i64,
                y: spec_dir_scaled_y(player_pos, enemy_pos,
                    (spec_movement_speed(enemy.enemy_type) * 12 / 10) as u64) as i64,
            })
        } else {
            MoveCommand::Drive(Vec2 { x: 0, y: 0 })
        }),
        (state is Telegraphing || state is Attacking || state is Recovering) ==> cmd
            == MoveCommand::Drive(Vec2 {
            x: spec_residual(current_velocity.x as int) as i64,
            y: spec_residual(current_velocity.y as int) as i64,
        }),
        state is Idle ==> cmd == MoveCommand::Drive(Vec2 { x: 0, y: 0 }),
        cmd matches MoveCommand::Drive(v) ==> -VEL_LIMIT <= v.x <= VEL_LIMIT
            && -VEL_LIMIT <= v.y <= VEL_LIMIT,
        cmd matches MoveCommand::Drive(v) ==> v == spec_moved_velocity(state, *enemy,
            enemy_pos, player_pos, current_velocity),
{
    let speed = movement_speed(enemy.enemy_type);
    match state {
        AIState::Chasing => {
            if beyond_scaled_range(enemy_pos, player_pos, enemy.attack_range, 9, 10) {
                MoveCommand::Drive(dir_scaled(enemy_pos, player_pos, speed))
            } else {
                MoveCommand::Drive(Vec2 { x: 0, y: 0 })
            }
        },
        AIState::Fleeing => {
            if within_scaled_range(enemy_pos, player_pos, enemy.attack_range, 3, 2) {
                MoveCommand::Drive(dir_scaled(player_pos, enemy_pos, speed * 12 / 10))
            } else {
                MoveCommand::Drive(Vec2 { x: 0, y: 0 })
            }
        },
        AIState::Patrolling => MoveCommand::Wander,
        AIState::Telegraphing | AIState::Attacking | AIState::Recovering => {
            MoveCommand::Drive(Vec2 {
                x: residual_component(current_velocity.x),
                y: residual_component(current_velocity.y),
            })
        },
        AIState::Idle => MoveCommand::Drive(Vec2 { x: 0, y: 0 }),
    }
}

/// A projectile in flight, spawned by a ranged enemy's attack.
#[derive(Clone, Copy, Debug, PartialEq, Eq, Structural)]
pub struct Projectile {
    pub damage: u64,
    pub speed: u64,
    pub lifetime: CountdownTimer,
    pub piercing: u32,
    pub owner: u64,
}

/// The hit volume or projectile an attacking enemy requests this tick.
#[derive(Clone, Debug)]
pub enum AttackIntent {
    MeleeHitbox { hitbox: Hitbox, offset: Vec2 },
    RangedProjectile { projectile: Projectile, velocity: Vec2 },
}

/// Flight speed of an enemy projectile, in units per second.
pub const PROJECTILE_SPEED: u64 = 300;

/// Lifetime of an enemy projectile, in milliseconds.
pub const PROJECTILE_LIFETIME_MS: u64 = 3000;

/// The attack-intent emission: only in the Attacking state does the AI
/// request a hit volume. Melee types request a melee hitbox toward the
/// target at a fixed offset; ranged types request a single-target projectile
/// launched toward the target; bosses drive their attacks elsewhere and
/// request nothing here.
pub fn enemy_attack_system(
    state: AIState,
    enemy: &Enemy,
    stats: &CombatStats,
    owner: u64,
    enemy_pos: Vec2,
    player_pos: Vec2,
) -> (intent: Option<AttackIntent>)
    requires
        enemy.wf(),
        stats.wf(),
        enemy_pos.bounded(),
        player_pos.bounded(),
    ensures
        intent is Some <==> state is Attacking && !(enemy.enemy_type is MiniBoss)
            && !(enemy.enemy_type is Boss),
        intent matches Some(AttackIntent::MeleeHitbox { hitbox, offset }) ==> {
            &&& (enemy.enemy_type is CommonMelee || enemy.enemy_type is EliteMelee)
            &&& hitbox.wf()
            &&& hitbox.size == (Vec2 { x: 40, y: 40 })
            &&& hitbox.damage == stats.damage
            &&& hitbox.knockback == 30
            &&& hitbox.active
            &&& hitbox.hit_entities@ == Seq::<u64>::empty()
            &&& hitbox.resolved_hits == 0
            &&& offset.x == spec_dir_scaled_x(enemy_pos, player_pos, 30)
            &&& offset.y == spec_dir_scaled_y(enemy_pos, player_pos, 30)
            &&& hitbox.offset == offset
        },
        intent matches Some(AttackIntent::RangedProjectile { projectile, velocity }) ==> {
            &&& (enemy.enemy_type is CommonRanged || enemy.enemy_type is EliteRanged)
            &&& projectile.damage == stats.damage
            &&& projectile.speed == PROJECTILE_SPEED
            &&& projectile.lifetime == CountdownTimer {
                elapsed_ms: 0,
                duration_ms: PROJECTILE_LIFETIME_MS,
            }
            &&& projectile.piercing == 0
            &&& projectile.owner == owner
            &&& velocity.x == spec_dir_scaled_x(enemy_pos, player_pos, PROJECTILE_SPEED)
            &&& velocity.y == spec_dir_scaled_y(enemy_pos, player_pos, PROJECTILE_SPEED)
        },
{
    if !matches!(state, AIState::Attacking) {
        return None;
    }
    match enemy.enemy_type {
        EnemyType::CommonMelee | EnemyType::EliteMelee => {
            let offset = dir_scaled(enemy_pos, player_pos, 30);
            Some(AttackIntent::MeleeHitbox {
                hitbox: Hitbox {
                    size: Vec2 { x: 40, y: 40 },
                    offset,
                    damage: stats.damage,
                    knockback: 30,
                    active: true,
                    hit_entities: Vec::new(),
                    resolved_hits: 0,
                },
                offset,
            })
        },
        EnemyType::CommonRanged | EnemyType::EliteRanged => {
            let velocity = dir_scaled(enemy_pos, player_pos, PROJECTILE_SPEED);
            Some(AttackIntent::RangedProjectile {
                projectile: Projectile {
                    damage: stats.damage,
                    speed: PROJECTILE_SPEED,
                    lifetime: CountdownTimer::new(PROJECTILE_LIFETIME_MS),
                    piercing: 0,
                    owner,
                },
                velocity,
            })
        },
        EnemyType::MiniBoss | EnemyType::Boss => None,
    }
}

} // verus!
