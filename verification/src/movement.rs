//! Movement state for the player combatant: dash with i-frames and cooldown,
//! velocity integration, and the arena clamp. Input polling itself lives with
//! the embedding; the decisions and the state live here.

use vstd::prelude::*;
use crate::geom::Vec2;
use crate::timer::CountdownTimer;
use crate::hitbox::Hurtbox;
use crate::direction::{dir_scaled, spec_dir_scaled_x, spec_dir_scaled_y, spec_div_trunc};
use crate::units::{COORD_LIMIT, DURATION_LIMIT_MS, TICK_LIMIT_MS, VEL_LIMIT};

verus! {

/// Per-combatant locomotion statistics; speeds in units per second, dash
/// durations in milliseconds.
#[derive(Clone, Copy, Debug, PartialEq, Eq, Structural)]
pub struct MovementStats {
    pub base_speed: u64,
    pub current_speed: u64,
    pub dash_speed: u64,
    pub dash_duration_ms: u64,
    pub dash_cooldown_ms: u64,
}

impl MovementStats {
    pub open spec fn wf(self) -> bool {
        &&& self.base_speed <= COORD_LIMIT
        &&& self.current_speed <= COORD_LIMIT
        &&& self.dash_speed <= COORD_LIMIT
        &&& self.dash_duration_ms <= DURATION_LIMIT_MS
        &&& self.dash_cooldown_ms <= DURATION_LIMIT_MS
    }
}

impl Default for MovementStats {
    /// Baseline player locomotion: 300 units/s on foot, an 800 units/s dash
    /// for a fifth of a second with a 0.4 s cooldown.
    fn default() -> (s: Self)
        ensures
            s.wf(),
            s.base_speed == 300,
            s.current_speed == 300,
            s.dash_speed == 800,
            s.dash_duration_ms == 200,
            s.dash_cooldown_ms == 400,
    {
        MovementStats {
            base_speed: 300,
            current_speed: 300,
            dash_speed: 800,
            dash_duration_ms: 200,
            dash_cooldown_ms: 400,
        }
    }
}

/// Dash progress: while dashing the dash timer runs and i-frames may hold;
/// afterwards the cooldown timer gates the next dash. `dash_direction` holds
/// the dash velocity (the chosen direction already scaled to dash speed).
#[derive(Clone, Copy, Debug, PartialEq, Eq, Structural)]
pub struct DashState {
    pub is_dashing: bool,
    pub dash_timer: CountdownTimer,
    pub cooldown_timer: CountdownTimer,
    pub dash_direction: Vec2,
    pub has_iframes: bool,
}

impl DashState {
    pub open spec fn wf(self) -> bool {
        &&& self.dash_timer.wf()
        &&& self.cooldown_timer.wf()
        &&& -COORD_LIMIT <= self.dash_direction.x <= COORD_LIMIT
        &&& -COORD_LIMIT <= self.dash_direction.y <= COORD_LIMIT
    }
}

impl Default for DashState {
    /// Not dashing, with both clocks loaded with the default durations and
    /// i-frames granted.
    fn default() -> (s: Self)
        ensures
            s.wf(),
            !s.is_dashing,
            s.dash_timer == (CountdownTimer { elapsed_ms: 0, duration_ms: 200 }),
            s.cooldown_timer == (CountdownTimer { elapsed_ms: 0, duration_ms: 400 }),
            s.dash_direction.spec_is_zero(),
            s.has_iframes,
    {
        DashState {
            is_dashing: false,
            dash_timer: CountdownTimer::new(200),
            cooldown_timer: CountdownTimer::new(400),
            dash_direction: Vec2 { x: 0, y: 0 },
            has_iframes: true,
        }
    }
}

/// Start a dash if one was requested, none is running and the cooldown has
/// expired: the dash goes in the direction of current motion, or to the
/// right when standing still, at dash speed; i-frames raise the hurtbox's
/// invulnerability. Returns whether a dash started.
pub fn try_start_dash(
    dash: &mut DashState,
    velocity: &mut Vec2,
    stats: &MovementStats,
    hurtbox: &mut Hurtbox,
    requested: bool,
) -> (started: bool)
    requires
        old(dash).wf(),
        stats.wf(),
        old(hurtbox).wf(),
        old(velocity).bounded(),
    ensures
        final(dash).wf(),
        final(hurtbox).wf(),
        final(velocity).bounded(),
        started == (requested && old(dash).cooldown_timer.spec_finished()
            && !old(dash).is_dashing),
        !started ==> *final(dash) == *old(dash) && *final(velocity) == *old(velocity)
            && *final(hurtbox) == *old(hurtbox),
        started ==> {
            let dir = if old(velocity).spec_is_zero() {
                Vec2 { x: stats.dash_speed as i64, y: 0 }
            } else {
                Vec2 {
                    x: spec_dir_scaled_x(Vec2 { x: 0, y: 0 }, *old(velocity),
                        stats.dash_speed) as i64,
                    y: spec_dir_scaled_y(Vec2 { x: 0, y: 0 }, *old(velocity),
                        stats.dash_speed) as i64,
                }
            };
            &&& final(dash).is_dashing
            &&& final(dash).dash_timer == CountdownTimer {
                elapsed_ms: 0,
                duration_ms: old(dash).dash_timer.duration_ms,
            }
            &&& final(dash).cooldown_timer == old(dash).cooldown_timer
            &&& final(dash).dash_direction == dir
            &&& final(dash).has_iframes == old(dash).has_iframes
            &&& *final(velocity) == dir
            &&& final(hurtbox).invulnerable == (old(dash).has_iframes
                || old(hurtbox).invulnerable)
            &&& final(hurtbox).size == old(hurtbox).size
        },
{
    if !requested {
        return false;
    }
    if !dash.cooldown_timer.finished() {
        return false;
    }
    if dash.is_dashing {
        return false;
    }
    dash.is_dashing = true;
    dash.dash_timer.reset();
    let dir = if velocity.is_zero() {
        Vec2 { x: stats.dash_speed as i64, y: 0 }
    } else {
        dir_scaled(Vec2 { x: 0, y: 0 }, *velocity, stats.dash_speed)
    };
    dash.dash_direction = dir;
    *velocity = dir;
    if dash.has_iframes {
        hurtbox.invulnerable = true;
    }
    true
}

/// Advance the dash clocks: a running dash keeps its velocity until the dash
/// timer finishes, which ends the dash, restarts the cooldown, drops the
/// i-frames and halts the combatant; the cooldown ticks whenever it is not
/// yet expired.
pub fn update_dash_state(
    dash: &mut DashState,
    velocity: &mut Vec2,
    hurtbox: &mut Hurtbox,
    delta_ms: u64,
)
    requires
        old(dash).wf(),
        old(hurtbox).wf(),
        delta_ms <= DURATION_LIMIT_MS,
    ensures
        final(dash).wf(),
        final(hurtbox).wf(),
        final(hurtbox).size == old(hurtbox).size,
        ({
            let ticked = old(dash).dash_timer.spec_ticked(delta_ms);
            if old(dash).is_dashing {
                if ticked.spec_finished() {
                    let restarted = CountdownTimer {
                        elapsed_ms: 0,
                        duration_ms: old(dash).cooldown_timer.duration_ms,
                    };
                    &&& !final(dash).is_dashing
                    &&& final(dash).dash_timer == ticked
                    &&& final(dash).cooldown_timer == if restarted.spec_finished() {
                        restarted
                    } else {
                        restarted.spec_ticked(delta_ms)
                    }
                    &&& !final(hurtbox).invulnerable
                    &&& final(velocity).spec_is_zero()
                } else {
                    &&& final(dash).is_dashing
                    &&& final(dash).dash_timer == ticked
                    &&& *final(velocity) == old(dash).dash_direction
                    &&& final(hurtbox).invulnerable == old(hurtbox).invulnerable
                    &&& final(dash).cooldown_timer == if old(
                        dash).cooldown_timer.spec_finished() {
                        old(dash).cooldown_timer
                    } else {
                        old(dash).cooldown_timer.spec_ticked(delta_ms)
                    }
                }
            } else {
                &&& final(dash).is_dashing == old(dash).is_dashing
                &&& final(dash).dash_timer == old(dash).dash_timer
                &&& *final(velocity) == *old(velocity)
                &&& final(hurtbox).invulnerable == old(hurtbox).invulnerable
                &&& final(dash).cooldown_timer == if old(dash).cooldown_timer.spec_finished() {
                    old(dash).cooldown_timer
                } else {
                    old(dash).cooldown_timer.spec_ticked(delta_ms)
                }
            }
        }),
        final(dash).dash_direction == old(dash).dash_direction,
        final(dash).has_iframes == old(dash).has_iframes,
{
    if dash.is_dashing {
        dash.dash_timer.tick(delta_ms);
        if dash.dash_timer.finished() {
            dash.is_dashing = false;
            dash.cooldown_timer.reset();
            hurtbox.invulnerable = false;
            *velocity = Vec2 { x: 0, y: 0 };
        } else {
            *velocity = dash.dash_direction;
        }
    }
    if !dash.cooldown_timer.finished() {
        dash.cooldown_timer.tick(delta_ms);
    }
}

/// One position component advanced by `velocity * delta`, then clamped to
/// the world bound.
pub open spec fn spec_integrated(pos: int, vel: int, delta_ms: u64) -> int {
    let moved = pos + spec_div_trunc(vel * delta_ms, 1000);
    if moved < -COORD_LIMIT {
        -COORD_LIMIT as int
    } else if moved > COORD_LIMIT {
        COORD_LIMIT as int
    } else {
        moved
    }
}

fn integrate_component(pos: i64, vel: i64, delta_ms: u64) -> (r: i64)
    requires
        -COORD_LIMIT <= pos <= COORD_LIMIT,
        -VEL_LIMIT <= vel <= VEL_LIMIT,
        delta_ms <= TICK_LIMIT_MS,
    ensures
        r == spec_integrated(pos as int, vel as int, delta_ms),
        -COORD_LIMIT <= r <= COORD_LIMIT,
{
    let abs_vel: i64 = if vel >= 0 {
        vel
    } else {
        -vel
    };
    proof {
        assert(abs_vel * delta_ms <= VEL_LIMIT * TICK_LIMIT_MS) by (nonlinear_arith)
            requires 0 <= abs_vel <= VEL_LIMIT, 0 <= delta_ms <= TICK_LIMIT_MS;
        if vel < 0 {
            assert(abs_vel * delta_ms == -(vel * delta_ms)) by (nonlinear_arith)
                requires vel < 0, abs_vel == -(vel as int);
        }
    }
    let step: i64 = abs_vel * (delta_ms as i64) / 1000;
    let moved: i64 = if vel >= 0 {
        pos + step
    } else {
        pos - step
    };
    if moved < -COORD_LIMIT {
        -COORD_LIMIT
    } else if moved > COORD_LIMIT {
        COORD_LIMIT
    } else {
        moved
    }
}

/// Advance a position by its velocity over one tick, component-wise,
/// clamped to the world bound.
pub fn apply_velocity(pos: &mut Vec2, velocity: Vec2, delta_ms: u64)
    requires
        old(pos).bounded(),
        -VEL_LIMIT <= velocity.x <= VEL_LIMIT,
        -VEL_LIMIT <= velocity.y <= VEL_LIMIT,
        delta_ms <= TICK_LIMIT_MS,
    ensures
        final(pos).bounded(),
        final(pos).x == spec_integrated(old(pos).x as int, velocity.x as int, delta_ms),
        final(pos).y == spec_integrated(old(pos).y as int, velocity.y as int, delta_ms),
{
    pos.x = integrate_component(pos.x, velocity.x, delta_ms);
    pos.y = integrate_component(pos.y, velocity.y, delta_ms);
}

/// Half-width of the arena, in units.
pub const ARENA_HALF_WIDTH: i64 = 600;

/// Half-height of the arena, in units.
pub const ARENA_HALF_HEIGHT: i64 = 400;

/// Radius kept between a player and the arena walls, in units.
pub const PLAYER_RADIUS: i64 = 16;

/// Clamp a player position to the arena interior.
pub fn clamp_to_arena(pos: &mut Vec2)
    requires
        old(pos).bounded(),
    ensures
        final(pos).bounded(),
        final(pos).x == if old(pos).x < -ARENA_HALF_WIDTH + PLAYER_RADIUS {
            -ARENA_HALF_WIDTH + PLAYER_RADIUS
        } else if old(pos).x > ARENA_HALF_WIDTH - PLAYER_RADIUS {
            ARENA_HALF_WIDTH - PLAYER_RADIUS
        } else {
            old(pos).x as int
        },
        final(pos).y == if old(pos).y < -ARENA_HALF_HEIGHT + PLAYER_RADIUS {
            -ARENA_HALF_HEIGHT + PLAYER_RADIUS
        } else if old(pos).y > ARENA_HALF_HEIGHT - PLAYER_RADIUS {
            ARENA_HALF_HEIGHT - PLAYER_RADIUS
        } else {
            old(pos).y as int
        },
{
    if pos.x < -ARENA_HALF_WIDTH + PLAYER_RADIUS {
        pos.x = -ARENA_HALF_WIDTH + PLAYER_RADIUS;
    } else if pos.x > ARENA_HALF_WIDTH - PLAYER_RADIUS {
        pos.x = ARENA_HALF_WIDTH - PLAYER_RADIUS;
    }
    if pos.y < -ARENA_HALF_HEIGHT + PLAYER_RADIUS {
        pos.y = -ARENA_HALF_HEIGHT + PLAYER_RADIUS;
    } else if pos.y > ARENA_HALF_HEIGHT - PLAYER_RADIUS {
        pos.y = ARENA_HALF_HEIGHT - PLAYER_RADIUS;
    }
}

} // verus!
