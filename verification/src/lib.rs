//! Real-time combat resolution and enemy-AI decision engine for an action
//! roguelike, written against exact integer arithmetic so that every rule of
//! the combat pipeline can be verified.
//!
//! Time is measured in whole milliseconds, damage, health and armor in
//! thousandths of a unit, and dimensionless fractions (crit chance, damage
//! reduction, attack-speed and damage multipliers) in permille. Positions and
//! sizes are whole world units.

pub mod units;
pub mod timer;
pub mod stats;
pub mod geom;
pub mod attack;
pub mod hitbox;
pub mod damage;
pub mod direction;
pub mod knockback;
pub mod ai;
pub mod input;
pub mod movement;
pub mod spawn;
pub mod presentation;
pub mod state;
pub mod world;
