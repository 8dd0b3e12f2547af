//! Combat-timing and encounter-generation core of a top-down action game.
//!
//! The crate decides, frame by frame, what a combatant's current action is
//! (aiming, charging, dashing, attacking, recovering, invincible) and, at the
//! encounter level, which and how many opponents appear in each wave.  All
//! durations are measured in whole milliseconds, angles in milliradians and
//! positions in integer world units; the host converts to and from the
//! engine's floating-point types at the boundary.

pub mod aim;
pub mod arena;
pub mod attack;
pub mod crafting;
pub mod dash;
pub mod direction;
pub mod enemy;
pub mod geom;
pub mod groups;
pub mod health;
pub mod items;
pub mod melee;
pub mod player;
pub mod projectile;
pub mod records;
mod rng;
pub mod wave;
