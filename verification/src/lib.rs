//! Deterministic core of a top-down arena shooter.
//!
//! Positions are fixed-point: one world unit is [`constants::UNIT`]
//! sub-units, and the plane ends [`constants::COORD_MAX`] sub-units from
//! the origin, where every movement stops. Time is counted in whole
//! nanoseconds.

pub mod animation;
pub mod camera;
pub mod collision;
pub mod components;
pub mod constants;
pub mod enemy;
pub mod fixed;
pub mod gun;
pub mod player;
pub mod random;
pub mod resources;
pub mod state;
pub mod timer;
pub mod world;
