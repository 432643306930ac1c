//! The static configuration table: read by every system, never mutated.

use vstd::prelude::*;

verus! {

/// Sub-units per world unit. A unit vector has this length.
pub const UNIT: i64 = 1_000_000;

/// The plane reaches this many sub-units from the origin on each axis:
/// more than four million world units.
pub const COORD_MAX: i64 = 0x400_0000_0000;

/// Nanoseconds per second.
pub const NANOS_PER_SEC: u64 = 1_000_000_000;

// world
pub const NUM_WORLD_DECORATIONS: usize = 1000;

/// Half-width of the decorated area, in sub-units.
pub const WORLD_W: i64 = 3_000_000_000;

/// Half-height of the decorated area, in sub-units.
pub const WORLD_H: i64 = 2_500_000_000;

// player
/// World units travelled per frame while a direction is held.
pub const PLAYER_SPEED: i32 = 4;

// enemy
pub const MAX_NUM_ENEMIES: usize = 500;

/// Enemies created per spawn tick, at most.
pub const SPAWN_RATE_PER_SECOND: usize = 100;

/// Time between spawn ticks, in nanoseconds.
pub const ENEMY_SPAWN_INTERVAL: u64 = 1_000_000_000;

/// World units travelled per frame.
pub const ENEMY_SPEED: i32 = 2;

pub const ENEMY_HEALTH: i32 = 100;

/// Closest distance from the player at which an enemy appears, in sub-units.
pub const SPAWN_RADIUS_MIN: i64 = 100_000_000;

/// Bound (exclusive) on the distance from the player at which an enemy
/// appears, in sub-units.
pub const SPAWN_RADIUS_MAX: i64 = 2_000_000_000;

/// Shift added to every spawn position on both axes, in sub-units.
pub const SPAWN_BIAS: i64 = 10_000_000;

// bullet
/// Shortest time between two shots, in nanoseconds.
pub const BULLET_SPAWN_INTERVAL: u64 = 100_000_000;

/// World units travelled per frame.
pub const BULLET_SPEED: i32 = 15;

pub const BULLET_DAMAGE: i32 = 100;

/// Age beyond which a bullet is removed, in nanoseconds.
pub const BULLET_LIFE_TIME: u64 = 800_000_000;

pub const NUM_OF_BULLET_PER_SHOT: usize = 3;

/// Largest squared distance, in squared sub-units, at which a bullet
/// damages an enemy: a thousand squared world units.
pub const HIT_DISTANCE_SQUARED: u64 = 1_000_000_000_000_000;

// gun
/// Distance of the gun from the player, in world units.
pub const GUN_OFFSET: i32 = 20;

/// Correction applied to the gun position after rotation, in sub-units.
/// It centres the sprite and has no other meaning.
pub const GUN_NUDGE_X: i64 = -5_000_000;

pub const GUN_NUDGE_Y: i64 = -15_000_000;

// camera
/// The camera covers one part in this many of the way to the player in
/// each frame.
pub const CAMERA_SHARE: i32 = 10;

// chance
/// Points drawn at most for one random heading.
pub const HEADING_TRIES: usize = 32;

// draw order
pub const DECORATION_DEPTH: i32 = 0;

pub const ENEMY_SPAWN_DEPTH: i32 = 1;

pub const CAMERA_DEPTH: i32 = 1;

pub const PLAYER_DEPTH: i32 = 10;

pub const GUN_DEPTH: i32 = 10;

pub const ENEMY_DEPTH: i32 = 10;

/// Bullets in flight are drawn above the enemies.
pub const BULLET_DEPTH: i32 = 11;

pub const BULLET_SPAWN_DEPTH: i32 = 11;

// sprite sheet
pub const PLAYER_SPRITE: usize = 0;

pub const ENEMY_SPRITE: usize = 12;

pub const BULLET_SPRITE: usize = 16;

pub const GUN_SPRITE: usize = 17;

pub const DECORATION_SPRITE_FIRST: usize = 24;

pub const DECORATION_SPRITE_LAST: usize = 25;

/// Frames in one animation cycle.
pub const ANIMATION_FRAMES: usize = 4;

/// Time between two frames of the player's animation, in nanoseconds.
pub const PLAYER_FRAME_TIME: u64 = 100_000_000;

/// Time between two frames of an enemy's animation, in nanoseconds.
pub const ENEMY_FRAME_TIME: u64 = 80_000_000;

} // verus!
