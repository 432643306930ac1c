//! The player: keys held become a step of constant length.

use crate::animation::AnimationTimer;
use crate::components::{Sprite, Transform};
use crate::constants::{PLAYER_DEPTH, PLAYER_FRAME_TIME, PLAYER_SPEED, PLAYER_SPRITE, UNIT};
use crate::fixed::{lemma_direction_length, Vec2};
use vstd::prelude::*;

verus! {

/// The keys that move the player, as held in one frame. Each direction has
/// a letter key and an arrow key.
#[derive(Clone, Copy, Debug, PartialEq, Eq, Structural)]
pub struct Keys {
    pub key_w: bool,
    pub key_s: bool,
    pub key_a: bool,
    pub key_d: bool,
    pub arrow_up: bool,
    pub arrow_down: bool,
    pub arrow_left: bool,
    pub arrow_right: bool,
}

/// What one axis asks for: forward, back, or neither.
pub open spec fn axis(positive: bool, negative: bool) -> int {
    (if positive {
        1int
    } else {
        0int
    }) - (if negative {
        1int
    } else {
        0int
    })
}

impl Keys {
    pub open spec fn spec_up(&self) -> bool {
        self.key_w || self.arrow_up
    }

    #[verifier::when_used_as_spec(spec_up)]
    pub fn up(&self) -> (b: bool)
        ensures
            b == self.spec_up(),
    {
        self.key_w || self.arrow_up
    }

    pub open spec fn spec_down(&self) -> bool {
        self.key_s || self.arrow_down
    }

    #[verifier::when_used_as_spec(spec_down)]
    pub fn down(&self) -> (b: bool)
        ensures
            b == self.spec_down(),
    {
        self.key_s || self.arrow_down
    }

    pub open spec fn spec_left(&self) -> bool {
        self.key_a || self.arrow_left
    }

    #[verifier::when_used_as_spec(spec_left)]
    pub fn left(&self) -> (b: bool)
        ensures
            b == self.spec_left(),
    {
        self.key_a || self.arrow_left
    }

    pub open spec fn spec_right(&self) -> bool {
        self.key_d || self.arrow_right
    }

    #[verifier::when_used_as_spec(spec_right)]
    pub fn right(&self) -> (b: bool)
        ensures
            b == self.spec_right(),
    {
        self.key_d || self.arrow_right
    }

    pub open spec fn spec_axes(&self) -> Vec2 {
        Vec2 {
            x: axis(self.spec_right(), self.spec_left()) as i64,
            y: axis(self.spec_up(), self.spec_down()) as i64,
        }
    }

    /// What the keys ask for on each axis: 1, 0 or -1, counted in
    /// sub-units. Two keys held against each other ask for nothing.
    #[verifier::when_used_as_spec(spec_axes)]
    pub fn axes(&self) -> (v: Vec2)
        ensures
            v == self.spec_axes(),
    {
        let mut x: i64 = 0;
        let mut y: i64 = 0;
        if self.up() {
            y = y + 1;
        }
        if self.down() {
            y = y - 1;
        }
        if self.left() {
            x = x - 1;
        }
        if self.right() {
            x = x + 1;
        }
        Vec2 { x, y }
    }
}

/// Whether the player walks or stands.
#[derive(Clone, Copy, Debug, PartialEq, Eq, Structural)]
pub enum PlayerState {
    Idle,
    Moving,
}

/// The one entity the keys move.
#[derive(Clone, Copy, Debug, PartialEq, Eq, Structural)]
pub struct Player {
    pub transform: Transform,
    pub sprite: Sprite,
    pub state: PlayerState,
    pub timer: AnimationTimer,
}

impl Player {
    pub open spec fn spec_new() -> Player {
        Player {
            transform: Transform::spec_from_translation(Vec2::spec_zero(), 0),
            sprite: Sprite::spec_from_index(PLAYER_SPRITE),
            state: PlayerState::Idle,
            timer: AnimationTimer::spec_every(PLAYER_FRAME_TIME),
        }
    }

    /// The player as the game starts: at the origin, standing.
    #[verifier::when_used_as_spec(spec_new)]
    pub fn new() -> (p: Player)
        ensures
            p == Player::spec_new(),
    {
        Player {
            transform: Transform::from_translation(Vec2::zero(), 0),
            sprite: Sprite::from_index(PLAYER_SPRITE),
            state: PlayerState::Idle,
            timer: AnimationTimer::every(PLAYER_FRAME_TIME),
        }
    }

    /// The player after a frame with `keys` held. Where the keys ask for a
    /// direction the player takes a step of `PLAYER_SPEED` world units that
    /// way, is drawn in the foreground, and walks; else the player stays
    /// and stands.
    pub open spec fn moved(self, keys: Keys) -> Player {
        let delta = spec_movement_delta(keys);
        if delta != Vec2::spec_zero() {
            Player {
                transform: Transform {
                    translation: self.transform.translation.spec_advanced(
                        delta,
                        PLAYER_SPEED as int,
                    ),
                    depth: PLAYER_DEPTH,
                    heading: self.transform.heading,
                },
                state: PlayerState::Moving,
                ..self
            }
        } else {
            Player { state: PlayerState::Idle, ..self }
        }
    }
}

pub open spec fn spec_movement_delta(keys: Keys) -> Vec2 {
    keys.spec_axes().spec_normalize_or_zero()
}

/// The direction the keys ask for, as a vector of length `UNIT`; zero where
/// they ask for none.
#[verifier::when_used_as_spec(spec_movement_delta)]
pub fn movement_delta(keys: Keys) -> (delta: Vec2)
    ensures
        delta == spec_movement_delta(keys),
{
    keys.axes().normalize_or_zero()
}

/// Moves the player by the keys held in this frame. Without a player
/// nothing happens.
pub fn handle_player_input(player: &mut Option<Player>, keys: Keys)
    ensures
        *final(player) == match *old(player) {
            Some(p) => Some(p.moved(keys)),
            None => None,
        },
{
    match *player {
        Some(p) => {
            let delta = movement_delta(keys);
            let zero = Vec2::zero();
            if delta.x != zero.x || delta.y != zero.y {
                *player = Some(
                    Player {
                        transform: Transform {
                            translation: p.transform.translation.advanced(delta, PLAYER_SPEED),
                            depth: PLAYER_DEPTH,
                            heading: p.transform.heading,
                        },
                        state: PlayerState::Moving,
                        ..p
                    },
                );
            } else {
                *player = Some(Player { state: PlayerState::Idle, ..p });
            }
        },
        None => {},
    }
}

/// Whatever keys are held, the movement delta is no longer than one world
/// unit, so that a diagonal step is no longer than a straight one; it is
/// zero exactly when no key is held or the keys held cancel on both axes;
/// and where it is not zero its length is that of a heading.
pub proof fn lemma_movement_delta(keys: Keys)
    ensures
        spec_movement_delta(keys).norm_squared() <= UNIT * UNIT,
        spec_movement_delta(keys) == Vec2::spec_zero() <==> (keys.spec_up() == keys.spec_down()
            && keys.spec_left() == keys.spec_right()),
        spec_movement_delta(keys) != Vec2::spec_zero() ==> spec_movement_delta(keys).is_heading(),
{
    lemma_direction_length(Vec2::spec_zero(), keys.spec_axes());
}

} // verus!
