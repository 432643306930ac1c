//! The camera trails the player.

use crate::components::Transform;
use crate::constants::{CAMERA_DEPTH, CAMERA_SHARE};
use crate::fixed::Vec2;
use crate::player::Player;
use vstd::prelude::*;

verus! {

#[derive(Clone, Copy, Debug, PartialEq, Eq, Structural)]
pub struct Camera {
    pub transform: Transform,
}

impl Camera {
    pub open spec fn spec_new() -> Camera {
        Camera { transform: Transform::spec_from_translation(Vec2::spec_zero(), CAMERA_DEPTH) }
    }

    /// The camera as the game starts: over the origin.
    #[verifier::when_used_as_spec(spec_new)]
    pub fn new() -> (c: Camera)
        ensures
            c == Camera::spec_new(),
    {
        Camera { transform: Transform::from_translation(Vec2::zero(), CAMERA_DEPTH) }
    }

    /// The camera after a frame of following a player at `player`: it has
    /// covered one `CAMERA_SHARE`-th of the way to the player, and keeps
    /// its depth at `CAMERA_DEPTH`.
    pub open spec fn spec_following(self, player: Vec2) -> Camera {
        Camera {
            transform: Transform {
                translation: self.transform.translation.spec_approach(player, CAMERA_SHARE as int),
                depth: CAMERA_DEPTH,
                heading: self.transform.heading,
            },
        }
    }

    #[verifier::when_used_as_spec(spec_following)]
    pub fn following(self, player: Vec2) -> (c: Camera)
        ensures
            c == self.spec_following(player),
    {
        Camera {
            transform: Transform {
                translation: self.transform.translation.approach(player, CAMERA_SHARE),
                depth: CAMERA_DEPTH,
                heading: self.transform.heading,
            },
        }
    }
}

/// Puts the camera in place. A camera that is there already is replaced.
pub fn setup_camera(camera: &mut Option<Camera>)
    ensures
        *final(camera) == Some(Camera::spec_new()),
{
    *camera = Some(Camera::new());
}

/// Moves the camera a share of the way to the player. Without a camera or
/// a player nothing happens.
pub fn camera_follow_player(player: &Option<Player>, camera: &mut Option<Camera>)
    ensures
        *final(camera) == match (*player, *old(camera)) {
            (Some(p), Some(c)) => Some(c.spec_following(p.transform.translation)),
            _ => *old(camera),
        },
{
    match (player, *camera) {
        (Some(p), Some(c)) => {
            *camera = Some(c.following(p.transform.translation));
        },
        _ => {},
    }
}

} // verus!
