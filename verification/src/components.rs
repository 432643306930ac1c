//! What every entity shows to the renderer.

use crate::constants::UNIT;
use crate::fixed::Vec2;
use vstd::prelude::*;

verus! {

/// Where an entity stands, how it is drawn over others, and where it points.
#[derive(Clone, Copy, Debug, PartialEq, Eq, Structural)]
pub struct Transform {
    pub translation: Vec2,
    /// The place in the draw order; it takes no part in any distance.
    pub depth: i32,
    /// The direction of the entity's own x axis, as a vector of length
    /// `UNIT`.
    pub heading: Vec2,
}

impl Transform {
    /// The heading of an entity that has not been turned.
    pub open spec fn spec_ahead() -> Vec2 {
        Vec2 { x: UNIT, y: 0 }
    }

    #[verifier::when_used_as_spec(spec_ahead)]
    pub fn ahead() -> (h: Vec2)
        ensures
            h == Transform::spec_ahead(),
    {
        Vec2 { x: UNIT, y: 0 }
    }

    pub open spec fn spec_from_translation(translation: Vec2, depth: i32) -> Transform {
        Transform { translation, depth, heading: Transform::spec_ahead() }
    }

    /// An entity at `translation` that has not been turned.
    #[verifier::when_used_as_spec(spec_from_translation)]
    pub fn from_translation(translation: Vec2, depth: i32) -> (t: Transform)
        ensures
            t == Transform::spec_from_translation(translation, depth),
    {
        Transform { translation, depth, heading: Transform::ahead() }
    }
}

impl Default for Transform {
    fn default() -> (t: Transform)
        ensures
            t == Transform::spec_from_translation(Vec2::spec_zero(), 0),
    {
        Transform::from_translation(Vec2::zero(), 0)
    }
}

/// The picture of an entity: a cell of the sprite sheet, and whether it is
/// mirrored.
#[derive(Clone, Copy, Debug, PartialEq, Eq, Structural)]
pub struct Sprite {
    pub index: usize,
    pub flip_x: bool,
    pub flip_y: bool,
}

impl Sprite {
    pub open spec fn spec_from_index(index: usize) -> Sprite {
        Sprite { index, flip_x: false, flip_y: false }
    }

    /// The cell `index` of the sprite sheet, not mirrored.
    #[verifier::when_used_as_spec(spec_from_index)]
    pub fn from_index(index: usize) -> (s: Sprite)
        ensures
            s == Sprite::spec_from_index(index),
    {
        Sprite { index, flip_x: false, flip_y: false }
    }
}

} // verus!
