//! State that belongs to the game as a whole.

use crate::fixed::Vec2;
use vstd::prelude::*;

verus! {

/// Where the cursor points in the world, or `None` while it is outside the
/// window or no camera can tell.
#[derive(Clone, Copy, Debug)]
pub struct CursorPosition(pub Option<Vec2>);

impl CursorPosition {
    pub open spec fn spec_or(self, fallback: Vec2) -> Vec2 {
        match self.0 {
            Some(position) => position,
            None => fallback,
        }
    }

    /// The cursor's position, or `fallback` where there is none.
    #[verifier::when_used_as_spec(spec_or)]
    pub fn or(self, fallback: Vec2) -> (p: Vec2)
        ensures
            p == self.spec_or(fallback),
    {
        match self.0 {
            Some(position) => position,
            None => fallback,
        }
    }
}

} // verus!
