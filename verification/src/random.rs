//! Chance: where it comes from, and what is made of it.

use crate::constants::{HEADING_TRIES, UNIT};
use crate::fixed::{lemma_direction_length, Vec2};
use rand::Rng;
use vstd::prelude::*;

verus! {

/// Draws from `low..high` by `rand::Rng::random_range` on the generator of
/// the calling thread (`rand::rng`).
///
/// Trusted: nothing is proved of the generator. The contract says what rand
/// documents of the call, that the value lies in the range; an empty range
/// makes the call panic and is left out.
#[verifier::external_body]
pub(crate) fn random_i64(low: i64, high: i64) -> (r: i64)
    requires
        low < high,
    ensures
        low <= r < high,
{
    rand::rng().random_range(low..high)
}

/// Whether a point drawn from the square around the unit disc is kept: it
/// lies in the disc and is not its centre.
pub open spec fn spec_in_disc(sample: Vec2) -> bool {
    0 < sample.norm_squared() <= UNIT * UNIT
}

#[verifier::when_used_as_spec(spec_in_disc)]
pub fn in_disc(sample: Vec2) -> (b: bool)
    ensures
        b == spec_in_disc(sample),
{
    let x: i64 = sample.x;
    let y: i64 = sample.y;
    if x < -UNIT || x > UNIT || y < -UNIT || y > UNIT {
        assert(x * x + y * y > UNIT * UNIT) by (nonlinear_arith)
            requires
                x < -UNIT || x > UNIT || y < -UNIT || y > UNIT,
                UNIT == 1_000_000,
        ;
        return false;
    }
    assert(0 <= x * x <= 1_000_000_000_000 && 0 <= y * y <= 1_000_000_000_000)
        by (nonlinear_arith)
        requires
            -1_000_000 <= x <= 1_000_000,
            -1_000_000 <= y <= 1_000_000,
    ;
    let n: i64 = x * x + y * y;
    0 < n && n <= 1_000_000_000_000
}

/// The heading that a drawn point gives: its direction from the centre, if
/// the point is kept. Points of the disc are kept, so that no direction is
/// more likely than another.
pub open spec fn spec_heading_of(sample: Vec2) -> Option<Vec2> {
    if spec_in_disc(sample) {
        Some(sample.spec_normalize_or_zero())
    } else {
        None
    }
}

#[verifier::when_used_as_spec(spec_heading_of)]
pub fn heading_of(sample: Vec2) -> (h: Option<Vec2>)
    ensures
        h == spec_heading_of(sample),
        h matches Some(d) ==> d.is_heading(),
{
    if in_disc(sample) {
        proof {
            assert(-UNIT <= sample.x <= UNIT && -UNIT <= sample.y <= UNIT && (sample.x != 0
                || sample.y != 0)) by (nonlinear_arith)
                requires
                    0 < sample.x * sample.x + sample.y * sample.y <= UNIT * UNIT,
                    UNIT == 1_000_000,
            ;
            assert(sample.spec_on_plane() == sample);
            lemma_direction_length(Vec2::zero(), sample);
        }
        Some(sample.normalize_or_zero())
    } else {
        None
    }
}

/// A heading drawn at random: the direction of the first of up to
/// `HEADING_TRIES` points, drawn from the square around the unit disc, that
/// lies in the disc. If none does, the heading is that of an entity not
/// turned.
pub fn random_heading() -> (d: Vec2)
    ensures
        d.is_heading(),
{
    let mut tries: usize = 0;
    while tries < HEADING_TRIES
        invariant
            tries <= HEADING_TRIES,
        decreases HEADING_TRIES - tries,
    {
        let x: i64 = random_i64(-UNIT, UNIT + 1);
        let y: i64 = random_i64(-UNIT, UNIT + 1);
        match heading_of(Vec2 { x, y }) {
            Some(d) => {
                return d;
            },
            None => {},
        }
        tries = tries + 1;
    }
    Vec2 { x: UNIT, y: 0 }
}

} // verus!
