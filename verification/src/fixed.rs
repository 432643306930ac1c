//! Fixed-point vectors of the plane.
//!
//! A coordinate counts sub-units, [`UNIT`] to the world unit. The plane
//! reaches [`COORD_MAX`] sub-units from the origin on each axis: sums that
//! leave it stop at its edge, and a point beyond it counts as the nearest
//! point of the plane. A direction is a vector of length `UNIT`, each
//! component cut toward zero to a whole sub-unit.

use crate::constants::{COORD_MAX, UNIT};
use vstd::prelude::*;

verus! {

/// A point or a displacement, in sub-units.
#[derive(Clone, Copy, Debug, PartialEq, Eq, Structural)]
pub struct Vec2 {
    pub x: i64,
    pub y: i64,
}

/// The coordinate of the plane nearest to `v`.
pub open spec fn clamp_coord(v: int) -> i64 {
    if v < -COORD_MAX {
        (-COORD_MAX) as i64
    } else if v > COORD_MAX {
        COORD_MAX
    } else {
        v as i64
    }
}

/// The quotient of `a` by a positive `b`, cut toward zero.
pub open spec fn div_toward_zero(a: int, b: int) -> int {
    if a >= 0 {
        a / b
    } else {
        -((-a) / b)
    }
}

/// Whether `k` is `UNIT * a / sqrt(n)` cut to a whole number, for `a >= 0`
/// and `n > 0`.
pub open spec fn is_unit_magnitude(a: int, n: int, k: int) -> bool {
    &&& 0 <= k
    &&& k * k * n <= a * a * (UNIT * UNIT)
    &&& a * a * (UNIT * UNIT) < (k + 1) * (k + 1) * n
}

/// `UNIT * a / sqrt(n)` cut to a whole number, for `a >= 0` and `n > 0`.
pub open spec fn unit_magnitude(a: int, n: int) -> int {
    choose|k: int| is_unit_magnitude(a, n, k)
}

/// One component of the direction of a displacement: `UNIT * d / sqrt(n)`
/// cut toward zero, where `n` is the squared length of the displacement.
/// Zero where the displacement is.
pub open spec fn unit_component(d: int, n: int) -> int {
    if n <= 0 {
        0
    } else if d >= 0 {
        unit_magnitude(d, n)
    } else {
        -unit_magnitude(-d, n)
    }
}

proof fn lemma_magnitude_below(a: int, n: int, hi: int)
    requires
        n > 0,
        hi >= 0,
        a * a * (UNIT * UNIT) < hi * hi * n,
    ensures
        exists|k: int| is_unit_magnitude(a, n, k),
    decreases hi,
{
    assert(a * a * (UNIT * UNIT) >= 0) by (nonlinear_arith);
    if hi == 0 {
        assert(hi * hi * n == 0) by (nonlinear_arith)
            requires
                hi == 0,
        ;
    } else {
        let k = hi - 1;
        if k * k * n <= a * a * (UNIT * UNIT) {
            assert(is_unit_magnitude(a, n, k));
        } else {
            lemma_magnitude_below(a, n, k);
        }
    }
}

/// The magnitude exists for every positive `n`.
pub proof fn lemma_unit_magnitude_exists(a: int, n: int)
    requires
        n > 0,
    ensures
        is_unit_magnitude(a, n, unit_magnitude(a, n)),
{
    let m = a * a * (UNIT * UNIT);
    let hi = m + 1;
    assert(m >= 0) by (nonlinear_arith)
        requires
            m == a * a * (UNIT * UNIT),
    ;
    assert(m < hi * hi * n) by (nonlinear_arith)
        requires
            m >= 0,
            hi == m + 1,
            n > 0,
    ;
    lemma_magnitude_below(a, n, hi);
}

/// There is only one magnitude.
pub proof fn lemma_unit_magnitude_unique(a: int, n: int, k: int)
    requires
        n > 0,
        is_unit_magnitude(a, n, k),
    ensures
        k == unit_magnitude(a, n),
{
    let c = unit_magnitude(a, n);
    let m = a * a * (UNIT * UNIT);
    assert(is_unit_magnitude(a, n, c));
    if k < c {
        assert((k + 1) * (k + 1) * n <= c * c * n) by (nonlinear_arith)
            requires
                0 <= k,
                k + 1 <= c,
                n > 0,
        ;
    } else if c < k {
        assert((c + 1) * (c + 1) * n <= k * k * n) by (nonlinear_arith)
            requires
                0 <= c,
                c + 1 <= k,
                n > 0,
        ;
    }
}

/// A component of a direction is no longer than `UNIT`, has the sign of the
/// displacement's component, and is zero where that component is.
pub proof fn lemma_unit_component_range(d: int, e: int)
    ensures
        -UNIT <= unit_component(d, d * d + e * e) <= UNIT,
        d >= 0 ==> unit_component(d, d * d + e * e) >= 0,
        d <= 0 ==> unit_component(d, d * d + e * e) <= 0,
        d == 0 ==> unit_component(d, d * d + e * e) == 0,
{
    let n = d * d + e * e;
    assert(n >= d * d && n >= 0) by (nonlinear_arith)
        requires
            n == d * d + e * e,
    ;
    if n > 0 {
        let a = if d >= 0 {
            d
        } else {
            -d
        };
        assert(a * a == d * d) by (nonlinear_arith)
            requires
                a == d || a == -d,
        ;
        let k = unit_magnitude(a, n);
        lemma_unit_magnitude_exists(a, n);
        assert(k <= UNIT) by (nonlinear_arith)
            requires
                0 <= k,
                n > 0,
                a * a <= n,
                k * k * n <= a * a * (UNIT * UNIT),
        ;
        if d == 0 {
            assert(k == 0) by (nonlinear_arith)
                requires
                    0 <= k,
                    n > 0,
                    a == 0,
                    k * k * n <= a * a * (UNIT * UNIT),
            ;
        }
    }
}

/// The whole number `k` with `k * k * n <= a * a * UNIT * UNIT` that is
/// nearest to the bound, found by bisection.
fn magnitude_of(a: u64, n: u128) -> (k: u32)
    requires
        a <= 0x800_0000_0000,
        a * a <= n,
        0 < n <= 0x80_0000_0000_0000_0000_0000,
    ensures
        k == unit_magnitude(a as int, n as int),
        k <= UNIT,
{
    assert(a * a <= 0x40_0000_0000_0000_0000_0000 && a * a * 1_000_000_000_000
        <= 0x40_0000_0000_0000_0000_0000 * 1_000_000_000_000) by (nonlinear_arith)
        requires
            0 <= a <= 0x800_0000_0000,
    ;
    let square: u128 = (a as u128) * (a as u128);
    let bound: u128 = square * 1_000_000_000_000;
    let mut lo: u128 = 0;
    let mut hi: u128 = 1_000_001;
    assert(lo * lo * n <= bound < hi * hi * n) by (nonlinear_arith)
        requires
            lo == 0,
            hi == 1_000_001,
            square <= n,
            0 < n,
            bound == square * 1_000_000_000_000,
    ;
    while hi - lo > 1
        invariant
            lo < hi <= 1_000_001,
            0 < n <= 0x80_0000_0000_0000_0000_0000,
            lo * lo * n <= bound,
            bound < hi * hi * n,
        decreases hi - lo,
    {
        let mid: u128 = lo + (hi - lo) / 2;
        assert(mid * mid <= 1_000_002_000_001 && mid * mid * n <= 1_000_002_000_001
            * 0x80_0000_0000_0000_0000_0000) by (nonlinear_arith)
            requires
                mid <= 1_000_001,
                n <= 0x80_0000_0000_0000_0000_0000,
        ;
        if mid * mid * n <= bound {
            lo = mid;
        } else {
            hi = mid;
        }
    }
    proof {
        assert(bound == a * a * (UNIT * UNIT)) by (nonlinear_arith)
            requires
                bound == square * 1_000_000_000_000,
                square == a * a,
                UNIT == 1_000_000,
        ;
        assert(is_unit_magnitude(a as int, n as int, lo as int));
        lemma_unit_magnitude_unique(a as int, n as int, lo as int);
    }
    lo as u32
}

impl Vec2 {
    pub fn new(x: i64, y: i64) -> (v: Vec2)
        ensures
            v == (Vec2 { x, y }),
    {
        Vec2 { x, y }
    }

    /// The origin, and the displacement that moves nothing.
    pub open spec fn spec_zero() -> Vec2 {
        Vec2 { x: 0, y: 0 }
    }

    #[verifier::when_used_as_spec(spec_zero)]
    pub fn zero() -> (v: Vec2)
        ensures
            v == Vec2::spec_zero(),
    {
        Vec2 { x: 0, y: 0 }
    }

    /// The squared length.
    pub open spec fn norm_squared(self) -> int {
        self.x * self.x + self.y * self.y
    }

    /// Whether this vector can stand for an angle: its length is `UNIT`,
    /// but for what is lost where the components are cut to whole
    /// sub-units.
    pub open spec fn is_heading(self) -> bool {
        (UNIT - 2) * (UNIT - 2) <= self.norm_squared() <= UNIT * UNIT
    }

    /// Whether this point lies on the plane.
    pub open spec fn is_on_plane(self) -> bool {
        -COORD_MAX <= self.x <= COORD_MAX && -COORD_MAX <= self.y <= COORD_MAX
    }

    pub open spec fn spec_on_plane(self) -> Vec2 {
        Vec2 { x: clamp_coord(self.x as int), y: clamp_coord(self.y as int) }
    }

    /// The point of the plane nearest to this one: the point itself, if it
    /// lies on the plane.
    #[verifier::when_used_as_spec(spec_on_plane)]
    pub fn on_plane(self) -> (p: Vec2)
        ensures
            p == self.spec_on_plane(),
            p.is_on_plane(),
            self.is_on_plane() ==> p == self,
    {
        Vec2 { x: clamp_to_coord(self.x as i128), y: clamp_to_coord(self.y as i128) }
    }

    pub open spec fn spec_distance_squared(self, other: Vec2) -> int {
        (clamp_coord(other.x as int) - clamp_coord(self.x as int)) * (clamp_coord(other.x as int)
            - clamp_coord(self.x as int)) + (clamp_coord(other.y as int) - clamp_coord(
            self.y as int,
        )) * (clamp_coord(other.y as int) - clamp_coord(self.y as int))
    }

    /// The squared distance between two points of the plane.
    pub fn distance_squared(self, other: Vec2) -> (d: u128)
        ensures
            d == self.spec_distance_squared(other),
    {
        let from = self.on_plane();
        let to = other.on_plane();
        let dx: i128 = to.x as i128 - from.x as i128;
        let dy: i128 = to.y as i128 - from.y as i128;
        assert(0 <= dx * dx <= 0x40_0000_0000_0000_0000_0000 && 0 <= dy * dy
            <= 0x40_0000_0000_0000_0000_0000) by (nonlinear_arith)
            requires
                -0x800_0000_0000 <= dx <= 0x800_0000_0000,
                -0x800_0000_0000 <= dy <= 0x800_0000_0000,
        ;
        (dx * dx + dy * dy) as u128
    }

    pub open spec fn spec_offset(self, dx: int, dy: int) -> Vec2 {
        Vec2 { x: clamp_coord(self.x + dx), y: clamp_coord(self.y + dy) }
    }

    /// The point reached by `(dx, dy)`, stopped at the edge of the plane.
    pub fn offset(self, dx: i64, dy: i64) -> (p: Vec2)
        ensures
            p == self.spec_offset(dx as int, dy as int),
    {
        Vec2 { x: clamp_to_coord(self.x as i128 + dx as i128), y: clamp_to_coord(self.y as i128 + dy as i128) }
    }

    pub open spec fn spec_advanced(self, dir: Vec2, steps: int) -> Vec2 {
        self.spec_offset(dir.x * steps, dir.y * steps)
    }

    /// The point reached by `steps` times `dir`, stopped at the edge of the
    /// plane.
    pub fn advanced(self, dir: Vec2, steps: i32) -> (p: Vec2)
        ensures
            p == self.spec_advanced(dir, steps as int),
    {
        let dx: i128 = dir.x as i128;
        let dy: i128 = dir.y as i128;
        let k: i128 = steps as i128;
        assert(-0x4000_0000_0000_0000_0000_0000 <= dx * k <= 0x4000_0000_0000_0000_0000_0000
            && -0x4000_0000_0000_0000_0000_0000 <= dy * k <= 0x4000_0000_0000_0000_0000_0000)
            by (nonlinear_arith)
            requires
                -0x8000_0000_0000_0000 <= dx <= 0x8000_0000_0000_0000,
                -0x8000_0000_0000_0000 <= dy <= 0x8000_0000_0000_0000,
                -0x8000_0000 <= k <= 0x8000_0000,
        ;
        Vec2 {
            x: clamp_to_coord(self.x as i128 + dx * k),
            y: clamp_to_coord(self.y as i128 + dy * k),
        }
    }

    pub open spec fn spec_direction_to(self, target: Vec2) -> Vec2 {
        let dx = clamp_coord(target.x as int) - clamp_coord(self.x as int);
        let dy = clamp_coord(target.y as int) - clamp_coord(self.y as int);
        let n = dx * dx + dy * dy;
        Vec2 { x: unit_component(dx, n) as i64, y: unit_component(dy, n) as i64 }
    }

    /// The direction from this point to `target`: the displacement between
    /// them brought to length `UNIT`, each component cut toward zero. Zero
    /// where the two points are one.
    #[verifier::when_used_as_spec(spec_direction_to)]
    pub fn direction_to(self, target: Vec2) -> (d: Vec2)
        ensures
            d == self.spec_direction_to(target),
            -UNIT <= d.x <= UNIT,
            -UNIT <= d.y <= UNIT,
    {
        let from = self.on_plane();
        let to = target.on_plane();
        let dx: i64 = to.x - from.x;
        let dy: i64 = to.y - from.y;
        if dx == 0 && dy == 0 {
            return Vec2 { x: 0, y: 0 };
        }
        let ax: u64 = if dx >= 0 {
            dx as u64
        } else {
            (-dx) as u64
        };
        let ay: u64 = if dy >= 0 {
            dy as u64
        } else {
            (-dy) as u64
        };
        assert(ax * ax == dx * dx && ay * ay == dy * dy && 0 <= ax * ax
            <= 0x40_0000_0000_0000_0000_0000 && 0 <= ay * ay <= 0x40_0000_0000_0000_0000_0000 && ax
            * ax + ay * ay > 0) by (nonlinear_arith)
            requires
                ax == dx || ax == -dx,
                ay == dy || ay == -dy,
                0 <= ax <= 0x800_0000_0000,
                0 <= ay <= 0x800_0000_0000,
                dx != 0 || dy != 0,
        ;
        let n: u128 = (ax as u128) * (ax as u128) + (ay as u128) * (ay as u128);
        let kx: u32 = magnitude_of(ax, n);
        let ky: u32 = magnitude_of(ay, n);
        Vec2 {
            x: if dx >= 0 {
                kx as i64
            } else {
                -(kx as i64)
            },
            y: if dy >= 0 {
                ky as i64
            } else {
                -(ky as i64)
            },
        }
    }

    pub open spec fn spec_normalize_or_zero(self) -> Vec2 {
        Vec2::spec_zero().spec_direction_to(self)
    }

    /// This displacement brought to length `UNIT`; zero stays zero.
    #[verifier::when_used_as_spec(spec_normalize_or_zero)]
    pub fn normalize_or_zero(self) -> (d: Vec2)
        ensures
            d == self.spec_normalize_or_zero(),
            -UNIT <= d.x <= UNIT,
            -UNIT <= d.y <= UNIT,
    {
        Vec2::zero().direction_to(self)
    }

    pub open spec fn spec_scaled(self, length: int) -> Vec2 {
        Vec2 {
            x: clamp_coord(div_toward_zero(self.x * length, UNIT as int)),
            y: clamp_coord(div_toward_zero(self.y * length, UNIT as int)),
        }
    }

    /// The fixed-point product of this vector and `length`, which counts
    /// sub-units: a direction becomes a displacement of that length.
    pub fn scaled(self, length: i64) -> (v: Vec2)
        ensures
            v == self.spec_scaled(length as int),
    {
        let x: i128 = self.x as i128;
        let y: i128 = self.y as i128;
        let k: i128 = length as i128;
        assert(-0x4000_0000_0000_0000_0000_0000_0000_0000 <= x * k
            <= 0x4000_0000_0000_0000_0000_0000_0000_0000
            && -0x4000_0000_0000_0000_0000_0000_0000_0000 <= y * k
            <= 0x4000_0000_0000_0000_0000_0000_0000_0000) by (nonlinear_arith)
            requires
                -0x8000_0000_0000_0000 <= x <= 0x8000_0000_0000_0000,
                -0x8000_0000_0000_0000 <= y <= 0x8000_0000_0000_0000,
                -0x8000_0000_0000_0000 <= k <= 0x8000_0000_0000_0000,
        ;
        Vec2 {
            x: clamp_to_coord((x * k) / 1_000_000),
            y: clamp_to_coord((y * k) / 1_000_000),
        }
    }

    pub open spec fn spec_approach(self, target: Vec2, share: int) -> Vec2 {
        let from = self.spec_on_plane();
        let to = target.spec_on_plane();
        Vec2 {
            x: (from.x + div_toward_zero(to.x - from.x, share)) as i64,
            y: (from.y + div_toward_zero(to.y - from.y, share)) as i64,
        }
    }

    /// The point one `share`-th of the way to `target`, each step cut toward
    /// zero.
    pub fn approach(self, target: Vec2, share: i32) -> (p: Vec2)
        requires
            share > 0,
        ensures
            p == self.spec_approach(target, share as int),
    {
        let from = self.on_plane();
        let to = target.on_plane();
        let dx: i64 = to.x - from.x;
        let dy: i64 = to.y - from.y;
        let sx: i64 = dx / (share as i64);
        let sy: i64 = dy / (share as i64);
        proof {
            lemma_share_between(dx as int, share as int);
            lemma_share_between(dy as int, share as int);
        }
        Vec2 { x: from.x + sx, y: from.y + sy }
    }
}

/// A direction is no longer than `UNIT`, and shorter by less than two
/// sub-units; only between points that are one on the plane it is zero.
/// Each of its components is the unit component of the displacement's.
pub proof fn lemma_direction_length(from: Vec2, to: Vec2)
    ensures
        from.direction_to(to).norm_squared() <= UNIT * UNIT,
        from.direction_to(to) == Vec2::zero() <==> from.spec_on_plane() == to.spec_on_plane(),
        from.spec_on_plane() != to.spec_on_plane() ==> from.direction_to(to).is_heading(),
        from.direction_to(to).x == unit_component(
            to.spec_on_plane().x - from.spec_on_plane().x,
            from.spec_distance_squared(to),
        ),
        from.direction_to(to).y == unit_component(
            to.spec_on_plane().y - from.spec_on_plane().y,
            from.spec_distance_squared(to),
        ),
{
    let dx = to.spec_on_plane().x - from.spec_on_plane().x;
    let dy = to.spec_on_plane().y - from.spec_on_plane().y;
    let n = dx * dx + dy * dy;
    lemma_unit_component_range(dx, dy);
    lemma_unit_component_range(dy, dx);
    assert(dy * dy + dx * dx == n);
    let ux = unit_component(dx, n);
    let uy = unit_component(dy, n);
    assert(n >= 0 && (n == 0 <==> (dx == 0 && dy == 0))) by (nonlinear_arith)
        requires
            n == dx * dx + dy * dy,
    ;
    if n > 0 {
        let ax = if dx >= 0 {
            dx
        } else {
            -dx
        };
        let ay = if dy >= 0 {
            dy
        } else {
            -dy
        };
        let kx = unit_magnitude(ax, n);
        let ky = unit_magnitude(ay, n);
        lemma_unit_magnitude_exists(ax, n);
        lemma_unit_magnitude_exists(ay, n);
        assert(ux * ux == kx * kx && uy * uy == ky * ky) by (nonlinear_arith)
            requires
                ux == kx || ux == -kx,
                uy == ky || uy == -ky,
        ;
        assert(ax * ax + ay * ay == n) by (nonlinear_arith)
            requires
                ax == dx || ax == -dx,
                ay == dy || ay == -dy,
                n == dx * dx + dy * dy,
        ;
        let u2 = UNIT * UNIT;
        assert(kx * kx + ky * ky <= u2) by (nonlinear_arith)
            requires
                n > 0,
                ax * ax + ay * ay == n,
                kx * kx * n <= ax * ax * u2,
                ky * ky * n <= ay * ay * u2,
        ;
        assert((kx + 1) * (kx + 1) + (ky + 1) * (ky + 1) > u2) by (nonlinear_arith)
            requires
                n > 0,
                ax * ax + ay * ay == n,
                ax * ax * u2 < (kx + 1) * (kx + 1) * n,
                ay * ay * u2 < (ky + 1) * (ky + 1) * n,
        ;
        assert(kx + ky < 1_414_215) by (nonlinear_arith)
            requires
                kx >= 0,
                ky >= 0,
                kx * kx + ky * ky <= 1_000_000_000_000,
        ;
        assert(kx * kx + ky * ky > u2 - 2_828_432) by (nonlinear_arith)
            requires
                (kx + 1) * (kx + 1) + (ky + 1) * (ky + 1) > u2,
                kx + ky < 1_414_215,
        ;
        assert(ux * ux + uy * uy >= (UNIT - 2) * (UNIT - 2));
    }
}

proof fn lemma_step_below_twice(a: int, n: int, k: int, s: int)
    requires
        a > 0,
        n > 0,
        s > 0,
        k >= 0,
        k * k * n <= a * a * (UNIT * UNIT),
        4 * n > s * s * (UNIT * UNIT),
    ensures
        k * s < 2 * a,
{
    let u2 = UNIT * UNIT;
    let t = k * s;
    if t >= 2 * a {
        assert(t * t >= 4 * (a * a)) by (nonlinear_arith)
            requires
                t >= 2 * a,
                a > 0,
        ;
        assert(t * t * n >= 4 * (a * a) * n) by (nonlinear_arith)
            requires
                t * t >= 4 * (a * a),
                n > 0,
        ;
        assert(t * t * n == (k * k * n) * (s * s)) by (nonlinear_arith)
            requires
                t == k * s,
        ;
        assert((k * k * n) * (s * s) <= (a * a * u2) * (s * s)) by (nonlinear_arith)
            requires
                k * k * n <= a * a * u2,
        ;
        assert((a * a * u2) * (s * s) == (a * a) * (s * s * u2)) by (nonlinear_arith);
        assert((a * a) * (s * s * u2) < (a * a) * (4 * n)) by (nonlinear_arith)
            requires
                a > 0,
                s * s * u2 < 4 * n,
        ;
        assert((a * a) * (4 * n) == 4 * (a * a) * n) by (nonlinear_arith);
    }
}

proof fn lemma_axis_closes_in(e: int, p: int, other: int, s: int)
    requires
        -COORD_MAX <= e <= COORD_MAX,
        -COORD_MAX <= p <= COORD_MAX,
        s > 0,
        (p - e) * (p - e) + other * other > 0,
        4 * ((p - e) * (p - e) + other * other) > s * s * (UNIT * UNIT),
    ensures
        ({
            let d = p - e;
            let u = unit_component(d, d * d + other * other);
            let x = clamp_coord(e + u * s);
            &&& (p - x) * (p - x) <= d * d
            &&& u != 0 ==> (p - x) * (p - x) < d * d
        }),
{
    let d = p - e;
    let n = d * d + other * other;
    let u = unit_component(d, n);
    let t = u * s;
    let x = clamp_coord(e + t);
    let r = p - x;
    lemma_unit_component_range(d, other);
    assert(other * other >= 0) by (nonlinear_arith);
    if d > 0 {
        lemma_unit_magnitude_exists(d, n);
        lemma_step_below_twice(d, n, u, s);
        assert(u > 0 ==> t > 0) by (nonlinear_arith)
            requires
                t == u * s,
                s > 0,
        ;
        assert(t >= 0) by (nonlinear_arith)
            requires
                t == u * s,
                s > 0,
                u >= 0,
        ;
        assert(-d < r <= d);
        assert(u != 0 ==> r < d);
    } else if d < 0 {
        let a = -d;
        assert(a * a == d * d) by (nonlinear_arith)
            requires
                a == -d,
        ;
        lemma_unit_magnitude_exists(a, n);
        lemma_step_below_twice(a, n, -u, s);
        assert((-u) * s == -t) by (nonlinear_arith)
            requires
                t == u * s,
        ;
        assert(u < 0 ==> t < 0) by (nonlinear_arith)
            requires
                t == u * s,
                s > 0,
        ;
        assert(t <= 0) by (nonlinear_arith)
            requires
                t == u * s,
                s > 0,
                u <= 0,
        ;
        assert(d <= r < -d);
        assert(u != 0 ==> d < r);
    } else {
        assert(t == 0) by (nonlinear_arith)
            requires
                t == u * s,
                u == 0,
        ;
        assert(r == 0);
    }
    assert(r * r <= d * d) by (nonlinear_arith)
        requires
            (d >= 0 && -d <= r <= d) || (d <= 0 && d <= r <= -d),
    ;
    if u != 0 {
        assert(r * r < d * d) by (nonlinear_arith)
            requires
                (d > 0 && -d < r < d) || (d < 0 && d < r < -d),
        ;
    }
}

/// Steps along the direction to a target lead closer to it: from any point
/// of the plane but the target, and farther from it than half the way the
/// steps cover, the distance to the target shrinks.
pub proof fn lemma_advance_closes_in(from: Vec2, target: Vec2, steps: int)
    requires
        from.is_on_plane(),
        target.is_on_plane(),
        from != target,
        steps > 0,
        4 * from.spec_distance_squared(target) > steps * steps * (UNIT * UNIT),
    ensures
        from.spec_advanced(from.spec_direction_to(target), steps).spec_distance_squared(target)
            < from.spec_distance_squared(target),
{
    let dx = target.x - from.x;
    let dy = target.y - from.y;
    let n = dx * dx + dy * dy;
    lemma_direction_length(from, target);
    let dir = from.spec_direction_to(target);
    assert(n > 0) by (nonlinear_arith)
        requires
            n == dx * dx + dy * dy,
            dx != 0 || dy != 0,
    ;
    lemma_axis_closes_in(from.x as int, target.x as int, dy, steps);
    assert(dy * dy + dx * dx == n);
    lemma_axis_closes_in(from.y as int, target.y as int, dx, steps);
    assert(dir.x != 0 || dir.y != 0);
}

/// The size of a number.
pub open spec fn magnitude(v: int) -> int {
    if v >= 0 {
        v
    } else {
        -v
    }
}

proof fn lemma_scaled_axis(h: int, length: int)
    requires
        -UNIT <= h <= UNIT,
        0 <= length <= COORD_MAX,
    ensures
        ({
            let q = div_toward_zero(h * length, UNIT as int);
            &&& clamp_coord(q) == q
            &&& q * q * (UNIT * UNIT) <= h * h * (length * length)
            &&& h * h * (length * length) < (magnitude(q) + 1) * (magnitude(q) + 1) * (UNIT
                * UNIT)
        }),
{
    let q = div_toward_zero(h * length, UNIT as int);
    let a = magnitude(h);
    let m = a * length;
    let k = magnitude(q);
    assert(magnitude(h * length) == m && 0 <= m <= UNIT * length) by (nonlinear_arith)
        requires
            a == magnitude(h),
            m == a * length,
            0 <= a <= UNIT,
            length >= 0,
    ;
    assert(k == m / (UNIT as int));
    assert(k * UNIT <= m < (k + 1) * UNIT);
    assert(k * k * (UNIT * UNIT) <= m * m && m * m < (k + 1) * (k + 1) * (UNIT * UNIT))
        by (nonlinear_arith)
        requires
            0 <= k,
            k * UNIT <= m < (k + 1) * UNIT,
    ;
    assert(m * m == h * h * (length * length) && k * k == q * q) by (nonlinear_arith)
        requires
            m == a * length,
            a == h || a == -h,
            k == q || k == -q,
    ;
}

/// A heading scaled to a length reaches no farther than that length, and
/// falls short of it only by what is lost in cutting the heading and the
/// product to whole sub-units.
pub proof fn lemma_scaled_length(heading: Vec2, length: int)
    requires
        heading.is_heading(),
        0 <= length <= COORD_MAX,
    ensures
        ({
            let reach = heading.spec_scaled(length);
            &&& reach.norm_squared() <= length * length
            &&& ((magnitude(reach.x as int) + 1) * (magnitude(reach.x as int) + 1) + (magnitude(
                reach.y as int,
            ) + 1) * (magnitude(reach.y as int) + 1)) * (UNIT * UNIT) > (UNIT - 2) * (UNIT - 2)
                * (length * length)
        }),
{
    let hx = heading.x as int;
    let hy = heading.y as int;
    let u2 = UNIT * UNIT;
    let l2 = length * length;
    assert(-UNIT <= hx <= UNIT && -UNIT <= hy <= UNIT) by (nonlinear_arith)
        requires
            hx * hx + hy * hy <= 1_000_000_000_000,
            UNIT == 1_000_000,
    ;
    lemma_scaled_axis(hx, length);
    lemma_scaled_axis(hy, length);
    let qx = div_toward_zero(hx * length, UNIT as int);
    let qy = div_toward_zero(hy * length, UNIT as int);
    let kx = magnitude(qx);
    let ky = magnitude(qy);
    assert(l2 >= 0) by (nonlinear_arith)
        requires
            l2 == length * length,
    ;
    assert((hx * hx + hy * hy) * l2 <= u2 * l2 && (hx * hx + hy * hy) * l2 >= (UNIT - 2) * (UNIT
        - 2) * l2) by (nonlinear_arith)
        requires
            (UNIT - 2) * (UNIT - 2) <= hx * hx + hy * hy <= u2,
            l2 >= 0,
    ;
    assert((hx * hx + hy * hy) * l2 == hx * hx * l2 + hy * hy * l2) by (nonlinear_arith);
    assert((qx * qx + qy * qy) * u2 == qx * qx * u2 + qy * qy * u2) by (nonlinear_arith);
    assert(((kx + 1) * (kx + 1) + (ky + 1) * (ky + 1)) * u2 == (kx + 1) * (kx + 1) * u2 + (ky + 1)
        * (ky + 1) * u2) by (nonlinear_arith);
    assert(qx * qx + qy * qy <= l2) by (nonlinear_arith)
        requires
            (qx * qx + qy * qy) * u2 <= u2 * l2,
            u2 == 1_000_000_000_000,
    ;
}

/// A share of a step lies between no step and the whole step.
pub proof fn lemma_share_between(d: int, share: int)
    requires
        share > 0,
    ensures
        d >= 0 ==> 0 <= div_toward_zero(d, share) <= d,
        d <= 0 ==> d <= div_toward_zero(d, share) <= 0,
{
    if d >= 0 {
        assert(0 <= d / share <= d) by (nonlinear_arith)
            requires
                d >= 0,
                share > 0,
        ;
    } else {
        let e = -d;
        assert(0 <= e / share <= e) by (nonlinear_arith)
            requires
                e >= 0,
                share > 0,
        ;
    }
}

fn clamp_to_coord(v: i128) -> (c: i64)
    ensures
        c == clamp_coord(v as int),
{
    if v < -(COORD_MAX as i128) {
        -COORD_MAX
    } else if v > COORD_MAX as i128 {
        COORD_MAX
    } else {
        v as i64
    }
}

} // verus!
