//! Grid points and the rounded-down Euclidean distance between them.

use vstd::prelude::*;
use crate::random::uniform_in;

verus! {

/// A point of the plane with fixed-point coordinates.
#[derive(Clone, Copy, Debug, PartialEq, Eq, Structural)]
pub struct Point {
    pub x: i32,
    pub y: i32,
}

/// How many grid units make one plotting unit.
pub const UNITS_PER_PLOT_UNIT: i32 = 1_000;

/// No two grid points are further apart than this.
pub const MAX_DISTANCE: u64 = 0x1_6a09_e666;

/// `r` is the integer square root of `n`, rounded down.
pub open spec fn is_floor_sqrt(n: nat, r: nat) -> bool {
    r * r <= n < (r + 1) * (r + 1)
}

/// The integer square root of `n`, rounded down.
pub open spec fn floor_sqrt(n: nat) -> nat {
    choose|r: nat| is_floor_sqrt(n, r)
}

/// The squared Euclidean distance between two points.
pub open spec fn sq_distance(a: Point, b: Point) -> nat {
    ((a.x - b.x) * (a.x - b.x) + (a.y - b.y) * (a.y - b.y)) as nat
}

/// The Euclidean distance between two points, rounded down to a whole unit.
pub open spec fn distance(a: Point, b: Point) -> nat {
    floor_sqrt(sq_distance(a, b))
}

/// Only one number is the rounded-down square root of `n`.
pub proof fn lemma_floor_sqrt_unique(n: nat, r: nat)
    requires
        is_floor_sqrt(n, r),
    ensures
        floor_sqrt(n) == r,
{
    let s = floor_sqrt(n);
    assert(is_floor_sqrt(n, s));
    if s < r {
        assert((s + 1) * (s + 1) <= r * r) by (nonlinear_arith)
            requires
                s + 1 <= r,
        ;
    } else if r < s {
        assert((r + 1) * (r + 1) <= s * s) by (nonlinear_arith)
            requires
                r + 1 <= s,
        ;
    }
}

/// The rounded-down root is at least `r` exactly when `n` is at least `r * r`.
pub proof fn lemma_floor_sqrt_at_least(n: nat, r: nat)
    ensures
        floor_sqrt(n) >= r <==> n >= r * r,
{
    lemma_floor_sqrt_exists(n);
    let s = floor_sqrt(n);
    if s >= r {
        assert(r * r <= s * s) by (nonlinear_arith)
            requires
                r <= s,
        ;
    } else {
        assert((s + 1) * (s + 1) <= r * r) by (nonlinear_arith)
            requires
                s + 1 <= r,
        ;
    }
}

/// Every number has a rounded-down square root.
pub proof fn lemma_floor_sqrt_exists(n: nat)
    ensures
        is_floor_sqrt(n, floor_sqrt(n)),
        floor_sqrt(n) <= n,
    decreases n,
{
    if n == 0 {
        assert(0nat * 0nat == 0 && (0nat + 1) * (0nat + 1) == 1) by (nonlinear_arith);
        assert(is_floor_sqrt(0, 0));
    } else {
        lemma_floor_sqrt_exists((n - 1) as nat);
        let p = floor_sqrt((n - 1) as nat);
        if (p + 1) * (p + 1) <= n {
            assert((p + 2) * (p + 2) > n) by (nonlinear_arith)
                requires
                    n - 1 < (p + 1) * (p + 1),
            ;
            assert(is_floor_sqrt(n, p + 1));
        } else {
            assert(is_floor_sqrt(n, p));
        }
    }
    let s = floor_sqrt(n);
    assert(s <= n) by (nonlinear_arith)
        requires
            s * s <= n,
    ;
}

/// The distance does not depend on the direction of travel.
pub proof fn lemma_distance_symmetric(a: Point, b: Point)
    ensures
        distance(a, b) == distance(b, a),
{
    assert(sq_distance(a, b) == sq_distance(b, a)) by (nonlinear_arith);
}

/// Two points are at distance zero exactly when they are the same point.
pub proof fn lemma_distance_zero_iff_equal(a: Point, b: Point)
    ensures
        distance(a, b) == 0 <==> a == b,
{
    let n = sq_distance(a, b);
    lemma_floor_sqrt_at_least(n, 1);
    let dx = a.x - b.x;
    let dy = a.y - b.y;
    assert(dx * dx + dy * dy >= 1 <==> (dx != 0 || dy != 0)) by (nonlinear_arith);
}

/// No two grid points are further apart than `MAX_DISTANCE`.
pub proof fn lemma_distance_bound(a: Point, b: Point)
    ensures
        distance(a, b) <= MAX_DISTANCE,
{
    let dx = a.x - b.x;
    let dy = a.y - b.y;
    assert(0 <= dx * dx <= 0xffff_ffff * 0xffff_ffff) by (nonlinear_arith)
        requires
            -0xffff_ffff <= dx <= 0xffff_ffff,
    ;
    assert(0 <= dy * dy <= 0xffff_ffff * 0xffff_ffff) by (nonlinear_arith)
        requires
            -0xffff_ffff <= dy <= 0xffff_ffff,
    ;
    let bound: nat = (MAX_DISTANCE + 1) as nat;
    lemma_floor_sqrt_at_least(sq_distance(a, b), bound);
    assert(bound * bound > 2 * (0xffff_ffff * 0xffff_ffff)) by (nonlinear_arith)
        requires
            bound == 0x1_6a09_e667,
    ;
}

/// Computes the rounded-down square root by bisection.
pub fn isqrt(n: u128) -> (r: u64)
    ensures
        r == floor_sqrt(n as nat),
{
    let mut lo: u128 = 0;
    let mut hi: u128 = 0x1_0000_0000_0000_0000;
    while hi - lo > 1
        invariant
            lo < hi <= 0x1_0000_0000_0000_0000,
            lo * lo <= n < hi * hi,
        decreases hi - lo,
    {
        let mid: u128 = lo + (hi - lo) / 2;
        assert(mid * mid <= 0xffff_ffff_ffff_ffff * 0xffff_ffff_ffff_ffff) by (nonlinear_arith)
            requires
                0 <= mid <= 0xffff_ffff_ffff_ffff,
        ;
        if mid * mid <= n {
            lo = mid;
        } else {
            hi = mid;
        }
    }
    proof {
        lemma_floor_sqrt_unique(n as nat, lo as nat);
    }
    lo as u64
}

impl Point {
    /// The origin of the plane.
    pub open spec fn origin() -> Point {
        Point { x: 0, y: 0 }
    }

    /// Makes the point with the given coordinates.
    pub fn new(x: i32, y: i32) -> (p: Point)
        ensures
            p == (Point { x, y }),
    {
        Point { x, y }
    }

    /// The exact squared Euclidean distance between `p1` and `p2`.
    pub fn squared_distance_between(p1: &Point, p2: &Point) -> (sq: u128)
        ensures
            sq == sq_distance(*p1, *p2),
    {
        let dx: i64 = p1.x as i64 - p2.x as i64;
        let dy: i64 = p1.y as i64 - p2.y as i64;
        let ax: u128 = if dx < 0 { (-dx) as u128 } else { dx as u128 };
        let ay: u128 = if dy < 0 { (-dy) as u128 } else { dy as u128 };
        assert(ax * ax == dx * dx && ax * ax <= 0xffff_ffff * 0xffff_ffff) by (nonlinear_arith)
            requires
                ax == dx || ax == -dx,
                0 <= ax <= 0xffff_ffff,
        ;
        assert(ay * ay == dy * dy && ay * ay <= 0xffff_ffff * 0xffff_ffff) by (nonlinear_arith)
            requires
                ay == dy || ay == -dy,
                0 <= ay <= 0xffff_ffff,
        ;
        ax * ax + ay * ay
    }

    /// The rounded-down Euclidean distance between `p1` and `p2`.
    pub fn distance_between(p1: &Point, p2: &Point) -> (d: u64)
        ensures
            d == distance(*p1, *p2),
            d <= MAX_DISTANCE,
    {
        proof {
            lemma_distance_bound(*p1, *p2);
        }
        isqrt(Point::squared_distance_between(p1, p2))
    }

    /// The rounded-down Euclidean distance from this point to `other_point`.
    pub fn distance_to(&self, other_point: &Point) -> (d: u64)
        ensures
            d == distance(*self, *other_point),
            d <= MAX_DISTANCE,
    {
        Point::distance_between(self, other_point)
    }

    /// Draws a point whose coordinates are both in `[-radius, radius)`.
    pub fn generate_random(radius: i32) -> (p: Point)
        requires
            radius > 0,
        ensures
            p.within(radius as int),
    {
        let mut rng = rand::thread_rng();
        let span: u64 = 2 * (radius as u64);
        let ux: u64 = uniform_in(&mut rng, 0, span);
        let uy: u64 = uniform_in(&mut rng, 0, span);
        Point::from_offsets(ux, uy, radius)
    }

    /// The point whose coordinates lie `ux` and `uy` above `-radius`.
    pub fn from_offsets(ux: u64, uy: u64, radius: i32) -> (p: Point)
        requires
            radius > 0,
            ux < 2 * radius,
            uy < 2 * radius,
        ensures
            p.x == ux - radius,
            p.y == uy - radius,
    {
        let x: i64 = ux as i64 - radius as i64;
        let y: i64 = uy as i64 - radius as i64;
        Point { x: x as i32, y: y as i32 }
    }

    /// Both coordinates lie in `[-radius, radius)`.
    pub open spec fn within(self, radius: int) -> bool {
        -radius <= self.x < radius && -radius <= self.y < radius
    }

    /// The coordinates as a pair, `x` first.
    pub fn to_value(&self) -> (v: [i32; 2])
        ensures
            v@ == seq![self.x, self.y],
    {
        let v: [i32; 2] = [self.x, self.y];
        assert(v@ =~= seq![self.x, self.y]);
        v
    }
}

} // verus!
