//! Points of the map and the distance tests that the controllers use.
//!
//! Coordinates are non-negative fixed-point values: one map unit is 1000.
use vstd::prelude::*;

verus! {

/// Fixed-point scale of a coordinate: 1000 steps per map unit.
pub const UNIT: u32 = 1000;

/// A point of the map, in thousandths of a map unit.
#[derive(Clone, Copy, Debug, PartialEq, Eq, Structural)]
pub struct Position2D {
    pub x: u32,
    pub y: u32,
}

/// The squared Euclidean distance between two points.
pub open spec fn dist_sq(a: Position2D, b: Position2D) -> int {
    (a.x - b.x) * (a.x - b.x) + (a.y - b.y) * (a.y - b.y)
}

/// `a` lies strictly closer to `b` than `radius`.
pub open spec fn in_radius(a: Position2D, b: Position2D, radius: u32) -> bool {
    dist_sq(a, b) < radius * radius
}

pub(crate) proof fn lemma_square_bound(d: int)
    requires
        -0x1_0000_0000 <= d <= 0x1_0000_0000,
    ensures
        0 <= d * d <= 0x1_0000_0000_0000_0000,
{
    assert(0 <= d * d <= 0x1_0000_0000_0000_0000) by (nonlinear_arith)
        requires
            -0x1_0000_0000 <= d <= 0x1_0000_0000,
    ;
}

/// The squared distance between two points, exactly.
pub fn dist_squared(a: &Position2D, b: &Position2D) -> (r: u128)
    ensures
        r == dist_sq(*a, *b),
{
    let dx: i64 = a.x as i64 - b.x as i64;
    let dy: i64 = a.y as i64 - b.y as i64;
    proof {
        lemma_square_bound(dx as int);
        lemma_square_bound(dy as int);
    }
    let sx: u128 = ((dx as i128) * (dx as i128)) as u128;
    let sy: u128 = ((dy as i128) * (dy as i128)) as u128;
    sx + sy
}

/// Whether `a` is strictly closer to `b` than `radius`.
pub fn within(a: &Position2D, b: &Position2D, radius: u32) -> (r: bool)
    ensures
        r == in_radius(*a, *b, radius),
{
    let d = dist_squared(a, b);
    proof {
        lemma_square_bound(radius as int);
    }
    let r2: u128 = (radius as u128) * (radius as u128);
    d < r2
}

/// Sum of the x coordinates of a sequence of points.
pub open spec fn sum_x(s: Seq<Position2D>) -> int
    decreases s.len(),
{
    if s.len() == 0 {
        0
    } else {
        sum_x(s.drop_last()) + s.last().x
    }
}

/// Sum of the y coordinates of a sequence of points.
pub open spec fn sum_y(s: Seq<Position2D>) -> int
    decreases s.len(),
{
    if s.len() == 0 {
        0
    } else {
        sum_y(s.drop_last()) + s.last().y
    }
}

/// The centroid of a non-empty sequence of points, rounded down.
pub open spec fn centroid(s: Seq<Position2D>) -> Position2D
    recommends
        s.len() > 0,
{
    Position2D { x: (sum_x(s) / (s.len() as int)) as u32, y: (sum_y(s) / (s.len() as int)) as u32 }
}

proof fn lemma_sums_bounded(s: Seq<Position2D>)
    ensures
        0 <= sum_x(s) <= s.len() * (u32::MAX as int),
        0 <= sum_y(s) <= s.len() * (u32::MAX as int),
    decreases s.len(),
{
    if s.len() > 0 {
        lemma_sums_bounded(s.drop_last());
    }
}

proof fn lemma_average_fits(sum: int, n: int)
    requires
        n > 0,
        0 <= sum <= n * (u32::MAX as int),
    ensures
        0 <= sum / n <= u32::MAX,
{
    assert(0 <= sum / n <= u32::MAX) by (nonlinear_arith)
        requires
            n > 0,
            0 <= sum <= n * (u32::MAX as int),
    ;
}

/// The centroid of the given points (each coordinate's mean, rounded down).
pub fn average_pos(positions: &Vec<Position2D>) -> (r: Position2D)
    requires
        positions@.len() > 0,
    ensures
        r == centroid(positions@),
{
    let mut sx: u128 = 0;
    let mut sy: u128 = 0;
    let mut i: usize = 0;
    while i < positions.len()
        invariant
            i <= positions@.len(),
            sx == sum_x(positions@.subrange(0, i as int)),
            sy == sum_y(positions@.subrange(0, i as int)),
        decreases positions@.len() - i,
    {
        proof {
            let s = positions@.subrange(0, i as int);
            let t = positions@.subrange(0, i + 1);
            assert(t.drop_last() =~= s);
            lemma_sums_bounded(s);
            assert(i < 0x1_0000_0000_0000_0000);
            assert(s.len() * (u32::MAX as int) <= 0x1_0000_0000_0000_0000 * (u32::MAX as int))
                by (nonlinear_arith)
                requires
                    s.len() < 0x1_0000_0000_0000_0000,
            ;
        }
        sx = sx + positions[i].x as u128;
        sy = sy + positions[i].y as u128;
        i = i + 1;
    }
    proof {
        assert(positions@.subrange(0, positions@.len() as int) =~= positions@);
        lemma_sums_bounded(positions@);
        lemma_average_fits(sum_x(positions@), positions@.len() as int);
        lemma_average_fits(sum_y(positions@), positions@.len() as int);
    }
    let n = positions.len() as u128;
    Position2D { x: (sx / n) as u32, y: (sy / n) as u32 }
}

} // verus!
