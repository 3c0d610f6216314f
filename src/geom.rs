use vstd::prelude::*;

verus! {

/// A concrete point on the canvas, in whole logical units.
#[derive(Clone, Copy, Debug, PartialEq, Eq, Structural)]
pub struct Point {
    pub x: i64,
    pub y: i64,
}

/// Distance, in logical units, under which the cursor is considered on an anchor.
pub const HIT_THRESHOLD: i64 = 5;

/// The arithmetic mean of two coordinates, rounded down to a whole unit.
pub open spec fn mean(a: int, b: int) -> int {
    (a + b) / 2
}

/// The componentwise mean of two points.
pub open spec fn mid_spec(a: Point, b: Point) -> Point {
    Point { x: mean(a.x as int, b.x as int) as i64, y: mean(a.y as int, b.y as int) as i64 }
}

/// The square of the Euclidean distance between two points.
pub open spec fn dist_sq(a: Point, b: Point) -> int {
    let dx = a.x as int - b.x as int;
    let dy = a.y as int - b.y as int;
    dx * dx + dy * dy
}

/// Whether `p` lies strictly within the hit threshold of `q`.
pub open spec fn within_threshold(p: Point, q: Point) -> bool {
    dist_sq(p, q) < HIT_THRESHOLD * HIT_THRESHOLD
}

proof fn lemma_mean_bounds(a: int, b: int)
    ensures
        a <= b ==> a <= mean(a, b) <= b,
        b <= a ==> b <= mean(a, b) <= a,
{
}

/// The mean of two coordinates, rounded down.
pub fn mean_coord(a: i64, b: i64) -> (r: i64)
    ensures
        r == mean(a as int, b as int),
{
    proof {
        lemma_mean_bounds(a as int, b as int);
    }
    let s: i128 = a as i128 + b as i128;
    let h: i128 = if s >= 0 {
        s / 2
    } else {
        -((-s + 1) / 2)
    };
    h as i64
}

/// The midpoint of the segment from `a` to `b`.
pub fn midpoint(a: Point, b: Point) -> (r: Point)
    ensures
        r == mid_spec(a, b),
{
    Point { x: mean_coord(a.x, b.x), y: mean_coord(a.y, b.y) }
}

/// The squared distance between two points, or `None` when the points differ by
/// the hit threshold or more along either axis (and so are not within it).
pub fn near_dist_sq(p: Point, q: Point) -> (r: Option<u64>)
    ensures
        r.is_some() ==> r.unwrap() as int == dist_sq(p, q),
        r.is_none() ==> !within_threshold(p, q),
        within_threshold(p, q) ==> r.is_some(),
{
    let dx: i128 = p.x as i128 - q.x as i128;
    let dy: i128 = p.y as i128 - q.y as i128;
    if dx <= -HIT_THRESHOLD as i128 || dx >= HIT_THRESHOLD as i128 || dy <= -HIT_THRESHOLD as i128
        || dy >= HIT_THRESHOLD as i128 {
        proof {
            let (a, b) = (dx as int, dy as int);
            assert(a * a >= 25 || b * b >= 25) by (nonlinear_arith)
                requires a <= -5 || a >= 5 || b <= -5 || b >= 5;
            assert(a * a >= 0 && b * b >= 0) by (nonlinear_arith);
        }
        return None;
    }
    proof {
        let (a, b) = (dx as int, dy as int);
        assert(a * a < 25 && b * b < 25 && a * a >= 0 && b * b >= 0) by (nonlinear_arith)
            requires -5 < a < 5, -5 < b < 5;
    }
    let d: u64 = (dx * dx + dy * dy) as u64;
    Some(d)
}

} // verus!
