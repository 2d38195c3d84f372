use vstd::prelude::*;

verus! {

/// A seed point with signed integer coordinates.
#[derive(Debug, Clone, Copy, PartialEq, Eq, Structural)]
pub struct Point {
    pub x: i64,
    pub y: i64,
}

/// Squared Euclidean distance from `p` to the pixel `(px, py)`.
pub open spec fn sq_dist(p: Point, px: int, py: int) -> nat {
    ((p.x - px) * (p.x - px) + (p.y - py) * (p.y - py)) as nat
}

impl Point {
    pub fn new(x: i64, y: i64) -> (r: Point)
        ensures
            r.x == x,
            r.y == y,
    {
        Point { x, y }
    }

    /// The exact squared distance to the pixel `(x, y)`; it always fits in 128 bits.
    pub fn squared_dist(self, x: u32, y: u32) -> (r: u128)
        ensures
            r == sq_dist(self, x as int, y as int),
    {
        let a: i128 = self.x as i128 - x as i128;
        let b: i128 = self.y as i128 - y as i128;
        assert(0 <= a * a < 0x8000_0000_0000_0000_0000_0000_0000_0000) by (nonlinear_arith)
            requires
                -0x8000_0001_0000_0000 < a < 0x8000_0000_0000_0000,
        ;
        assert(0 <= b * b < 0x8000_0000_0000_0000_0000_0000_0000_0000) by (nonlinear_arith)
            requires
                -0x8000_0001_0000_0000 < b < 0x8000_0000_0000_0000,
        ;
        let aa: u128 = (a * a) as u128;
        let bb: u128 = (b * b) as u128;
        aa + bb
    }
}

} // verus!
