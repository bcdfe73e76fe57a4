//! Positions in 3D space.
use vstd::prelude::*;

verus! {

/// A point in 3D space, in whole centimetres.
#[derive(Debug, Clone, Copy, PartialEq, Eq, Structural)]
pub struct Point {
    pub x: i32,
    pub y: i32,
    pub z: i32,
}

/// The square of the Euclidean distance between two points, in square
/// centimetres.
pub open spec fn distance_squared_spec(a: Point, b: Point) -> int {
    (a.x - b.x) * (a.x - b.x) + (a.y - b.y) * (a.y - b.y) + (a.z - b.z) * (a.z - b.z)
}

proof fn lemma_square_bound(d: int)
    requires
        -0xffff_ffff <= d <= 0xffff_ffff,
    ensures
        0 <= d * d <= 0xffff_fffe_0000_0001,
{
    assert(0 <= d * d <= 0xffff_fffe_0000_0001) by (nonlinear_arith)
        requires
            -0xffff_ffff <= d <= 0xffff_ffff,
    ;
}

impl Point {
    /// Create a new [`Point`] with the given coordinates.
    pub fn new(x: i32, y: i32, z: i32) -> (r: Self)
        ensures
            r == (Point { x, y, z }),
    {
        Point { x, y, z }
    }

    /// The square of the Euclidean distance to `other`. Squaring keeps the
    /// value exact; the distance itself is its square root.
    pub fn distance_squared(&self, other: &Self) -> (r: u128)
        ensures
            r as int == distance_squared_spec(*self, *other),
    {
        let dx: i128 = self.x as i128 - other.x as i128;
        let dy: i128 = self.y as i128 - other.y as i128;
        let dz: i128 = self.z as i128 - other.z as i128;
        proof {
            lemma_square_bound(dx as int);
            lemma_square_bound(dy as int);
            lemma_square_bound(dz as int);
        }
        let sx: i128 = dx * dx;
        let sy: i128 = dy * dy;
        let sz: i128 = dz * dz;
        (sx + sy + sz) as u128
    }
}

} // verus!
