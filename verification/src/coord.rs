//! Points of the integer lattice.
//!
//! The same type serves for world cell coordinates, for coordinates local to
//! a chunk and for chunk-grid coordinates; which of them a value is follows
//! from where it is used.
use vstd::prelude::*;

verus! {

/// A point with three signed integer coordinates.
#[derive(Clone, Copy, Debug, PartialEq, Eq, Structural)]
pub struct Coord {
    pub x: i32,
    pub y: i32,
    pub z: i32,
}

impl Coord {
    /// The point `(x, y, z)`.
    pub fn new(x: i32, y: i32, z: i32) -> (c: Coord)
        ensures
            c == (Coord { x, y, z }),
    {
        Coord { x, y, z }
    }

    /// The square of the Euclidean distance between two points.
    pub open spec fn dist2(self, other: Coord) -> int {
        (self.x - other.x) * (self.x - other.x) + (self.y - other.y) * (self.y - other.y) + (self.z
            - other.z) * (self.z - other.z)
    }

    /// Computes the square of the Euclidean distance to `other`. The result is
    /// exact for every pair of points.
    pub fn distance_squared(self, other: Coord) -> (d: u128)
        ensures
            d == self.dist2(other),
    {
        let sx: u128 = square_of_difference(self.x, other.x);
        let sy: u128 = square_of_difference(self.y, other.y);
        let sz: u128 = square_of_difference(self.z, other.z);
        sx + sy + sz
    }
}

/// Computes `(a - b)^2` without overflow.
fn square_of_difference(a: i32, b: i32) -> (s: u128)
    ensures
        s == (a - b) * (a - b),
        s <= 0x1_0000_0000_0000_0000,
{
    let d: i64 = a as i64 - b as i64;
    let m: u64 = if d < 0 {
        (-d) as u64
    } else {
        d as u64
    };
    assert(m * m == (a - b) * (a - b)) by (nonlinear_arith)
        requires
            m == a - b || m == -(a - b),
    ;
    assert(m * m <= 0x1_0000_0000_0000_0000) by (nonlinear_arith)
        requires
            0 <= m <= 0x1_0000_0000,
    ;
    (m as u128) * (m as u128)
}

} // verus!
