use vstd::prelude::*;

verus! {

/// A point or direction with three ordered integer coordinates.
#[derive(Clone, Copy, Debug, PartialEq, Eq, Structural)]
pub struct Vec3 {
    pub x: i64,
    pub y: i64,
    pub z: i64,
}

/// A pair of ordered integer coordinates, used for texture coordinates.
#[derive(Clone, Copy, Debug, PartialEq, Eq, Structural)]
pub struct Vec2 {
    pub x: i64,
    pub y: i64,
}

/// The smaller of two coordinates.
pub open spec fn min2(a: i64, b: i64) -> i64 {
    if a <= b { a } else { b }
}

/// The larger of two coordinates.
pub open spec fn max2(a: i64, b: i64) -> i64 {
    if a >= b { a } else { b }
}

/// Computes the smaller of two coordinates.
pub fn min_coord(a: i64, b: i64) -> (r: i64)
    ensures
        r == min2(a, b),
{
    if a <= b { a } else { b }
}

/// Computes the larger of two coordinates.
pub fn max_coord(a: i64, b: i64) -> (r: i64)
    ensures
        r == max2(a, b),
{
    if a >= b { a } else { b }
}

impl Vec3 {
    /// The coordinate on `axis`: 0 is x, 1 is y, anything else is z.
    pub open spec fn axis(self, axis: int) -> i64 {
        if axis == 0 { self.x } else if axis == 1 { self.y } else { self.z }
    }

    /// Builds a vector from its three coordinates.
    pub fn new(x: i64, y: i64, z: i64) -> (r: Vec3)
        ensures
            r == (Vec3 { x, y, z }),
    {
        Vec3 { x, y, z }
    }

    /// The origin.
    pub fn zero() -> (r: Vec3)
        ensures
            r == (Vec3 { x: 0, y: 0, z: 0 }),
    {
        Vec3 { x: 0, y: 0, z: 0 }
    }

    /// Reads the coordinate on one of the three axes.
    pub fn coord(&self, axis: usize) -> (r: i64)
        requires
            axis < 3,
        ensures
            r == self.axis(axis as int),
    {
        if axis == 0 { self.x } else if axis == 1 { self.y } else { self.z }
    }

    /// Per-axis minimum of two vectors.
    pub open spec fn lower(self, other: Vec3) -> Vec3 {
        Vec3 { x: min2(self.x, other.x), y: min2(self.y, other.y), z: min2(self.z, other.z) }
    }

    /// Per-axis maximum of two vectors.
    pub open spec fn upper(self, other: Vec3) -> Vec3 {
        Vec3 { x: max2(self.x, other.x), y: max2(self.y, other.y), z: max2(self.z, other.z) }
    }

    /// Whether every coordinate of `self` is at most that of `other`.
    pub open spec fn le(self, other: Vec3) -> bool {
        self.x <= other.x && self.y <= other.y && self.z <= other.z
    }

    /// Computes the per-axis minimum of two vectors.
    pub fn min_with(&self, other: &Vec3) -> (r: Vec3)
        ensures
            r == self.lower(*other),
    {
        Vec3 {
            x: min_coord(self.x, other.x),
            y: min_coord(self.y, other.y),
            z: min_coord(self.z, other.z),
        }
    }

    /// Computes the per-axis maximum of two vectors.
    pub fn max_with(&self, other: &Vec3) -> (r: Vec3)
        ensures
            r == self.upper(*other),
    {
        Vec3 {
            x: max_coord(self.x, other.x),
            y: max_coord(self.y, other.y),
            z: max_coord(self.z, other.z),
        }
    }
}

} // verus!
