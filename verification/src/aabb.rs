use vstd::prelude::*;
use crate::vector::Vec3;

verus! {

/// An axis-aligned bounding box, given by its two extreme corners.
#[derive(Clone, Copy, Debug, PartialEq, Eq, Structural)]
pub struct AABB {
    pub min: Vec3,
    pub max: Vec3,
}

impl AABB {
    /// A box built from real geometry has `min` below `max` on every axis.
    pub open spec fn well_formed(self) -> bool {
        self.min.le(self.max)
    }

    /// Whether the point `p` lies inside the box, borders included.
    pub open spec fn contains_point(self, p: Vec3) -> bool {
        self.min.le(p) && p.le(self.max)
    }

    /// Whether the box `inner` lies inside this box.
    pub open spec fn contains(self, inner: AABB) -> bool {
        self.min.le(inner.min) && inner.max.le(self.max)
    }

    /// The tight box around two boxes: per-axis minimum of the lower
    /// corners and per-axis maximum of the upper corners.
    pub open spec fn surrounding(a: AABB, b: AABB) -> AABB {
        AABB { min: a.min.lower(b.min), max: a.max.upper(b.max) }
    }

    /// The tight box around three points.
    pub open spec fn around(a: Vec3, b: Vec3, c: Vec3) -> AABB {
        AABB { min: a.lower(b.lower(c)), max: a.upper(b.upper(c)) }
    }

    /// Computes the tight box around two boxes.
    pub fn aabb_surrounding(a: &AABB, b: &AABB) -> (r: AABB)
        ensures
            r == AABB::surrounding(*a, *b),
            r.contains(*a),
            r.contains(*b),
            a.well_formed() || b.well_formed() ==> r.well_formed(),
    {
        AABB { min: a.min.min_with(&b.min), max: a.max.max_with(&b.max) }
    }

    /// Computes the tight box around the three corners of a triangle.
    pub fn around_triangle(a: &Vec3, b: &Vec3, c: &Vec3) -> (r: AABB)
        ensures
            r == AABB::around(*a, *b, *c),
            r.well_formed(),
            r.contains_point(*a),
            r.contains_point(*b),
            r.contains_point(*c),
    {
        let bc_min = b.min_with(c);
        let bc_max = b.max_with(c);
        AABB { min: a.min_with(&bc_min), max: a.max_with(&bc_max) }
    }

    /// A box is its own bounding box.
    pub fn bounding_box(&self) -> (r: Option<AABB>)
        ensures
            r == Some(*self),
    {
        Some(*self)
    }

    /// The union of two boxes contains both of them.
    pub proof fn lemma_surrounding_contains(a: AABB, b: AABB)
        ensures
            AABB::surrounding(a, b).contains(a),
            AABB::surrounding(a, b).contains(b),
    {
    }

    /// The union is the least box that contains both: any box that contains
    /// `a` and `b` contains their union.
    pub proof fn lemma_surrounding_least(a: AABB, b: AABB, outer: AABB)
        requires
            outer.contains(a),
            outer.contains(b),
        ensures
            outer.contains(AABB::surrounding(a, b)),
    {
    }

    /// The union does not depend on the order of its arguments.
    pub proof fn lemma_surrounding_commutative(a: AABB, b: AABB)
        ensures
            AABB::surrounding(a, b) == AABB::surrounding(b, a),
    {
    }

    /// The union does not depend on how three boxes are grouped.
    pub proof fn lemma_surrounding_associative(a: AABB, b: AABB, c: AABB)
        ensures
            AABB::surrounding(AABB::surrounding(a, b), c) == AABB::surrounding(
                a,
                AABB::surrounding(b, c),
            ),
    {
    }
}

impl Default for AABB {
    /// The box that is the single point at the origin.
    fn default() -> (r: AABB)
        ensures
            r.min == (Vec3 { x: 0, y: 0, z: 0 }),
            r.max == (Vec3 { x: 0, y: 0, z: 0 }),
    {
        AABB { min: Vec3::zero(), max: Vec3::zero() }
    }
}

} // verus!
