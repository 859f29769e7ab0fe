use vstd::prelude::*;
use crate::aabb::AABB;
use crate::hit::Ray;
use crate::vector::{max2, max_coord, min2, min_coord};

verus! {

/// Where a ray crosses the two planes that bound a box on one axis: the
/// distance to the plane of the lower corner, the distance to the plane of
/// the upper corner, and whether the ray runs against the axis.
#[derive(Clone, Copy, Debug, PartialEq, Eq, Structural)]
pub struct Slab {
    pub t_lower: i64,
    pub t_upper: i64,
    pub reversed: bool,
}

impl Slab {
    /// The distance at which the ray enters the slab: the two crossings
    /// trade places where the ray runs against the axis.
    pub open spec fn entry(self) -> i64 {
        if self.reversed { self.t_upper } else { self.t_lower }
    }

    /// The distance at which the ray leaves the slab.
    pub open spec fn exit(self) -> i64 {
        if self.reversed { self.t_lower } else { self.t_upper }
    }
}

impl AABB {
    /// Whether `out` is a possible result of the slab test from `axis` on,
    /// with the interval already narrowed to `[lo, hi]`.
    ///
    /// On each axis the interval is cut to the part inside the slab, as
    /// `crossings` reports it; the test fails as soon as the interval is
    /// empty, and succeeds when all three axes are done.
    pub open spec fn slab_test<F>(
        self,
        ray: Ray,
        axis: int,
        lo: i64,
        hi: i64,
        crossings: F,
        out: bool,
    ) -> bool where F: Fn(&AABB, &Ray, usize) -> Slab
        decreases 3 - axis,
    {
        if axis < 0 || axis >= 3 {
            out
        } else {
            exists|s: Slab| #[trigger]
                call_ensures(crossings, (&self, &ray, axis as usize), s) && if min2(s.exit(), hi)
                    <= max2(s.entry(), lo) {
                    !out
                } else {
                    self.slab_test(
                        ray,
                        axis + 1,
                        max2(s.entry(), lo),
                        min2(s.exit(), hi),
                        crossings,
                        out,
                    )
                }
        }
    }

    /// Whether `out` is a possible result of testing `ray` against this box
    /// over `[t_min, t_max]`.
    pub open spec fn ray_test<F>(self, ray: Ray, t_min: i64, t_max: i64, crossings: F, out: bool) -> bool
        where F: Fn(&AABB, &Ray, usize) -> Slab {
        self.slab_test(ray, 0, t_min, t_max, crossings, out)
    }

    /// Whether the three slabs leave a non-empty part of `[t_min, t_max]`:
    /// the latest entry lies strictly before the earliest exit.
    pub open spec fn overlap(t_min: i64, t_max: i64, x: Slab, y: Slab, z: Slab) -> bool {
        max2(z.entry(), max2(y.entry(), max2(x.entry(), t_min))) < min2(
            z.exit(),
            min2(y.exit(), min2(x.exit(), t_max)),
        )
    }

    /// Tests whether `ray` passes through the box within `[t_min, t_max]`.
    /// `crossings` gives the ray's two crossing distances on an axis.
    pub fn intersect_ray<F>(&self, ray: &Ray, t_min: i64, t_max: i64, crossings: &F) -> (out:
        bool) where F: Fn(&AABB, &Ray, usize) -> Slab
        requires
            forall|axis: usize| axis < 3 ==> call_requires(*crossings, (self, ray, axis)),
        ensures
            self.ray_test(*ray, t_min, t_max, *crossings, out),
    {
        let mut lo: i64 = t_min;
        let mut hi: i64 = t_max;
        let mut axis: usize = 0;
        while axis < 3
            invariant
                axis <= 3,
                forall|a: usize| a < 3 ==> call_requires(*crossings, (self, ray, a)),
                forall|out: bool|
                    self.slab_test(*ray, axis as int, lo, hi, *crossings, out) ==> self.slab_test(
                        *ray,
                        0,
                        t_min,
                        t_max,
                        *crossings,
                        out,
                    ),
            decreases 3 - axis,
        {
            let s = crossings(self, ray, axis);
            let (entry, exit) = if s.reversed {
                (s.t_upper, s.t_lower)
            } else {
                (s.t_lower, s.t_upper)
            };
            let ghost before = (lo, hi);
            lo = max_coord(entry, lo);
            hi = min_coord(exit, hi);
            if hi <= lo {
                assert(self.slab_test(*ray, axis as int, before.0, before.1, *crossings, false));
                return false;
            }
            assert forall|out: bool|
                self.slab_test(*ray, axis + 1, lo, hi, *crossings, out) implies self.slab_test(
                *ray,
                0,
                t_min,
                t_max,
                *crossings,
                out,
            ) by {
                assert(self.slab_test(*ray, axis as int, before.0, before.1, *crossings, out));
            }
            axis += 1;
        }
        assert(self.slab_test(*ray, 3, lo, hi, *crossings, true));
        true
    }

    /// Where `crossings` gives one answer for each axis, the slab test
    /// passes exactly when the three slabs and the interval overlap: giving
    /// up early at an empty interval changes nothing.
    pub proof fn lemma_ray_test_is_overlap<F>(
        self,
        ray: Ray,
        t_min: i64,
        t_max: i64,
        crossings: F,
        x: Slab,
        y: Slab,
        z: Slab,
        out: bool,
    ) where F: Fn(&AABB, &Ray, usize) -> Slab
        requires
            forall|s: Slab| call_ensures(crossings, (&self, &ray, 0usize), s) ==> s == x,
            forall|s: Slab| call_ensures(crossings, (&self, &ray, 1usize), s) ==> s == y,
            forall|s: Slab| call_ensures(crossings, (&self, &ray, 2usize), s) ==> s == z,
            self.ray_test(ray, t_min, t_max, crossings, out),
        ensures
            out == AABB::overlap(t_min, t_max, x, y, z),
    {
        reveal_with_fuel(AABB::slab_test, 4);
    }
}

} // verus!
