use vstd::prelude::*;
use crate::aabb::AABB;
use crate::hit::{Ray, RayHit};
use crate::mesh::IndexedTriangle;
use crate::slab::Slab;

verus! {

/// A node of a bounding-volume hierarchy: either a leaf that holds one
/// triangle, or an interior node that owns two children.
#[derive(Debug)]
pub struct BVHNode {
    pub aabb: AABB,
    pub left: Option<Box<BVHNode>>,
    pub right: Option<Box<BVHNode>>,
    pub primitive: Option<IndexedTriangle>,
}

impl BVHNode {
    /// A leaf holds a readable triangle, has no children and carries that
    /// triangle's box. An interior node holds no triangle, has exactly two
    /// well-formed children and carries the union of their boxes.
    pub open spec fn well_formed(self) -> bool
        decreases self,
    {
        match self.primitive {
            Some(tri) => self.left.is_none() && self.right.is_none() && tri.readable() && self.aabb
                == tri.bounds(),
            None => match (self.left, self.right) {
                (Some(l), Some(r)) => l.well_formed() && r.well_formed() && self.aabb
                    == AABB::surrounding(l.aabb, r.aabb),
                _ => false,
            },
        }
    }

    /// The triangles at the leaves, from left to right.
    pub open spec fn leaves(self) -> Seq<IndexedTriangle>
        decreases self,
    {
        match self.primitive {
            Some(tri) => seq![tri],
            None => match (self.left, self.right) {
                (Some(l), Some(r)) => l.leaves() + r.leaves(),
                _ => Seq::empty(),
            },
        }
    }

    /// The number of interior nodes.
    pub open spec fn interior_total(self) -> nat
        decreases self,
    {
        match self.primitive {
            Some(tri) => 0,
            None => match (self.left, self.right) {
                (Some(l), Some(r)) => 1 + l.interior_total() + r.interior_total(),
                _ => 1,
            },
        }
    }

    /// Every interior node was split at the median of an ordering along one
    /// axis: its left subtree holds half of its leaves, rounded down, and on
    /// some axis no triangle on the left starts after one on the right.
    pub open spec fn median_split(self) -> bool
        decreases self,
    {
        match self.primitive {
            Some(tri) => true,
            None => match (self.left, self.right) {
                (Some(l), Some(r)) => {
                    &&& l.median_split()
                    &&& r.median_split()
                    &&& l.leaves().len() == (l.leaves().len() + r.leaves().len()) / 2
                    &&& exists|axis: int|
                        0 <= axis < 3 && separated_on_axis(l.leaves(), r.leaves(), axis)
                },
                _ => false,
            },
        }
    }

    /// The number of edges on the longest way from this node down to a leaf.
    pub open spec fn height(self) -> nat
        decreases self,
    {
        match self.primitive {
            Some(tri) => 0,
            None => match (self.left, self.right) {
                (Some(l), Some(r)) => if l.height() >= r.height() {
                    1 + l.height()
                } else {
                    1 + r.height()
                },
                _ => 0,
            },
        }
    }

    /// A tree split at the median is balanced: two to the power of its
    /// height is less than twice the number of its leaves, so the height is
    /// the logarithm of the number of leaves, rounded up.
    pub proof fn lemma_median_split_is_balanced(self)
        requires
            self.well_formed(),
            self.median_split(),
        ensures
            power_of_two(self.height()) < 2 * self.leaves().len(),
        decreases self,
    {
        match self.primitive {
            Some(tri) => {},
            None => {
                let l = self.left.unwrap();
                let r = self.right.unwrap();
                l.lemma_median_split_is_balanced();
                r.lemma_median_split_is_balanced();
                l.lemma_node_totals();
                r.lemma_node_totals();
                let n = l.leaves().len() + r.leaves().len();
                assert(self.leaves().len() == n);
                assert(power_of_two(l.height()) < n);
                assert(power_of_two(r.height()) < n) by {
                    if r.height() > 0 {
                        assert(power_of_two(r.height()) == 2 * power_of_two(
                            (r.height() - 1) as nat,
                        ));
                    }
                }
            },
        }
    }

    /// The box of a well-formed node contains the box of every triangle
    /// below it, and every such triangle is readable.
    pub proof fn lemma_box_contains_leaves(self, i: int)
        requires
            self.well_formed(),
            0 <= i < self.leaves().len(),
        ensures
            self.aabb.contains(self.leaves()[i].bounds()),
            self.leaves()[i].readable(),
        decreases self,
    {
        match self.primitive {
            Some(tri) => {},
            None => {
                let l = self.left.unwrap();
                let r = self.right.unwrap();
                if i < l.leaves().len() {
                    l.lemma_box_contains_leaves(i);
                } else {
                    r.lemma_box_contains_leaves(i - l.leaves().len());
                }
            },
        }
    }

    /// A well-formed tree has at least one leaf, and one interior node less
    /// than it has leaves.
    pub proof fn lemma_node_totals(self)
        requires
            self.well_formed(),
        ensures
            self.leaves().len() >= 1,
            self.interior_total() + 1 == self.leaves().len(),
        decreases self,
    {
        match self.primitive {
            Some(tri) => {},
            None => {
                self.left.unwrap().lemma_node_totals();
                self.right.unwrap().lemma_node_totals();
            },
        }
    }

    /// The box of this node.
    pub fn bounding_box(&self) -> (r: Option<AABB>)
        ensures
            r == Some(self.aabb),
    {
        Some(self.aabb)
    }

    /// Counts the leaves of the tree.
    pub fn leaf_count(&self) -> (n: usize)
        requires
            self.well_formed(),
            self.leaves().len() <= usize::MAX,
        ensures
            n == self.leaves().len(),
        decreases self,
    {
        match &self.primitive {
            Some(_) => 1,
            None => match (&self.left, &self.right) {
                (Some(l), Some(r)) => {
                    let a: usize = l.leaf_count();
                    let b: usize = r.leaf_count();
                    a + b
                },
                _ => 0,
            },
        }
    }
}

/// Two to the power of `k`.
pub open spec fn power_of_two(k: nat) -> nat
    decreases k,
{
    if k == 0 {
        1
    } else {
        2 * power_of_two((k - 1) as nat)
    }
}

/// The upper bound for the search of the right subtree: the distance of the
/// hit found on the left, or the caller's bound where the left gave none.
pub open spec fn tightened(left_hit: Option<RayHit>, t_max: i64) -> i64 {
    match left_hit {
        Some(h) => h.distance,
        None => t_max,
    }
}

/// The hit that an interior node returns: the one from the right subtree
/// where there is one, since it was searched no farther than the left hit;
/// else the one from the left.
pub open spec fn preferred(left_hit: Option<RayHit>, right_hit: Option<RayHit>) -> Option<RayHit> {
    if right_hit.is_some() {
        right_hit
    } else {
        left_hit
    }
}

impl BVHNode {
    /// Whether `out` is a possible result of the nearest-hit search of this
    /// tree over `[t_min, t_max]`, given what the caller supplies:
    /// `crossings` for the slab test of a ray against a box, and
    /// `hits_primitive` for the test of a ray against a triangle.
    ///
    /// A leaf answers with its triangle's test. An interior node first tests
    /// its box and answers with no hit where that fails. Else it searches
    /// the left subtree over the same interval, then the right subtree with
    /// the upper bound tightened to the left hit, and prefers the right
    /// result.
    pub open spec fn traversal<B, P>(
        self,
        ray: Ray,
        t_min: i64,
        t_max: i64,
        crossings: B,
        hits_primitive: P,
        out: Option<RayHit>,
    ) -> bool where
        B: Fn(&AABB, &Ray, usize) -> Slab,
        P: Fn(&IndexedTriangle, &Ray, i64, i64) -> Option<RayHit>,

        decreases self,
    {
        match self.primitive {
            Some(tri) => call_ensures(hits_primitive, (&tri, &ray, t_min, t_max), out),
            None => match (self.left, self.right) {
                (Some(l), Some(r)) => {
                    ||| self.aabb.ray_test(ray, t_min, t_max, crossings, false) && out.is_none()
                    ||| self.aabb.ray_test(ray, t_min, t_max, crossings, true)
                        && exists|lh: Option<RayHit>, rh: Option<RayHit>|
                        {
                            &&& l.traversal(
                                ray,
                                t_min,
                                t_max,
                                crossings,
                                hits_primitive,
                                lh,
                            )
                            &&& r.traversal(
                                ray,
                                t_min,
                                tightened(lh, t_max),
                                crossings,
                                hits_primitive,
                                rh,
                            )
                            &&& out == #[trigger] preferred(lh, rh)
                        }
                },
                _ => out.is_none(),
            },
        }
    }

    /// Whether `hits_primitive` may be called on every leaf of this tree,
    /// with `ray` and any interval.
    pub open spec fn accepts<P>(self, ray: Ray, hits_primitive: P) -> bool where
        P: Fn(&IndexedTriangle, &Ray, i64, i64) -> Option<RayHit>,
     {
        forall|i: int, lo: i64, hi: i64|
            0 <= i < self.leaves().len() ==> call_requires(
                hits_primitive,
                (&#[trigger] self.leaves()[i], &ray, lo, hi),
            )
    }

    /// Searches the tree for the nearest hit of `ray` within
    /// `[t_min, t_max]`, with the caller's slab crossings for boxes and the
    /// caller's test for triangles.
    pub fn intersect_ray<B, P>(
        &self,
        ray: &Ray,
        t_min: i64,
        t_max: i64,
        crossings: &B,
        hits_primitive: &P,
    ) -> (out: Option<RayHit>) where
        B: Fn(&AABB, &Ray, usize) -> Slab,
        P: Fn(&IndexedTriangle, &Ray, i64, i64) -> Option<RayHit>,

        requires
            self.well_formed(),
            forall|b: AABB, axis: usize| axis < 3 ==> call_requires(*crossings, (&b, ray, axis)),
            self.accepts(*ray, *hits_primitive),
        ensures
            self.traversal(*ray, t_min, t_max, *crossings, *hits_primitive, out),
        decreases self,
    {
        match &self.primitive {
            Some(tri) => {
                assert(self.leaves()[0] == *tri);
                hits_primitive(tri, ray, t_min, t_max)
            },
            None => match (&self.left, &self.right) {
                (Some(l), Some(r)) => {
                    let passed = self.aabb.intersect_ray(ray, t_min, t_max, crossings);
                    if !passed {
                        return None;
                    }
                    proof {
                        assert forall|i: int, lo: i64, hi: i64|
                            0 <= i < l.leaves().len() implies call_requires(
                            *hits_primitive,
                            (&#[trigger] l.leaves()[i], ray, lo, hi),
                        ) by {
                            assert(self.leaves()[i] == l.leaves()[i]);
                        }
                        assert forall|i: int, lo: i64, hi: i64|
                            0 <= i < r.leaves().len() implies call_requires(
                            *hits_primitive,
                            (&#[trigger] r.leaves()[i], ray, lo, hi),
                        ) by {
                            assert(self.leaves()[l.leaves().len() + i] == r.leaves()[i]);
                        }
                    }
                    let left_hit = l.intersect_ray(ray, t_min, t_max, crossings, hits_primitive);
                    let best_t: i64 = match left_hit {
                        Some(h) => h.distance,
                        None => t_max,
                    };
                    let right_hit = r.intersect_ray(ray, t_min, best_t, crossings, hits_primitive);
                    let out = if right_hit.is_some() {
                        right_hit
                    } else {
                        left_hit
                    };
                    assert(out == preferred(left_hit, right_hit));
                    out
                },
                _ => None,
            },
        }
    }
}

/// Whether, on `axis`, every triangle of `left` has the lower corner of its
/// box at or before that of every triangle of `right`.
pub open spec fn separated_on_axis(
    left: Seq<IndexedTriangle>,
    right: Seq<IndexedTriangle>,
    axis: int,
) -> bool {
    forall|i: int, j: int|
        0 <= i < left.len() && 0 <= j < right.len() ==> #[trigger] left[i].sort_key(axis)
            <= #[trigger] right[j].sort_key(axis)
}

/// Two sequences with the same elements, counted with multiplicity, have
/// the same members: what stands at `j` in `b` stands somewhere in `a`.
pub proof fn lemma_rearranged_member<T>(a: Seq<T>, b: Seq<T>, j: int) -> (i: int)
    requires
        a.to_multiset() == b.to_multiset(),
        0 <= j < b.len(),
    ensures
        0 <= i < a.len(),
        a[i] == b[j],
{
    a.to_multiset_ensures();
    b.to_multiset_ensures();
    assert(b.contains(b[j]));
    assert(b.to_multiset().count(b[j]) > 0);
    assert(a.to_multiset().count(b[j]) > 0);
    assert(a.contains(b[j]));
    choose|i: int| 0 <= i < a.len() && a[i] == b[j]
}

/// Whether the triangles in `s[start..end)` are in ascending order of the
/// lower corner of their boxes on `axis`.
pub open spec fn sorted_on_axis(s: Seq<IndexedTriangle>, start: int, end: int, axis: int) -> bool {
    forall|i: int, j: int|
        start <= i <= j < end ==> #[trigger] s[i].sort_key(axis) <= #[trigger] s[j].sort_key(axis)
}

/// `<[T]>::sort_by_key` of std on the part `tris[start..end)`, keyed by the
/// lower corner of each triangle's box on `axis`. As std documents, the part
/// is rearranged in place into ascending key order and nothing is added or
/// lost; the rest of the vector is not touched.
#[verifier::external_body]
pub(crate) fn sort_by_min(tris: &mut Vec<IndexedTriangle>, start: usize, end: usize, axis: usize)
    requires
        start <= end <= old(tris)@.len(),
        axis < 3,
        forall|i: int| start <= i < end ==> (#[trigger] old(tris)@[i]).readable(),
    ensures
        final(tris)@.len() == old(tris)@.len(),
        forall|i: int|
            0 <= i < start || end <= i < old(tris)@.len() ==> #[trigger] final(tris)@[i] == old(
                tris,
            )@[i],
        final(tris)@.subrange(start as int, end as int).to_multiset() == old(tris)@.subrange(
            start as int,
            end as int,
        ).to_multiset(),
        sorted_on_axis(final(tris)@, start as int, end as int, axis as int),
{
    tris[start..end].sort_by_key(|t| t.min_on_axis(axis));
}

} // verus!
