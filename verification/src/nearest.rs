use vstd::prelude::*;
use crate::aabb::AABB;
use crate::bvh::{preferred, tightened, BVHNode};
use crate::hit::{closest_of, lemma_closest_is_first_minimum, lemma_closest_none, Ray, RayHit};
use crate::mesh::IndexedTriangle;
use crate::slab::Slab;

verus! {

/// Whether the ray meets `tri` at a distance within `[lo, hi]`, where `dist`
/// gives for each triangle the distance at which the ray meets it, if any.
pub open spec fn in_reach(
    dist: spec_fn(IndexedTriangle) -> Option<i64>,
    tri: IndexedTriangle,
    lo: i64,
    hi: i64,
) -> bool {
    dist(tri).is_some() && lo <= dist(tri).unwrap() <= hi
}

/// A triangle test is faithful to `dist` where it reports a hit exactly for
/// the triangles in reach, at the distance that `dist` gives.
pub open spec fn faithful_primitive_test<P>(
    hits_primitive: P,
    ray: Ray,
    dist: spec_fn(IndexedTriangle) -> Option<i64>,
) -> bool where P: Fn(&IndexedTriangle, &Ray, i64, i64) -> Option<RayHit> {
    forall|tri: IndexedTriangle, lo: i64, hi: i64, out: Option<RayHit>| #[trigger]
        call_ensures(hits_primitive, (&tri, &ray, lo, hi), out) ==> if in_reach(dist, tri, lo, hi) {
            out.is_some() && out.unwrap().distance == dist(tri).unwrap()
        } else {
            out.is_none()
        }
}

/// The slab test is sound for `dist` where it never rejects a box that
/// contains the box of a triangle in reach.
pub open spec fn sound_box_test<B>(
    crossings: B,
    ray: Ray,
    dist: spec_fn(IndexedTriangle) -> Option<i64>,
) -> bool where B: Fn(&AABB, &Ray, usize) -> Slab {
    forall|b: AABB, tri: IndexedTriangle, lo: i64, hi: i64|
        #![trigger b.ray_test(ray, lo, hi, crossings, false), in_reach(dist, tri, lo, hi)]
        b.ray_test(ray, lo, hi, crossings, false) && b.contains(tri.bounds()) ==> !in_reach(
            dist,
            tri,
            lo,
            hi,
        )
}

/// Whether `out` is a nearest hit among `tris` within `[lo, hi]`: absent
/// exactly when no triangle is in reach, and else at the least distance of
/// those in reach.
pub open spec fn nearest_among(
    tris: Seq<IndexedTriangle>,
    dist: spec_fn(IndexedTriangle) -> Option<i64>,
    lo: i64,
    hi: i64,
    out: Option<RayHit>,
) -> bool {
    &&& out.is_none() <==> forall|i: int|
        0 <= i < tris.len() ==> !in_reach(dist, #[trigger] tris[i], lo, hi)
    &&& out.is_some() ==> {
        &&& lo <= out.unwrap().distance <= hi
        &&& exists|i: int|
            0 <= i < tris.len() && dist(#[trigger] tris[i]) == Some(out.unwrap().distance)
        &&& forall|i: int|
            0 <= i < tris.len() && in_reach(dist, #[trigger] tris[i], lo, hi)
                ==> out.unwrap().distance <= dist(tris[i]).unwrap()
    }
}

/// With a faithful triangle test and a sound slab test, every result of the
/// search of a well-formed tree is a nearest hit among all its leaves: the
/// pruning by boxes and by the tightened bound loses nothing.
pub proof fn lemma_traversal_finds_nearest<B, P>(
    node: BVHNode,
    ray: Ray,
    t_min: i64,
    t_max: i64,
    crossings: B,
    hits_primitive: P,
    dist: spec_fn(IndexedTriangle) -> Option<i64>,
    out: Option<RayHit>,
) where
    B: Fn(&AABB, &Ray, usize) -> Slab,
    P: Fn(&IndexedTriangle, &Ray, i64, i64) -> Option<RayHit>,

    requires
        node.well_formed(),
        faithful_primitive_test(hits_primitive, ray, dist),
        sound_box_test(crossings, ray, dist),
        node.traversal(ray, t_min, t_max, crossings, hits_primitive, out),
    ensures
        nearest_among(node.leaves(), dist, t_min, t_max, out),
    decreases node,
{
    let tris = node.leaves();
    match node.primitive {
        Some(tri) => {
            assert(tris[0] == tri);
        },
        None => {
            let l = node.left.unwrap();
            let r = node.right.unwrap();
            let lt = l.leaves();
            let rt = r.leaves();
            assert forall|i: int| 0 <= i < lt.len() implies lt[i] == tris[i] by {}
            assert forall|i: int| 0 <= i < rt.len() implies rt[i] == tris[lt.len() + i] by {}
            if node.aabb.ray_test(ray, t_min, t_max, crossings, false) && out.is_none() {
                assert forall|i: int| 0 <= i < tris.len() implies !in_reach(
                    dist,
                    #[trigger] tris[i],
                    t_min,
                    t_max,
                ) by {
                    node.lemma_box_contains_leaves(i);
                }
            } else {
                let (lh, rh) = choose|lh: Option<RayHit>, rh: Option<RayHit>|
                    {
                        &&& l.traversal(ray, t_min, t_max, crossings, hits_primitive, lh)
                        &&& r.traversal(
                            ray,
                            t_min,
                            tightened(lh, t_max),
                            crossings,
                            hits_primitive,
                            rh,
                        )
                        &&& out == #[trigger] preferred(lh, rh)
                    };
                let bound = tightened(lh, t_max);
                lemma_traversal_finds_nearest(
                    *l,
                    ray,
                    t_min,
                    t_max,
                    crossings,
                    hits_primitive,
                    dist,
                    lh,
                );
                lemma_traversal_finds_nearest(
                    *r,
                    ray,
                    t_min,
                    bound,
                    crossings,
                    hits_primitive,
                    dist,
                    rh,
                );
                assert(nearest_among(lt, dist, t_min, t_max, lh));
                assert(nearest_among(rt, dist, t_min, bound, rh));
                assert(bound <= t_max);
                if out.is_some() {
                    let d = out.unwrap().distance;
                    if rh.is_some() {
                        let k = choose|i: int|
                            0 <= i < rt.len() && dist(#[trigger] rt[i]) == Some(d);
                        assert(dist(tris[lt.len() + k]) == Some(d));
                    } else {
                        let k = choose|i: int|
                            0 <= i < lt.len() && dist(#[trigger] lt[i]) == Some(d);
                        assert(dist(tris[k]) == Some(d));
                    }
                    assert forall|i: int|
                        0 <= i < tris.len() && in_reach(
                            dist,
                            #[trigger] tris[i],
                            t_min,
                            t_max,
                        ) implies d <= dist(tris[i]).unwrap() by {
                        if i < lt.len() {
                            assert(tris[i] == lt[i]);
                        } else {
                            assert(tris[i] == rt[i - lt.len()]);
                            if dist(tris[i]).unwrap() <= bound {
                                assert(in_reach(dist, rt[i - lt.len()], t_min, bound));
                            }
                        }
                    }
                    let w = choose|i: int| 0 <= i < tris.len() && dist(#[trigger] tris[i]) == Some(d);
                    assert(in_reach(dist, tris[w], t_min, t_max));
                } else {
                    assert forall|i: int| 0 <= i < tris.len() implies !in_reach(
                        dist,
                        #[trigger] tris[i],
                        t_min,
                        t_max,
                    ) by {
                        if i < lt.len() {
                            assert(tris[i] == lt[i]);
                        } else {
                            assert(tris[i] == rt[i - lt.len()]);
                        }
                    }
                }
            }
        },
    }
}

/// Whether `hits` lists, triangle by triangle, a possible result of testing
/// each of `tris` on its own over `[lo, hi]`.
pub open spec fn scan_of<P>(
    tris: Seq<IndexedTriangle>,
    ray: Ray,
    lo: i64,
    hi: i64,
    hits_primitive: P,
    hits: Seq<Option<RayHit>>,
) -> bool where P: Fn(&IndexedTriangle, &Ray, i64, i64) -> Option<RayHit> {
    &&& hits.len() == tris.len()
    &&& forall|i: int|
        0 <= i < tris.len() ==> call_ensures(
            hits_primitive,
            (&tris[i], &ray, lo, hi),
            #[trigger] hits[i],
        )
}

/// With a faithful triangle test and a sound slab test, the search of a
/// well-formed tree agrees with a plain scan over its leaves: both find
/// nothing, or both find a hit at the same distance.
pub proof fn lemma_traversal_matches_scan<B, P>(
    node: BVHNode,
    ray: Ray,
    t_min: i64,
    t_max: i64,
    crossings: B,
    hits_primitive: P,
    dist: spec_fn(IndexedTriangle) -> Option<i64>,
    out: Option<RayHit>,
    hits: Seq<Option<RayHit>>,
) where
    B: Fn(&AABB, &Ray, usize) -> Slab,
    P: Fn(&IndexedTriangle, &Ray, i64, i64) -> Option<RayHit>,

    requires
        node.well_formed(),
        faithful_primitive_test(hits_primitive, ray, dist),
        sound_box_test(crossings, ray, dist),
        node.traversal(ray, t_min, t_max, crossings, hits_primitive, out),
        scan_of(node.leaves(), ray, t_min, t_max, hits_primitive, hits),
    ensures
        out.is_none() <==> closest_of(hits).is_none(),
        out.is_some() ==> out.unwrap().distance == closest_of(hits).unwrap().distance,
{
    let tris = node.leaves();
    lemma_traversal_finds_nearest(node, ray, t_min, t_max, crossings, hits_primitive, dist, out);
    lemma_closest_none(hits);
    assert forall|i: int| 0 <= i < tris.len() implies (in_reach(dist, tris[i], t_min, t_max)
        <==> (#[trigger] hits[i]).is_some()) && (hits[i].is_some() ==> hits[i].unwrap().distance
        == dist(tris[i]).unwrap()) by {
        assert(call_ensures(hits_primitive, (&tris[i], &ray, t_min, t_max), hits[i]));
    }
    if closest_of(hits).is_some() {
        let at = lemma_closest_is_first_minimum(hits);
        assert(hits[at].is_some());
        assert(in_reach(dist, tris[at], t_min, t_max));
        let d = out.unwrap().distance;
        let w = choose|i: int| 0 <= i < tris.len() && dist(#[trigger] tris[i]) == Some(d);
        assert(in_reach(dist, tris[w], t_min, t_max));
        assert(hits[w].is_some());
    } else {
        if out.is_some() {
            let d = out.unwrap().distance;
            let w = choose|i: int| 0 <= i < tris.len() && dist(#[trigger] tris[i]) == Some(d);
            assert(in_reach(dist, tris[w], t_min, t_max));
            assert(hits[w].is_some());
        }
    }
}

} // verus!
