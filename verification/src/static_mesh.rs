use std::sync::Arc;
use vstd::prelude::*;
use vstd::seq_lib::lemma_multiset_commutative;
use crate::aabb::AABB;
use crate::bvh::{lemma_rearranged_member, separated_on_axis, sort_by_min, BVHNode};
use crate::hit::{Ray, RayHit};
use crate::mesh::{share, IndexedTriangle, MeshData};
use crate::random::random_below;
use crate::slab::Slab;
use crate::vector::Vec3;

verus! {

/// A triangle mesh with one material and, once built, a hierarchy over its
/// triangles.
#[derive(Debug)]
pub struct StaticMesh {
    pub mesh: Arc<MeshData>,
    pub material: usize,
    pub bvh_root: Option<Box<BVHNode>>,
}

/// A hit with its material replaced by `material`.
pub open spec fn with_material(hit: Option<RayHit>, material: usize) -> Option<RayHit> {
    match hit {
        Some(h) => Some(RayHit { material, ..h }),
        None => None,
    }
}

/// The triangles number `0` to `n - 1` of the buffer `mesh`, in order.
pub open spec fn triangles_of(mesh: Arc<MeshData>, n: int) -> Seq<IndexedTriangle> {
    Seq::new(n as nat, |i: int| IndexedTriangle { idx: i as usize, mesh })
}

impl StaticMesh {
    /// Where there is a hierarchy, it is well formed.
    pub open spec fn well_formed(self) -> bool {
        match self.bvh_root {
            Some(root) => root.well_formed(),
            None => true,
        }
    }

    /// Makes a mesh object over a shared buffer, without a hierarchy yet.
    pub fn new(mesh: Arc<MeshData>, material: usize) -> (r: StaticMesh)
        ensures
            r.mesh == mesh,
            r.material == material,
            r.bvh_root.is_none(),
    {
        StaticMesh { mesh, material, bvh_root: None }
    }

    /// Builds the hierarchy over all triangles of the buffer, unless there
    /// is one already. The leaves of the new tree are the triangles of the
    /// buffer, each exactly once.
    pub fn build_bvh(&mut self)
        requires
            old(self).mesh.well_formed(),
            old(self).mesh.triangle_total() >= 1,
        ensures
            final(self).mesh == old(self).mesh,
            final(self).material == old(self).material,
            old(self).bvh_root.is_some() ==> final(self).bvh_root == old(self).bvh_root,
            old(self).bvh_root.is_none() ==> {
                &&& final(self).bvh_root.is_some()
                &&& final(self).bvh_root.unwrap().well_formed()
                &&& final(self).bvh_root.unwrap().median_split()
                &&& final(self).bvh_root.unwrap().leaves().len() == old(self).mesh.triangle_total()
                &&& final(self).bvh_root.unwrap().leaves().to_multiset() == triangles_of(
                    old(self).mesh,
                    old(self).mesh.triangle_total(),
                ).to_multiset()
            },
    {
        if self.bvh_root.is_some() {
            return ;
        }
        let total: usize = self.mesh.triangle_count();
        let mut tris: Vec<IndexedTriangle> = Vec::new();
        let mut i: usize = 0;
        while i < total
            invariant
                i <= total,
                total == self.mesh.triangle_total(),
                self.mesh.well_formed(),
                tris@ =~= triangles_of(self.mesh, i as int),
            decreases total - i,
        {
            tris.push(IndexedTriangle { idx: i, mesh: share(&self.mesh) });
            i += 1;
        }
        let ghost all = tris@;
        assert forall|k: int| 0 <= k < total implies (#[trigger] tris@[k]).readable() by {
            assert(self.mesh.has_triangle(k));
        }
        let node = Self::build_bvh_helper(&mut tris, 0, total);
        assert(tris@.subrange(0, total as int) =~= tris@);
        assert(all.subrange(0, total as int) =~= all);
        self.bvh_root = Some(node);
    }

    /// Reads the three corners of triangle `idx` of this mesh.
    pub fn get_triangle(&self, idx: usize) -> (t: (Vec3, Vec3, Vec3))
        requires
            self.mesh.has_triangle(idx as int),
        ensures
            t == self.mesh.triangle(idx as int),
    {
        Self::get_triangle_from_mesh(&self.mesh, idx)
    }

    /// Reads the three corners of triangle `idx` of a buffer: the index
    /// entries `3*idx`, `3*idx + 1` and `3*idx + 2` name the vertices, and
    /// vertex `v` has its coordinates at `3*v`, `3*v + 1` and `3*v + 2`.
    pub fn get_triangle_from_mesh(mesh: &MeshData, idx: usize) -> (t: (Vec3, Vec3, Vec3))
        requires
            mesh.has_triangle(idx as int),
        ensures
            t == mesh.triangle(idx as int),
    {
        mesh.read_triangle(idx)
    }

    /// Searches the hierarchy for the nearest hit and gives it the material
    /// of the mesh. Without a hierarchy there is no hit.
    pub fn intersect_ray<B, P>(
        &self,
        ray: &Ray,
        t_min: i64,
        t_max: i64,
        crossings: &B,
        hits_primitive: &P,
    ) -> (out: Option<RayHit>) where
        B: Fn(&AABB, &Ray, usize) -> Slab,
        P: Fn(&IndexedTriangle, &Ray, i64, i64) -> Option<RayHit>,

        requires
            self.well_formed(),
            forall|b: AABB, axis: usize| axis < 3 ==> call_requires(*crossings, (&b, ray, axis)),
            self.bvh_root.is_some() ==> self.bvh_root.unwrap().accepts(*ray, *hits_primitive),
        ensures
            self.bvh_root.is_none() ==> out.is_none(),
            self.bvh_root.is_some() ==> exists|found: Option<RayHit>|
                self.bvh_root.unwrap().traversal(
                    *ray,
                    t_min,
                    t_max,
                    *crossings,
                    *hits_primitive,
                    found,
                ) && out == #[trigger] with_material(found, self.material),
    {
        match &self.bvh_root {
            Some(root) => {
                let found = root.intersect_ray(ray, t_min, t_max, crossings, hits_primitive);
                let out = match found {
                    Some(hit) => Some(
                        RayHit {
                            distance: hit.distance,
                            hitpoint: hit.hitpoint,
                            normal: hit.normal,
                            material: self.material,
                            frontface: hit.frontface,
                            tex_coords: hit.tex_coords,
                            tangent: hit.tangent,
                            bitangent: hit.bitangent,
                        },
                    ),
                    None => None,
                };
                assert(out == with_material(found, self.material));
                out
            },
            None => None,
        }
    }

    /// The box of the whole mesh: that of the root, where there is one.
    pub fn bounding_box(&self) -> (r: Option<AABB>)
        ensures
            r == match self.bvh_root {
                Some(root) => Some(root.aabb),
                None => None,
            },
    {
        match &self.bvh_root {
            Some(node) => node.bounding_box(),
            None => None,
        }
    }

    /// Builds the hierarchy over `tris[start..end)`.
    ///
    /// A range of one triangle becomes a leaf. A longer range is put in
    /// ascending order along a randomly drawn axis and split at its middle;
    /// the two halves are built in turn and joined under the union of their
    /// boxes. The range is rearranged in place: afterwards it lists the
    /// leaves of the returned tree from left to right.
    pub fn build_bvh_helper(tris: &mut Vec<IndexedTriangle>, start: usize, end: usize) -> (node:
        Box<BVHNode>)
        requires
            start < end <= old(tris)@.len(),
            forall|i: int| start <= i < end ==> (#[trigger] old(tris)@[i]).readable(),
        ensures
            node.well_formed(),
            node.median_split(),
            node.leaves() == final(tris)@.subrange(start as int, end as int),
            final(tris)@.len() == old(tris)@.len(),
            forall|i: int|
                0 <= i < start || end <= i < old(tris)@.len() ==> #[trigger] final(tris)@[i]
                    == old(tris)@[i],
            final(tris)@.subrange(start as int, end as int).to_multiset() == old(tris)@.subrange(
                start as int,
                end as int,
            ).to_multiset(),
        decreases end - start,
    {
        if end - start == 1 {
            let tri = tris[start].duplicate();
            let aabb = match tri.bounding_box() {
                Some(b) => b,
                None => AABB::default(),
            };
            let node = BVHNode { aabb, left: None, right: None, primitive: Some(tri) };
            assert(node.leaves() =~= tris@.subrange(start as int, end as int));
            Box::new(node)
        } else {
            let ghost s0 = tris@;
            let axis: usize = random_below(3) as usize;
            sort_by_min(tris, start, end, axis);
            let ghost s1 = tris@;
            let mid: usize = start + (end - start) / 2;
            proof {
                assert forall|i: int| start <= i < end implies (#[trigger] s1[i]).readable() by {
                    let a = s0.subrange(start as int, end as int);
                    let b = s1.subrange(start as int, end as int);
                    let k = lemma_rearranged_member(a, b, i - start);
                    assert(b[i - start] == s1[i]);
                    assert(a[k] == s0[k + start]);
                }
            }
            let left = Self::build_bvh_helper(tris, start, mid);
            let ghost s2 = tris@;
            let right = Self::build_bvh_helper(tris, mid, end);
            let ghost s3 = tris@;
            let aabb = AABB::aabb_surrounding(&left.aabb, &right.aabb);
            proof {
                let l1 = s1.subrange(start as int, mid as int);
                let r1 = s1.subrange(mid as int, end as int);
                let l3 = s3.subrange(start as int, mid as int);
                let r3 = s3.subrange(mid as int, end as int);
                assert(s2.subrange(mid as int, end as int) =~= r1);
                assert(l3 =~= s2.subrange(start as int, mid as int));
                assert(s1.subrange(start as int, end as int) =~= l1 + r1);
                assert(s3.subrange(start as int, end as int) =~= l3 + r3);
                lemma_multiset_commutative(l1, r1);
                lemma_multiset_commutative(l3, r3);
                assert(left.leaves() == l3);
                assert(right.leaves() == r3);
                assert(separated_on_axis(l3, r3, axis as int)) by {
                    assert forall|i: int, j: int|
                        0 <= i < l3.len() && 0 <= j < r3.len() implies #[trigger] l3[i].sort_key(
                        axis as int,
                    ) <= #[trigger] r3[j].sort_key(axis as int) by {
                        let a = lemma_rearranged_member(l1, l3, i);
                        let b = lemma_rearranged_member(r1, r3, j);
                        assert(l1[a] == s1[a + start]);
                        assert(r1[b] == s1[b + mid]);
                    }
                }
            }
            let node = BVHNode { aabb, left: Some(left), right: Some(right), primitive: None };
            Box::new(node)
        }
    }
}

} // verus!
