use std::sync::Arc;
use vstd::prelude::*;
use crate::aabb::AABB;
use crate::vector::Vec3;

verus! {

/// An indexed triangle buffer: three coordinates per vertex in `positions`,
/// three vertex numbers per triangle in `indices`. It is read-only once
/// built and shared by every triangle that refers to it.
#[derive(Debug)]
pub struct MeshData {
    pub positions: Vec<i64>,
    pub indices: Vec<u32>,
}

impl MeshData {
    /// The number of whole triangles in the index buffer.
    pub open spec fn triangle_total(self) -> int {
        self.indices@.len() as int / 3
    }

    /// Whether vertex number `v` has its three coordinates in the buffer.
    pub open spec fn has_vertex(self, v: int) -> bool {
        0 <= v && 3 * v + 2 < self.positions@.len()
    }

    /// Whether triangle `idx` can be read: its three index entries exist and
    /// each names a vertex of the buffer.
    pub open spec fn has_triangle(self, idx: int) -> bool {
        &&& 0 <= idx
        &&& 3 * idx + 2 < self.indices@.len()
        &&& self.has_vertex(self.indices@[3 * idx] as int)
        &&& self.has_vertex(self.indices@[3 * idx + 1] as int)
        &&& self.has_vertex(self.indices@[3 * idx + 2] as int)
    }

    /// Every triangle of the index buffer can be read.
    pub open spec fn well_formed(self) -> bool {
        forall|idx: int| 0 <= idx < self.triangle_total() ==> #[trigger] self.has_triangle(idx)
    }

    /// The position of vertex number `v`.
    pub open spec fn vertex(self, v: int) -> Vec3 {
        Vec3 {
            x: self.positions@[3 * v],
            y: self.positions@[3 * v + 1],
            z: self.positions@[3 * v + 2],
        }
    }

    /// The three corners of triangle `idx`, read at the index entries
    /// `3*idx`, `3*idx + 1` and `3*idx + 2`.
    pub open spec fn triangle(self, idx: int) -> (Vec3, Vec3, Vec3) {
        (
            self.vertex(self.indices@[3 * idx] as int),
            self.vertex(self.indices@[3 * idx + 1] as int),
            self.vertex(self.indices@[3 * idx + 2] as int),
        )
    }

    /// The bounding box of triangle `idx`.
    pub open spec fn triangle_box(self, idx: int) -> AABB {
        AABB::around(self.triangle(idx).0, self.triangle(idx).1, self.triangle(idx).2)
    }

    /// Counts the whole triangles of the index buffer.
    pub fn triangle_count(&self) -> (n: usize)
        ensures
            n == self.triangle_total(),
    {
        self.indices.len() / 3
    }

    /// Tests whether vertex number `v` has its coordinates in the buffer.
    pub fn vertex_in_range(&self, v: u32) -> (r: bool)
        ensures
            r == self.has_vertex(v as int),
    {
        let len: usize = self.positions.len();
        len >= 3 && (v as usize) <= (len - 3) / 3
    }

    /// Tests whether triangle `idx` can be read.
    pub fn triangle_in_range(&self, idx: usize) -> (r: bool)
        ensures
            r == self.has_triangle(idx as int),
    {
        let len: usize = self.indices.len();
        if len < 3 || idx > (len - 3) / 3 {
            return false;
        }
        self.vertex_in_range(self.indices[3 * idx]) && self.vertex_in_range(
            self.indices[3 * idx + 1],
        ) && self.vertex_in_range(self.indices[3 * idx + 2])
    }

    /// Tests whether every triangle of the index buffer can be read.
    pub fn is_well_formed(&self) -> (r: bool)
        ensures
            r == self.well_formed(),
    {
        let total: usize = self.triangle_count();
        let mut idx: usize = 0;
        while idx < total
            invariant
                idx <= total,
                total == self.triangle_total(),
                forall|k: int| 0 <= k < idx ==> #[trigger] self.has_triangle(k),
            decreases total - idx,
        {
            if !self.triangle_in_range(idx) {
                return false;
            }
            idx += 1;
        }
        true
    }

    /// Reads the position of vertex number `v`.
    pub fn read_vertex(&self, v: u32) -> (p: Vec3)
        requires
            self.has_vertex(v as int),
        ensures
            p == self.vertex(v as int),
    {
        let len: usize = self.positions.len();
        assert(3 * (v as int) + 2 < len);
        let base: usize = 3 * (v as usize);
        Vec3 { x: self.positions[base], y: self.positions[base + 1], z: self.positions[base + 2] }
    }

    /// Reads the three corners of triangle `idx`.
    pub fn read_triangle(&self, idx: usize) -> (t: (Vec3, Vec3, Vec3))
        requires
            self.has_triangle(idx as int),
        ensures
            t == self.triangle(idx as int),
    {
        let len: usize = self.indices.len();
        assert(3 * (idx as int) + 2 < len);
        let a = self.read_vertex(self.indices[3 * idx]);
        let b = self.read_vertex(self.indices[3 * idx + 1]);
        let c = self.read_vertex(self.indices[3 * idx + 2]);
        (a, b, c)
    }
}

/// `Arc::clone` of std: a second handle to the same shared buffer, so the
/// value behind the result is the value behind the argument.
#[verifier::external_body]
pub(crate) fn share(mesh: &Arc<MeshData>) -> (r: Arc<MeshData>)
    ensures
        r == *mesh,
{
    Arc::clone(mesh)
}

/// One triangle of a shared buffer: its number and a handle to the buffer.
#[derive(Debug)]
pub struct IndexedTriangle {
    pub idx: usize,
    pub mesh: Arc<MeshData>,
}

impl IndexedTriangle {
    /// Whether the triangle can be read from its buffer.
    pub open spec fn readable(self) -> bool {
        self.mesh.has_triangle(self.idx as int)
    }

    /// The bounding box of the triangle.
    pub open spec fn bounds(self) -> AABB {
        self.mesh.triangle_box(self.idx as int)
    }

    /// The lower corner of the bounding box on `axis`.
    pub open spec fn sort_key(self, axis: int) -> i64 {
        self.bounds().min.axis(axis)
    }

    /// A second value for the same triangle, sharing the buffer.
    pub fn duplicate(&self) -> (r: IndexedTriangle)
        ensures
            r == *self,
    {
        IndexedTriangle { idx: self.idx, mesh: share(&self.mesh) }
    }

    /// Reads the three corners of the triangle from the shared buffer.
    pub fn vertices(&self) -> (t: (Vec3, Vec3, Vec3))
        requires
            self.readable(),
        ensures
            t == self.mesh.triangle(self.idx as int),
    {
        self.mesh.read_triangle(self.idx)
    }

    /// The per-axis extrema of the three corners.
    pub fn bounding_box(&self) -> (r: Option<AABB>)
        requires
            self.readable(),
        ensures
            r == Some(self.bounds()),
            self.bounds().well_formed(),
    {
        let (a, b, c) = self.vertices();
        Some(AABB::around_triangle(&a, &b, &c))
    }

    /// The coordinate by which a hierarchy build orders this triangle when
    /// it splits on `axis`.
    pub fn min_on_axis(&self, axis: usize) -> (k: i64)
        requires
            self.readable(),
            axis < 3,
        ensures
            k == self.sort_key(axis as int),
    {
        let (a, b, c) = self.vertices();
        AABB::around_triangle(&a, &b, &c).min.coord(axis)
    }
}

/// A free-standing triangle with its own three corners and a material handle.
#[derive(Clone, Copy, Debug, PartialEq, Eq, Structural)]
pub struct Triangle {
    pub a: Vec3,
    pub b: Vec3,
    pub c: Vec3,
    pub material: usize,
}

impl Triangle {
    /// The per-axis extrema of the three corners.
    pub fn bounding_box(&self) -> (r: Option<AABB>)
        ensures
            r == Some(AABB::around(self.a, self.b, self.c)),
            AABB::around(self.a, self.b, self.c).well_formed(),
    {
        Some(AABB::around_triangle(&self.a, &self.b, &self.c))
    }
}

/// An infinite plane through `point` with the given `normal`.
#[derive(Clone, Copy, Debug, PartialEq, Eq, Structural)]
pub struct Plane {
    pub point: Vec3,
    pub normal: Vec3,
    pub material: usize,
}

impl Plane {
    /// A plane is unbounded: it has no box.
    pub fn bounding_box(&self) -> (r: Option<AABB>)
        ensures
            r.is_none(),
    {
        None
    }
}

} // verus!
