use pathtracer::aabb::AABB;
use pathtracer::mesh::{MeshData, Plane, Triangle};
use pathtracer::static_mesh::StaticMesh;
use pathtracer::vector::{max_coord, min_coord, Vec3};

fn v(x: i64, y: i64, z: i64) -> Vec3 {
    Vec3::new(x, y, z)
}

fn bx(min: Vec3, max: Vec3) -> AABB {
    AABB { min, max }
}

#[test]
fn min_and_max_of_coordinates() {
    assert_eq!(min_coord(3, -4), -4);
    assert_eq!(max_coord(3, -4), 3);
    assert_eq!(min_coord(7, 7), 7);
    assert_eq!(max_coord(i64::MIN, i64::MAX), i64::MAX);
}

#[test]
fn vector_coordinates_by_axis() {
    let p = v(1, 2, 3);
    assert_eq!(p.coord(0), 1);
    assert_eq!(p.coord(1), 2);
    assert_eq!(p.coord(2), 3);
    assert_eq!(Vec3::zero(), v(0, 0, 0));
    assert_eq!(p.min_with(&v(0, 5, 3)), v(0, 2, 3));
    assert_eq!(p.max_with(&v(0, 5, 3)), v(1, 5, 3));
}

#[test]
fn surrounding_is_per_axis_extrema() {
    let a = bx(v(0, 0, 0), v(1, 1, 1));
    let b = bx(v(-2, 3, 0), v(0, 4, 5));
    let u = AABB::aabb_surrounding(&a, &b);
    assert_eq!(u, bx(v(-2, 0, 0), v(1, 4, 5)));
}

fn encloses(outer: &AABB, inner: &AABB) -> bool {
    outer.min.x <= inner.min.x && outer.min.y <= inner.min.y && outer.min.z <= inner.min.z
        && inner.max.x <= outer.max.x && inner.max.y <= outer.max.y && inner.max.z <= outer.max.z
}

#[test]
fn surrounding_contains_both_and_is_commutative_and_associative() {
    let boxes = [
        bx(v(0, 0, 0), v(1, 1, 1)),
        bx(v(-5, 2, 7), v(-1, 9, 8)),
        bx(v(3, -3, -3), v(4, 0, 12)),
        bx(v(-1, -1, -1), v(0, 0, 0)),
    ];
    for a in boxes.iter() {
        for b in boxes.iter() {
            let ab = AABB::aabb_surrounding(a, b);
            assert!(encloses(&ab, a));
            assert!(encloses(&ab, b));
            assert_eq!(ab, AABB::aabb_surrounding(b, a));
            for c in boxes.iter() {
                let left = AABB::aabb_surrounding(&ab, c);
                let right = AABB::aabb_surrounding(a, &AABB::aabb_surrounding(b, c));
                assert_eq!(left, right);
            }
        }
    }
}

#[test]
fn default_box_is_the_origin() {
    let d = AABB::default();
    assert_eq!(d, bx(v(0, 0, 0), v(0, 0, 0)));
    assert_eq!(d.bounding_box(), Some(d));
}

#[test]
fn triangle_box_is_extrema_of_corners() {
    let t = Triangle { a: v(1, 5, -2), b: v(-3, 6, 0), c: v(2, 4, 9), material: 0 };
    assert_eq!(t.bounding_box(), Some(bx(v(-3, 4, -2), v(2, 6, 9))));
    assert_eq!(
        AABB::around_triangle(&t.a, &t.b, &t.c),
        bx(v(-3, 4, -2), v(2, 6, 9))
    );
}

#[test]
fn union_of_three_triangles_spans_all_nine_corners() {
    let tris = [
        Triangle { a: v(0, 0, 0), b: v(4, 0, 0), c: v(0, 3, 0), material: 0 },
        Triangle { a: v(0, 0, 0), b: v(0, 3, 0), c: v(0, 0, 5), material: 0 },
        Triangle { a: v(4, 3, 5), b: v(4, 0, 5), c: v(0, 3, 5), material: 0 },
    ];
    let b0 = tris[0].bounding_box().unwrap();
    let b1 = tris[1].bounding_box().unwrap();
    let b2 = tris[2].bounding_box().unwrap();
    let union = AABB::aabb_surrounding(&AABB::aabb_surrounding(&b0, &b1), &b2);

    let mut min = v(i64::MAX, i64::MAX, i64::MAX);
    let mut max = v(i64::MIN, i64::MIN, i64::MIN);
    for t in tris.iter() {
        for p in [t.a, t.b, t.c].iter() {
            min = v(min.x.min(p.x), min.y.min(p.y), min.z.min(p.z));
            max = v(max.x.max(p.x), max.y.max(p.y), max.z.max(p.z));
        }
    }
    assert_eq!(union, bx(min, max));
    assert_eq!(union, bx(v(0, 0, 0), v(4, 3, 5)));
}

#[test]
fn plane_has_no_box() {
    let p = Plane { point: v(0, 0, 0), normal: v(0, 1, 0), material: 2 };
    assert_eq!(p.bounding_box(), None);
}

fn two_triangle_mesh() -> MeshData {
    MeshData {
        positions: vec![0, 0, 0, 10, 0, 0, 0, 10, 0, 7, 8, 9],
        indices: vec![0, 1, 2, 3, 2, 1],
    }
}

#[test]
fn triangle_is_read_through_the_index_buffer() {
    let mesh = two_triangle_mesh();
    assert_eq!(mesh.triangle_count(), 2);
    assert!(mesh.is_well_formed());
    assert_eq!(
        StaticMesh::get_triangle_from_mesh(&mesh, 0),
        (v(0, 0, 0), v(10, 0, 0), v(0, 10, 0))
    );
    assert_eq!(
        StaticMesh::get_triangle_from_mesh(&mesh, 1),
        (v(7, 8, 9), v(0, 10, 0), v(10, 0, 0))
    );
    assert_eq!(mesh.read_vertex(3), v(7, 8, 9));
}

#[test]
fn unreadable_triangles_are_detected() {
    let mesh = MeshData { positions: vec![0, 0, 0, 1, 1, 1], indices: vec![0, 1, 2, 0, 1] };
    assert_eq!(mesh.triangle_count(), 1);
    assert!(mesh.vertex_in_range(1));
    assert!(!mesh.vertex_in_range(2));
    assert!(!mesh.triangle_in_range(0));
    assert!(!mesh.triangle_in_range(1));
    assert!(!mesh.is_well_formed());

    let empty = MeshData { positions: vec![], indices: vec![] };
    assert_eq!(empty.triangle_count(), 0);
    assert!(empty.is_well_formed());
    assert!(!empty.triangle_in_range(0));
    assert!(!empty.vertex_in_range(0));

    let partial = MeshData { positions: vec![0, 0, 0, 1, 1], indices: vec![0, 0, 0] };
    assert!(partial.vertex_in_range(0));
    assert!(!partial.vertex_in_range(1));
    assert!(partial.is_well_formed());
}

fn slab_ray() -> pathtracer::hit::Ray {
    pathtracer::hit::Ray { origin: v(0, 0, 0), direction: v(1, 1, 1) }
}

#[test]
fn slab_test_passes_on_overlap() {
    let b = bx(v(0, 0, 0), v(1, 1, 1));
    let slabs = [(2, 9), (4, 12), (3, 7)];
    let crossings = |_: &AABB, _: &pathtracer::hit::Ray, axis: usize| pathtracer::slab::Slab {
        t_lower: slabs[axis].0,
        t_upper: slabs[axis].1,
        reversed: false,
    };
    // The slabs overlap on (4, 7).
    assert!(b.intersect_ray(&slab_ray(), 0, 100, &crossings));
    assert!(b.intersect_ray(&slab_ray(), 6, 100, &crossings));
    assert!(b.intersect_ray(&slab_ray(), 0, 5, &crossings));
    assert!(!b.intersect_ray(&slab_ray(), 7, 100, &crossings));
    assert!(!b.intersect_ray(&slab_ray(), 0, 4, &crossings));
    assert!(!b.intersect_ray(&slab_ray(), 5, 5, &crossings));
}

#[test]
fn slab_test_swaps_crossings_of_a_reversed_ray() {
    let b = bx(v(0, 0, 0), v(1, 1, 1));
    let reversed = |_: &AABB, _: &pathtracer::hit::Ray, _: usize| pathtracer::slab::Slab {
        t_lower: 8,
        t_upper: 2,
        reversed: true,
    };
    assert!(b.intersect_ray(&slab_ray(), 0, 100, &reversed));
    let unswapped = |_: &AABB, _: &pathtracer::hit::Ray, _: usize| pathtracer::slab::Slab {
        t_lower: 8,
        t_upper: 2,
        reversed: false,
    };
    assert!(!b.intersect_ray(&slab_ray(), 0, 100, &unswapped));
}

#[test]
fn slab_test_stops_at_the_first_empty_interval() {
    let b = bx(v(0, 0, 0), v(1, 1, 1));
    let asked = std::cell::Cell::new(0);
    let crossings = |_: &AABB, _: &pathtracer::hit::Ray, axis: usize| {
        asked.set(asked.get() + 1);
        if axis == 1 {
            pathtracer::slab::Slab { t_lower: 50, t_upper: 60, reversed: false }
        } else {
            pathtracer::slab::Slab { t_lower: 0, t_upper: 10, reversed: false }
        }
    };
    assert!(!b.intersect_ray(&slab_ray(), 0, 100, &crossings));
    assert_eq!(asked.get(), 2);
}

#[test]
fn mesh_object_reads_its_own_triangles() {
    let sm = StaticMesh::new(std::sync::Arc::new(two_triangle_mesh()), 4);
    assert_eq!(sm.material, 4);
    assert!(sm.bvh_root.is_none());
    assert_eq!(sm.get_triangle(1), (v(7, 8, 9), v(0, 10, 0), v(10, 0, 0)));
    assert_eq!(sm.get_triangle(0), sm.mesh.read_triangle(0));
}

#[test]
fn indexed_triangle_box_and_sort_key() {
    let mesh = std::sync::Arc::new(two_triangle_mesh());
    let t = pathtracer::mesh::IndexedTriangle { idx: 1, mesh: mesh.clone() };
    assert_eq!(t.vertices(), (v(7, 8, 9), v(0, 10, 0), v(10, 0, 0)));
    assert_eq!(t.bounding_box(), Some(bx(v(0, 0, 0), v(10, 10, 9))));
    assert_eq!(t.min_on_axis(0), 0);
    assert_eq!(t.min_on_axis(1), 0);
    assert_eq!(t.min_on_axis(2), 0);
    let first = pathtracer::mesh::IndexedTriangle { idx: 0, mesh: mesh.clone() };
    assert_eq!(first.bounding_box(), Some(bx(v(0, 0, 0), v(10, 10, 0))));
    let copy = first.duplicate();
    assert_eq!(copy.idx, 0);
    assert!(std::sync::Arc::ptr_eq(&copy.mesh, &mesh));
}
