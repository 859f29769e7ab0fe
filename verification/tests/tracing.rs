use std::cell::Cell;

use pathtracer::camera::{
    floor_sqrt, Camera, CameraProjectionMode, ShadingMode, SubpixelSample,
};
use pathtracer::hit::{clip, closer, closest_hit, Ray, RayHit};
use pathtracer::scene::Scene;
use pathtracer::vector::Vec3;

// Order-preserving encoding of single-precision numbers.
fn key(x: f32) -> i64 {
    let b = x.to_bits() as i32;
    (b ^ (((b >> 31) as u32) >> 1) as i32) as i64
}

fn unkey(k: i64) -> f32 {
    let b = k as i32;
    f32::from_bits((b ^ (((b >> 31) as u32) >> 1) as i32) as u32)
}

fn kv(x: f32, y: f32, z: f32) -> Vec3 {
    Vec3::new(key(x), key(y), key(z))
}

fn camera(path_depth: u32, path_samples: u32, aa: u32, mode: ShadingMode) -> Camera {
    Camera {
        eyepoint: kv(0.0, 2.0, 5.5),
        view_dir: kv(0.0, 0.0, -1.0),
        up: kv(0.0, 1.0, 0.0),
        projection_mode: CameraProjectionMode::Perspective,
        shading_mode: mode,
        path_depth,
        path_samples,
        screen_width: 4,
        screen_height: 3,
        focal_length: key(0.6),
        focus_dist: key(5.0),
        lens_radius: key(0.0),
        aa_sample_count: aa,
        max_trace_dist: key(100.0),
        gamma: key(2.0),
    }
}

fn scene<T>(objects: Vec<T>, cam: Camera) -> Scene<T> {
    Scene { camera: cam, objects, point_light_pos: kv(0.0, 1.0, 5.0), ambient: kv(0.1, 0.1, 0.1) }
}

fn hit_at(distance: i64, material: usize) -> RayHit {
    RayHit {
        distance,
        hitpoint: Vec3::zero(),
        normal: Vec3::new(0, 0, 1),
        material,
        frontface: true,
        tex_coords: None,
        tangent: None,
        bitangent: None,
    }
}

#[test]
fn encoding_keeps_the_order_of_numbers() {
    let xs = [-1.0e9f32, -4.0, -1.0, -0.001, 0.0, 0.001, 1.0, 4.0, 100.0, 1.0e9];
    for w in xs.windows(2) {
        assert!(key(w[0]) < key(w[1]));
    }
    for x in xs.iter() {
        assert_eq!(unkey(key(*x)), *x);
    }
    assert_eq!(key(0.0), 0);
}

#[test]
fn closer_keeps_the_earlier_of_equal_hits() {
    let a = hit_at(5, 1);
    let b = hit_at(5, 2);
    let c = hit_at(4, 3);
    assert!(closer(None, None).is_none());
    assert_eq!(closer(None, Some(a)).unwrap().material, 1);
    assert_eq!(closer(Some(a), None).unwrap().material, 1);
    assert_eq!(closer(Some(a), Some(b)).unwrap().material, 1);
    assert_eq!(closer(Some(a), Some(c)).unwrap().material, 3);
    assert_eq!(closer(Some(c), Some(a)).unwrap().material, 3);
}

#[test]
fn closest_hit_is_first_minimum() {
    assert!(closest_hit(&vec![]).is_none());
    assert!(closest_hit(&vec![None, None]).is_none());
    let hits = vec![None, Some(hit_at(9, 0)), Some(hit_at(3, 1)), None, Some(hit_at(3, 2)), Some(hit_at(8, 3))];
    let best = closest_hit(&hits).unwrap();
    assert_eq!(best.distance, 3);
    assert_eq!(best.material, 1);
}

#[test]
fn scene_scan_keeps_strictly_closest() {
    let sc = scene(vec![7i64, 2, 9, 2, 5], camera(1, 1, 1, ShadingMode::PathTrace));
    let ray = Ray { origin: Vec3::zero(), direction: Vec3::new(0, 0, -1) };
    let asked = Cell::new(0usize);
    // Object `d` is met at distance `d`, if that lies in the interval.
    let test = |d: &i64, _: &Ray, lo: i64, hi: i64| {
        let n = asked.get();
        asked.set(n + 1);
        if *d < lo || *d > hi { None } else { Some(hit_at(*d, n)) }
    };
    let hit = sc.intersect_ray(&ray, 0, 100, &test).unwrap();
    assert_eq!(hit.distance, 2);
    assert_eq!(hit.material, 1);
    assert_eq!(asked.get(), 5);
    assert!(sc.intersect_ray(&ray, 10, 100, &test).is_none());
    assert_eq!(sc.intersect_ray(&ray, 3, 8, &test).unwrap().distance, 5);
    assert!(sc.bounding_box().is_none());
    let empty: Scene<i64> = scene(vec![], camera(1, 1, 1, ShadingMode::PathTrace));
    assert!(empty.intersect_ray(&ray, 0, 100, &test).is_none());
}

struct Ball {
    center: (f32, f32, f32),
    radius: f32,
}

fn ball_test(ball: &Ball, ray: &Ray, lo: i64, hi: i64) -> Option<RayHit> {
    let o = (unkey(ray.origin.x), unkey(ray.origin.y), unkey(ray.origin.z));
    let d = (unkey(ray.direction.x), unkey(ray.direction.y), unkey(ray.direction.z));
    let f = (o.0 - ball.center.0, o.1 - ball.center.1, o.2 - ball.center.2);
    let a = d.0 * d.0 + d.1 * d.1 + d.2 * d.2;
    let b = 2.0 * (f.0 * d.0 + f.1 * d.1 + f.2 * d.2);
    let c = f.0 * f.0 + f.1 * f.1 + f.2 * f.2 - ball.radius * ball.radius;
    let disc = b * b - 4.0 * a * c;
    if disc < 0.0 {
        return None;
    }
    let t = (-b - disc.sqrt()) / (2.0 * a);
    if key(t) < lo || key(t) > hi {
        return None;
    }
    let p = (o.0 + t * d.0, o.1 + t * d.1, o.2 + t * d.2);
    let n = (
        (p.0 - ball.center.0) / ball.radius,
        (p.1 - ball.center.1) / ball.radius,
        (p.2 - ball.center.2) / ball.radius,
    );
    Some(RayHit {
        distance: key(t),
        hitpoint: kv(p.0, p.1, p.2),
        normal: kv(n.0, n.1, n.2),
        material: 0,
        frontface: true,
        tex_coords: None,
        tangent: None,
        bitangent: None,
    })
}

#[test]
fn unit_ball_is_met_at_distance_four() {
    let sc = scene(
        vec![Ball { center: (0.0, 0.0, 0.0), radius: 1.0 }],
        camera(1, 1, 1, ShadingMode::PathTrace),
    );
    let ray = Ray { origin: kv(0.0, 0.0, 5.0), direction: kv(0.0, 0.0, -1.0) };
    let hit = sc.intersect_ray(&ray, key(0.0), key(100.0), &ball_test).unwrap();
    assert_eq!(unkey(hit.distance), 4.0);
    assert_eq!(hit.hitpoint, kv(0.0, 0.0, 1.0));
    assert_eq!(hit.normal, kv(0.0, 0.0, 1.0));
    assert!(sc.intersect_ray(&ray, key(0.0), key(3.5), &ball_test).is_none());
}

#[test]
fn nearer_of_two_balls_wins() {
    let sc = scene(
        vec![
            Ball { center: (0.0, 0.0, -10.0), radius: 1.0 },
            Ball { center: (0.0, 0.0, 0.0), radius: 0.5 },
        ],
        camera(1, 1, 1, ShadingMode::PathTrace),
    );
    let ray = Ray { origin: kv(0.0, 0.0, 5.0), direction: kv(0.0, 0.0, -1.0) };
    let hit = sc.intersect_ray(&ray, key(0.0), key(100.0), &ball_test).unwrap();
    assert_eq!(unkey(hit.distance), 4.5);
}

#[test]
fn floor_sqrt_values() {
    assert_eq!(floor_sqrt(0), 0);
    assert_eq!(floor_sqrt(1), 1);
    assert_eq!(floor_sqrt(3), 1);
    assert_eq!(floor_sqrt(4), 2);
    assert_eq!(floor_sqrt(99), 9);
    assert_eq!(floor_sqrt(100), 10);
    assert_eq!(floor_sqrt(1_000_000), 1000);
    assert_eq!(floor_sqrt(999_999), 999);
}

#[test]
fn samples_fill_the_grid_once_each() {
    let cam = camera(1, 1, 16, ShadingMode::PathTrace);
    assert_eq!(cam.grid_side(), 4);
    let mut seen = [[false; 4]; 4];
    for i in 0..16 {
        let s = cam.place_sample(i);
        assert_eq!(s.cell_x, i / 4);
        assert_eq!(s.cell_y, i % 4);
        assert!(s.jitter_x < 16 && s.jitter_y < 16);
        assert!(!seen[s.cell_x as usize][s.cell_y as usize]);
        seen[s.cell_x as usize][s.cell_y as usize] = true;
    }
    let single = camera(1, 1, 1, ShadingMode::PathTrace);
    for _ in 0..20 {
        let s = single.place_sample(0);
        assert_eq!(s, SubpixelSample { cell_x: 0, cell_y: 0, jitter_x: 0, jitter_y: 0 });
    }
}

#[test]
fn jitter_varies_and_stays_in_range() {
    let cam = camera(1, 1, 10, ShadingMode::PathTrace);
    assert_eq!(cam.grid_side(), 3);
    let mut distinct = std::collections::BTreeSet::new();
    for _ in 0..200 {
        let s = cam.place_sample(7);
        assert_eq!((s.cell_x, s.cell_y), (2, 1));
        assert!(s.jitter_x < 10 && s.jitter_y < 10);
        distinct.insert(s.jitter_x);
    }
    assert!(distinct.len() > 1);
}

#[test]
fn one_ray_for_each_sample() {
    let cam = camera(1, 1, 9, ShadingMode::PathTrace);
    let make = |x: u32, y: u32, s: SubpixelSample| Ray {
        origin: Vec3::new(x as i64, y as i64, 0),
        direction: Vec3::new(s.cell_x as i64, s.cell_y as i64, -1),
    };
    let rays = cam.generate_rays(2, 1, &make);
    assert_eq!(rays.len(), 9);
    for (i, r) in rays.iter().enumerate() {
        assert_eq!(r.origin, Vec3::new(2, 1, 0));
        assert_eq!(r.direction, Vec3::new(i as i64 / 3, i as i64 % 3, -1));
    }
    let none = camera(1, 1, 0, ShadingMode::PathTrace);
    assert!(none.generate_rays(0, 0, &make).is_empty());
}

fn run_shade(path_depth: u32, path_samples: u32, always_hit: bool) -> (Vec3, u32, u32) {
    let sc = scene(vec![1i64], camera(path_depth, path_samples, 1, ShadingMode::PathTrace));
    let scatters = Cell::new(0u32);
    let deepest = Cell::new(0u32);
    let hit_object = |_: &i64, ray: &Ray, _: i64, _: i64| {
        if always_hit { Some(hit_at(1, ray.origin.x as usize)) } else { None }
    };
    // The origin's x coordinate carries the depth of the ray.
    let scatter = |_: &RayHit, ray: &Ray| {
        scatters.set(scatters.get() + 1);
        let depth = ray.origin.x as u32 + 1;
        if depth > deepest.get() {
            deepest.set(depth);
        }
        (Ray { origin: Vec3::new(depth as i64, 0, 0), direction: ray.direction }, Vec3::new(1, 1, 1), 1i64)
    };
    let gather = |sum: Vec3, _: &RayHit, _: &Ray, _: Vec3, _: i64, incoming: Vec3| {
        Vec3::new(sum.x + incoming.x, sum.y + incoming.y, sum.z + incoming.z)
    };
    // Each hit emits one unit.
    let resolve = |sum: Vec3, _: u32, _: &RayHit| Vec3::new(sum.x + 1, sum.y + 1, sum.z + 1);
    let ray = Ray { origin: Vec3::zero(), direction: Vec3::new(0, 0, -1) };
    let out = sc.shade_ray(&ray, 0, 0, &hit_object, &scatter, &gather, &resolve);
    (out, scatters.get(), deepest.get())
}

#[test]
fn zero_depth_gives_the_void() {
    let (out, scatters, _) = run_shade(0, 1, true);
    assert_eq!(out, Vec3::zero());
    assert_eq!(scatters, 0);
    assert_eq!(Scene::<i64>::background_color(&Vec3::new(1, 2, 3)), Vec3::zero());
}

#[test]
fn a_miss_gives_the_void() {
    let (out, scatters, _) = run_shade(5, 3, false);
    assert_eq!(out, Vec3::zero());
    assert_eq!(scatters, 0);
}

#[test]
fn recursion_stops_at_the_depth_limit() {
    // One sample per hit: a chain of hits, one unit emitted at each level.
    let (out, scatters, deepest) = run_shade(4, 1, true);
    assert_eq!(out, Vec3::new(4, 4, 4));
    assert_eq!(scatters, 4);
    assert_eq!(deepest, 4);
    // Two samples per hit: 1 + 2 + 4 hits emit, 7 in all.
    let (out, scatters, deepest) = run_shade(3, 2, true);
    assert_eq!(out, Vec3::new(7, 7, 7));
    assert_eq!(scatters, 14);
    assert_eq!(deepest, 3);
}

#[test]
fn shading_at_or_past_the_limit_gives_the_void() {
    let sc = scene(vec![1i64], camera(2, 1, 1, ShadingMode::PathTrace));
    let hit_object = |_: &i64, _: &Ray, _: i64, _: i64| Some(hit_at(1, 0));
    let scatter = |_: &RayHit, ray: &Ray| (*ray, Vec3::zero(), 1i64);
    let gather = |sum: Vec3, _: &RayHit, _: &Ray, _: Vec3, _: i64, _: Vec3| sum;
    let resolve = |_: Vec3, _: u32, _: &RayHit| Vec3::new(9, 9, 9);
    let ray = Ray { origin: Vec3::zero(), direction: Vec3::new(0, 0, -1) };
    assert_eq!(sc.shade_ray(&ray, 2, 0, &hit_object, &scatter, &gather, &resolve), Vec3::zero());
    assert_eq!(sc.shade_ray(&ray, 7, 0, &hit_object, &scatter, &gather, &resolve), Vec3::zero());
    assert_eq!(sc.shade_ray(&ray, 1, 0, &hit_object, &scatter, &gather, &resolve), Vec3::new(9, 9, 9));
}

#[test]
fn pixel_samples_use_the_active_shader() {
    let make = |x: u32, y: u32, s: SubpixelSample| Ray {
        origin: Vec3::new(x as i64, y as i64, (s.cell_x * 2 + s.cell_y) as i64),
        direction: Vec3::new(0, 0, -1),
    };
    let phong = |r: &Ray| Vec3::new(1, r.origin.z, 0);
    let path = |r: &Ray| Vec3::new(2, r.origin.z, 0);
    let a: Scene<i64> = scene(vec![], camera(1, 1, 4, ShadingMode::Phong));
    let colors = a.sample_colors(3, 2, &make, &phong, &path);
    assert_eq!(colors, vec![Vec3::new(1, 0, 0), Vec3::new(1, 1, 0), Vec3::new(1, 2, 0), Vec3::new(1, 3, 0)]);
    let b: Scene<i64> = scene(vec![], camera(1, 1, 4, ShadingMode::PathTrace));
    let colors = b.sample_colors(3, 2, &make, &phong, &path);
    assert_eq!(colors, vec![Vec3::new(2, 0, 0), Vec3::new(2, 1, 0), Vec3::new(2, 2, 0), Vec3::new(2, 3, 0)]);
}

#[test]
fn row_holds_three_bytes_for_each_pixel() {
    let sc: Scene<i64> = scene(vec![], camera(1, 1, 1, ShadingMode::PathTrace));
    let shade = |x: u32, y: u32| (x as u8, y as u8, (10 * x + y) as u8);
    let row = sc.render_row(2, &shade);
    assert_eq!(row, vec![0, 2, 2, 1, 2, 12, 2, 2, 22, 3, 2, 32]);
    let mut narrow = camera(1, 1, 1, ShadingMode::PathTrace);
    narrow.screen_width = 0;
    let empty: Scene<i64> = scene(vec![], narrow);
    assert!(empty.render_row(0, &shade).is_empty());
}

#[test]
fn hit_record_faces_the_incoming_ray() {
    let n = Vec3::new(0, 0, 1);
    let r = Vec3::new(0, 0, -1);
    let front = RayHit::new(4, Vec3::new(0, 0, 1), n, r, true, 3);
    assert_eq!(front.distance, 4);
    assert_eq!(front.hitpoint, Vec3::new(0, 0, 1));
    assert_eq!(front.normal, n);
    assert!(front.frontface);
    assert_eq!(front.material, 3);
    assert!(front.tex_coords.is_none() && front.tangent.is_none() && front.bitangent.is_none());
    let back = RayHit::new(4, Vec3::new(0, 0, 1), n, r, false, 3);
    assert_eq!(back.normal, r);
    assert!(!back.frontface);
}

#[test]
fn hits_outside_the_interval_are_misses() {
    assert!(clip(None, 0, 10).is_none());
    assert_eq!(clip(Some(hit_at(0, 1)), 0, 10).unwrap().material, 1);
    assert_eq!(clip(Some(hit_at(10, 2)), 0, 10).unwrap().material, 2);
    assert!(clip(Some(hit_at(-1, 1)), 0, 10).is_none());
    assert!(clip(Some(hit_at(11, 1)), 0, 10).is_none());
}

fn cross(a: (f32, f32, f32), b: (f32, f32, f32)) -> (f32, f32, f32) {
    (a.1 * b.2 - a.2 * b.1, a.2 * b.0 - a.0 * b.2, a.0 * b.1 - a.1 * b.0)
}

fn dot(a: (f32, f32, f32), b: (f32, f32, f32)) -> f32 {
    a.0 * b.0 + a.1 * b.1 + a.2 * b.2
}

fn sub(a: (f32, f32, f32), b: (f32, f32, f32)) -> (f32, f32, f32) {
    (a.0 - b.0, a.1 - b.1, a.2 - b.2)
}

fn un3(v: &Vec3) -> (f32, f32, f32) {
    (unkey(v.x), unkey(v.y), unkey(v.z))
}

fn flat_triangle_test(
    tri: &pathtracer::mesh::IndexedTriangle,
    ray: &Ray,
    lo: i64,
    hi: i64,
) -> Option<RayHit> {
    let (a, b, c) = tri.vertices();
    let (a, b, c) = (un3(&a), un3(&b), un3(&c));
    let (o, d) = (un3(&ray.origin), un3(&ray.direction));
    let e1 = sub(b, a);
    let e2 = sub(c, a);
    let q = cross(d, e2);
    let g = dot(e1, q);
    if g.abs() < 0.0001 {
        return None;
    }
    let f = 1.0 / g;
    let s = sub(o, a);
    let u = f * dot(s, q);
    if u < 0.0 {
        return None;
    }
    let r = cross(s, e1);
    let v = f * dot(d, r);
    if v < 0.0 || u + v > 1.0 {
        return None;
    }
    let t = f * dot(e2, r);
    let p = (o.0 + t * d.0, o.1 + t * d.1, o.2 + t * d.2);
    // The point rebuilt from the barycentric coordinates is the hit point.
    let rebuilt = (a.0 + u * e1.0 + v * e2.0, a.1 + u * e1.1 + v * e2.1, a.2 + u * e1.2 + v * e2.2);
    assert!((p.0 - rebuilt.0).abs() < 1e-4);
    assert!((p.1 - rebuilt.1).abs() < 1e-4);
    assert!((p.2 - rebuilt.2).abs() < 1e-4);
    let n = cross(e1, e2);
    let against = dot(n, d) < 0.0;
    clip(
        Some(RayHit::new(key(t), kv(p.0, p.1, p.2), kv(n.0, n.1, n.2), kv(-n.0, -n.1, -n.2), against, 0)),
        lo,
        hi,
    )
}

fn no_crossings(_: &pathtracer::aabb::AABB, _: &Ray, _: usize) -> pathtracer::slab::Slab {
    pathtracer::slab::Slab { t_lower: 0, t_upper: 0, reversed: false }
}

fn one_triangle_mesh() -> pathtracer::static_mesh::StaticMesh {
    let positions: Vec<i64> =
        [0.0f32, 0.0, 0.0, 2.0, 0.0, 0.0, 0.0, 2.0, 0.0].iter().map(|x| key(*x)).collect();
    let mesh = pathtracer::mesh::MeshData { positions, indices: vec![0, 1, 2] };
    let mut sm = pathtracer::static_mesh::StaticMesh::new(std::sync::Arc::new(mesh), 5);
    sm.build_bvh();
    sm
}

#[test]
fn ray_parallel_to_a_triangle_misses_it() {
    let sm = one_triangle_mesh();
    let parallel = Ray { origin: kv(-1.0, 0.5, 0.0), direction: kv(1.0, 0.0, 0.0) };
    assert!(sm
        .intersect_ray(&parallel, key(0.0), key(100.0), &no_crossings, &flat_triangle_test)
        .is_none());
    let above = Ray { origin: kv(-1.0, 0.5, 1.0), direction: kv(1.0, 0.0, 0.0) };
    assert!(sm
        .intersect_ray(&above, key(0.0), key(100.0), &no_crossings, &flat_triangle_test)
        .is_none());
}

#[test]
fn ray_through_a_triangle_meets_it_inside() {
    let sm = one_triangle_mesh();
    let ray = Ray { origin: kv(0.5, 0.5, 3.0), direction: kv(0.0, 0.0, -1.0) };
    let hit = sm
        .intersect_ray(&ray, key(0.0), key(100.0), &no_crossings, &flat_triangle_test)
        .unwrap();
    assert_eq!(unkey(hit.distance), 3.0);
    assert_eq!(hit.hitpoint, kv(0.5, 0.5, 0.0));
    assert_eq!(hit.material, 5);
    assert!(hit.frontface);
    let outside = Ray { origin: kv(1.5, 1.5, 3.0), direction: kv(0.0, 0.0, -1.0) };
    assert!(sm
        .intersect_ray(&outside, key(0.0), key(100.0), &no_crossings, &flat_triangle_test)
        .is_none());
    assert!(sm
        .intersect_ray(&ray, key(0.0), key(2.5), &no_crossings, &flat_triangle_test)
        .is_none());
}

#[test]
fn image_holds_every_pixel_in_its_slot() {
    let sc: Scene<i64> = scene(vec![], camera(1, 1, 1, ShadingMode::PathTrace));
    assert_eq!(sc.camera.image_bytes(), Some(36));
    let shade = |x: u32, y: u32| (x as u8, y as u8, (10 * y + x) as u8);
    let image = sc.render_to_image(&shade);
    assert_eq!(image.len(), 36);
    for y in 0..3usize {
        for x in 0..4usize {
            let at = 3 * (y * 4 + x);
            assert_eq!(&image[at..at + 3], &[x as u8, y as u8, (10 * y + x) as u8]);
        }
        assert_eq!(&image[12 * y..12 * (y + 1)], &sc.render_row(y as u32, &shade)[..]);
    }
}

#[test]
fn image_size_is_checked_against_the_machine() {
    let mut cam = camera(1, 1, 1, ShadingMode::PathTrace);
    cam.screen_width = 0;
    assert_eq!(cam.image_bytes(), Some(0));
    cam.screen_width = 1920;
    cam.screen_height = 1080;
    assert_eq!(cam.image_bytes(), Some(6_220_800));
    cam.screen_width = u32::MAX;
    cam.screen_height = u32::MAX;
    assert_eq!(cam.image_bytes(), None);
}
