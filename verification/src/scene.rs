use vstd::prelude::*;
use crate::aabb::AABB;
use crate::camera::Camera;
use crate::hit::{closer, closest_of, Ray, RayHit};
use crate::vector::Vec3;

verus! {

/// A camera and the objects it looks at. The objects are kept in order and
/// are not changed during a render. The point light and the ambient term
/// serve the Phong mode only.
pub struct Scene<T> {
    pub camera: Camera,
    pub objects: Vec<T>,
    pub point_light_pos: Vec3,
    pub ambient: Vec3,
}

/// The radiance of the void: zero on every channel.
pub open spec fn void_color() -> Vec3 {
    Vec3 { x: 0, y: 0, z: 0 }
}

impl<T> Scene<T> {
    /// Whether `hits` lists, object by object, a possible result of
    /// `hit_object` on each object of the scene over `[t_min, t_max]`.
    pub open spec fn scanned<H>(
        self,
        ray: Ray,
        t_min: i64,
        t_max: i64,
        hit_object: H,
        hits: Seq<Option<RayHit>>,
    ) -> bool where H: Fn(&T, &Ray, i64, i64) -> Option<RayHit> {
        &&& hits.len() == self.objects@.len()
        &&& forall|i: int|
            0 <= i < hits.len() ==> call_ensures(
                hit_object,
                (&self.objects@[i], &ray, t_min, t_max),
                #[trigger] hits[i],
            )
    }

    /// Whether `out` is a possible result of the scan of the scene: the
    /// closest of the objects' hits, the first one among equally close.
    pub open spec fn finds<H>(
        self,
        ray: Ray,
        t_min: i64,
        t_max: i64,
        hit_object: H,
        out: Option<RayHit>,
    ) -> bool where H: Fn(&T, &Ray, i64, i64) -> Option<RayHit> {
        exists|hits: Seq<Option<RayHit>>|
            self.scanned(ray, t_min, t_max, hit_object, hits) && out == #[trigger] closest_of(hits)
    }

    /// Whether `hit_object` may be called on every object of the scene,
    /// with any ray and any interval.
    pub open spec fn accepts<H>(self, hit_object: H) -> bool where
        H: Fn(&T, &Ray, i64, i64) -> Option<RayHit>,
     {
        forall|i: int, ray: Ray, lo: i64, hi: i64|
            0 <= i < self.objects@.len() ==> call_requires(
                hit_object,
                (&#[trigger] self.objects@[i], &ray, lo, hi),
            )
    }

    /// Whether `integral` is a possible sum after `count` scattered rays
    /// from the hit `hit` of `ray` at recursion depth `depth`.
    pub open spec fn gathered<H, S, G, R>(
        self,
        ray: Ray,
        hit: RayHit,
        depth: u32,
        count: nat,
        t_min: i64,
        hit_object: H,
        scatter: S,
        gather: G,
        resolve: R,
        integral: Vec3,
    ) -> bool where
        H: Fn(&T, &Ray, i64, i64) -> Option<RayHit>,
        S: Fn(&RayHit, &Ray) -> (Ray, Vec3, i64),
        G: Fn(Vec3, &RayHit, &Ray, Vec3, i64, Vec3) -> Vec3,
        R: Fn(Vec3, u32, &RayHit) -> Vec3,

        decreases self.camera.path_depth - depth, 0nat, count,
    {
        if depth >= self.camera.path_depth {
            false
        } else if count == 0 {
            integral == void_color()
        } else {
            exists|before: Vec3, next: Ray, weight: Vec3, pdf: i64, incoming: Vec3|
                {
                    &&& self.gathered(
                        ray,
                        hit,
                        depth,
                        (count - 1) as nat,
                        t_min,
                        hit_object,
                        scatter,
                        gather,
                        resolve,
                        before,
                    )
                    &&& call_ensures(scatter, (&hit, &ray), (next, weight, pdf))
                    &&& self.shading(
                        next,
                        (depth + 1) as u32,
                        t_min,
                        hit_object,
                        scatter,
                        gather,
                        resolve,
                        incoming,
                    )
                    &&& #[trigger] call_ensures(
                        gather,
                        (before, &hit, &next, weight, pdf, incoming),
                        integral,
                    )
                }
        }
    }

    /// Whether `out` is a possible radiance along `ray` at recursion depth
    /// `depth`.
    ///
    /// At the depth limit, and where the ray meets nothing, it is the void.
    /// At a hit, `scatter` draws a new ray with its weight and density for
    /// each of the path samples, the radiance along the new ray is taken one
    /// level deeper, `gather` adds its share to the sum, and `resolve` turns
    /// the sum into the radiance that leaves the hit.
    pub open spec fn shading<H, S, G, R>(
        self,
        ray: Ray,
        depth: u32,
        t_min: i64,
        hit_object: H,
        scatter: S,
        gather: G,
        resolve: R,
        out: Vec3,
    ) -> bool where
        H: Fn(&T, &Ray, i64, i64) -> Option<RayHit>,
        S: Fn(&RayHit, &Ray) -> (Ray, Vec3, i64),
        G: Fn(Vec3, &RayHit, &Ray, Vec3, i64, Vec3) -> Vec3,
        R: Fn(Vec3, u32, &RayHit) -> Vec3,

        decreases self.camera.path_depth - depth, 1nat, 0nat,
    {
        if depth >= self.camera.path_depth {
            out == void_color()
        } else {
            exists|found: Option<RayHit>|
                {
                    &&& #[trigger] self.finds(
                        ray,
                        t_min,
                        self.camera.max_trace_dist,
                        hit_object,
                        found,
                    )
                    &&& match found {
                        None => out == void_color(),
                        Some(hit) => exists|integral: Vec3|
                            {
                                &&& self.gathered(
                                    ray,
                                    hit,
                                    depth,
                                    self.camera.path_samples as nat,
                                    t_min,
                                    hit_object,
                                    scatter,
                                    gather,
                                    resolve,
                                    integral,
                                )
                                &&& #[trigger] call_ensures(
                                    resolve,
                                    (integral, self.camera.path_samples, &hit),
                                    out,
                                )
                            },
                    }
                }
        }
    }

    /// The colour seen where a ray leaves the scene: the void.
    pub fn background_color(_v: &Vec3) -> (c: Vec3)
        ensures
            c == void_color(),
    {
        Vec3::zero()
    }

    /// Scans all objects in order and keeps the closest hit within
    /// `[t_min, t_max]`; of equally close hits the first one stays.
    pub fn intersect_ray<H>(&self, ray: &Ray, t_min: i64, t_max: i64, hit_object: &H) -> (out:
        Option<RayHit>) where H: Fn(&T, &Ray, i64, i64) -> Option<RayHit>
        requires
            self.accepts(*hit_object),
        ensures
            self.finds(*ray, t_min, t_max, *hit_object, out),
    {
        let mut best: Option<RayHit> = None;
        let ghost mut hits: Seq<Option<RayHit>> = Seq::empty();
        let mut i: usize = 0;
        while i < self.objects.len()
            invariant
                i <= self.objects@.len(),
                self.accepts(*hit_object),
                hits.len() == i,
                forall|k: int|
                    0 <= k < i ==> call_ensures(
                        *hit_object,
                        (&self.objects@[k], ray, t_min, t_max),
                        #[trigger] hits[k],
                    ),
                best == closest_of(hits),
            decreases self.objects@.len() - i,
        {
            let hit = hit_object(&self.objects[i], ray, t_min, t_max);
            proof {
                assert(hits.push(hit).drop_last() =~= hits);
                hits = hits.push(hit);
            }
            best = closer(best, hit);
            i += 1;
        }
        assert(self.scanned(*ray, t_min, t_max, *hit_object, hits));
        best
    }

    /// A scene as a whole has no box.
    pub fn bounding_box(&self) -> (r: Option<AABB>)
        ensures
            r.is_none(),
    {
        None
    }

    /// Estimates the radiance along `ray` by path tracing, `recursion_depth`
    /// levels below the camera ray.
    pub fn shade_ray<H, S, G, R>(
        &self,
        ray: &Ray,
        recursion_depth: u32,
        t_min: i64,
        hit_object: &H,
        scatter: &S,
        gather: &G,
        resolve: &R,
    ) -> (out: Vec3) where
        H: Fn(&T, &Ray, i64, i64) -> Option<RayHit>,
        S: Fn(&RayHit, &Ray) -> (Ray, Vec3, i64),
        G: Fn(Vec3, &RayHit, &Ray, Vec3, i64, Vec3) -> Vec3,
        R: Fn(Vec3, u32, &RayHit) -> Vec3,

        requires
            self.accepts(*hit_object),
            forall|h: RayHit, r: Ray| call_requires(*scatter, (&h, &r)),
            forall|a: Vec3, h: RayHit, r: Ray, w: Vec3, p: i64, c: Vec3|
                call_requires(*gather, (a, &h, &r, w, p, c)),
            forall|a: Vec3, n: u32, h: RayHit| call_requires(*resolve, (a, n, &h)),
        ensures
            self.shading(
                *ray,
                recursion_depth,
                t_min,
                *hit_object,
                *scatter,
                *gather,
                *resolve,
                out,
            ),
            recursion_depth >= self.camera.path_depth ==> out == void_color(),
        decreases self.camera.path_depth - recursion_depth,
    {
        if recursion_depth >= self.camera.path_depth {
            return Self::background_color(&ray.direction);
        }
        let found = self.intersect_ray(ray, t_min, self.camera.max_trace_dist, hit_object);
        match found {
            None => {
                let out = Self::background_color(&ray.direction);
                out
            },
            Some(hit) => {
                let mut integral = Vec3::zero();
                let mut i: u32 = 0;
                while i < self.camera.path_samples
                    invariant
                        i <= self.camera.path_samples,
                        recursion_depth < self.camera.path_depth,
                        self.accepts(*hit_object),
                        forall|h: RayHit, r: Ray| call_requires(*scatter, (&h, &r)),
                        forall|a: Vec3, h: RayHit, r: Ray, w: Vec3, p: i64, c: Vec3|
                            call_requires(*gather, (a, &h, &r, w, p, c)),
                        forall|a: Vec3, n: u32, h: RayHit| call_requires(*resolve, (a, n, &h)),
                        self.gathered(
                            *ray,
                            hit,
                            recursion_depth,
                            i as nat,
                            t_min,
                            *hit_object,
                            *scatter,
                            *gather,
                            *resolve,
                            integral,
                        ),
                    decreases self.camera.path_samples - i,
                {
                    let (next, weight, pdf) = scatter(&hit, ray);
                    let incoming = self.shade_ray(
                        &next,
                        recursion_depth + 1,
                        t_min,
                        hit_object,
                        scatter,
                        gather,
                        resolve,
                    );
                    let ghost before = integral;
                    integral = gather(integral, &hit, &next, weight, pdf, incoming);
                    assert(call_ensures(
                        *gather,
                        (before, &hit, &next, weight, pdf, incoming),
                        integral,
                    ));
                    i += 1;
                }
                let out = resolve(integral, self.camera.path_samples, &hit);
                assert(call_ensures(*resolve, (integral, self.camera.path_samples, &hit), out));
                out
            },
        }
    }
}

/// With a recursion depth of zero the path integrator sees the void along
/// every ray.
pub proof fn lemma_zero_depth_is_void<T, H, S, G, R>(
    scene: Scene<T>,
    ray: Ray,
    depth: u32,
    t_min: i64,
    hit_object: H,
    scatter: S,
    gather: G,
    resolve: R,
    out: Vec3,
) where
    H: Fn(&T, &Ray, i64, i64) -> Option<RayHit>,
    S: Fn(&RayHit, &Ray) -> (Ray, Vec3, i64),
    G: Fn(Vec3, &RayHit, &Ray, Vec3, i64, Vec3) -> Vec3,
    R: Fn(Vec3, u32, &RayHit) -> Vec3,

    requires
        scene.camera.path_depth == 0,
        scene.shading(ray, depth, t_min, hit_object, scatter, gather, resolve, out),
    ensures
        out == void_color(),
{
}

/// Rays are scattered only above the depth limit: a sum is gathered at a
/// hit only where the recursion depth is still below the limit, so the
/// chain of nested rays from a camera ray is never longer than the limit.
pub proof fn lemma_scatter_below_limit<T, H, S, G, R>(
    scene: Scene<T>,
    ray: Ray,
    hit: RayHit,
    depth: u32,
    count: nat,
    t_min: i64,
    hit_object: H,
    scatter: S,
    gather: G,
    resolve: R,
    integral: Vec3,
) where
    H: Fn(&T, &Ray, i64, i64) -> Option<RayHit>,
    S: Fn(&RayHit, &Ray) -> (Ray, Vec3, i64),
    G: Fn(Vec3, &RayHit, &Ray, Vec3, i64, Vec3) -> Vec3,
    R: Fn(Vec3, u32, &RayHit) -> Vec3,

    requires
        scene.gathered(
            ray,
            hit,
            depth,
            count,
            t_min,
            hit_object,
            scatter,
            gather,
            resolve,
            integral,
        ),
    ensures
        depth < scene.camera.path_depth,
{
}

/// A ray that meets nothing sees the void: where the scan of the scene can
/// only come back empty, the radiance along the ray is zero at any depth.
pub proof fn lemma_miss_is_void<T, H, S, G, R>(
    scene: Scene<T>,
    ray: Ray,
    depth: u32,
    t_min: i64,
    hit_object: H,
    scatter: S,
    gather: G,
    resolve: R,
    out: Vec3,
) where
    H: Fn(&T, &Ray, i64, i64) -> Option<RayHit>,
    S: Fn(&RayHit, &Ray) -> (Ray, Vec3, i64),
    G: Fn(Vec3, &RayHit, &Ray, Vec3, i64, Vec3) -> Vec3,
    R: Fn(Vec3, u32, &RayHit) -> Vec3,

    requires
        scene.shading(ray, depth, t_min, hit_object, scatter, gather, resolve, out),
        forall|found: Option<RayHit>| #[trigger]
            scene.finds(ray, t_min, scene.camera.max_trace_dist, hit_object, found)
                ==> found.is_none(),
    ensures
        out == void_color(),
{
}

} // verus!
