use vstd::prelude::*;
use crate::hit::Ray;
use crate::random::random_below;
use crate::vector::Vec3;

verus! {

/// How camera rays are formed.
#[derive(Clone, Copy, Debug, PartialEq, Eq, Structural)]
pub enum CameraProjectionMode {
    Orthographic,
    Perspective,
}

/// How a camera ray is turned into a colour.
#[derive(Clone, Copy, Debug, PartialEq, Eq, Structural)]
pub enum ShadingMode {
    Phong,
    PathTrace,
}

/// The camera and the render settings. It does not change during a render.
#[derive(Clone, Copy, Debug)]
pub struct Camera {
    pub eyepoint: Vec3,
    pub view_dir: Vec3,
    pub up: Vec3,
    pub projection_mode: CameraProjectionMode,
    pub shading_mode: ShadingMode,
    /// Recursion depth of the path integrator.
    pub path_depth: u32,
    /// Scattered rays drawn at each hit.
    pub path_samples: u32,
    pub screen_width: u32,
    pub screen_height: u32,
    pub focal_length: i64,
    pub focus_dist: i64,
    pub lens_radius: i64,
    /// Rays per pixel; a perfect square fills the sample grid evenly.
    pub aa_sample_count: u32,
    pub max_trace_dist: i64,
    pub gamma: i64,
}

/// Where inside its pixel one camera ray is aimed: a cell of the sample
/// grid, and a jitter step on each axis out of as many steps as there are
/// samples.
#[derive(Clone, Copy, Debug, PartialEq, Eq, Structural)]
pub struct SubpixelSample {
    pub cell_x: u32,
    pub cell_y: u32,
    pub jitter_x: u32,
    pub jitter_y: u32,
}

/// Whether `root` is the square root of `n`, rounded down.
pub open spec fn is_floor_sqrt(n: int, root: int) -> bool {
    0 <= root && root * root <= n && n < (root + 1) * (root + 1)
}

/// Computes the square root of `n`, rounded down.
pub fn floor_sqrt(n: u32) -> (root: u32)
    ensures
        is_floor_sqrt(n as int, root as int),
{
    let mut root: u64 = 0;
    let target: u64 = n as u64;
    while (root + 1) * (root + 1) <= target
        invariant
            root * root <= target,
            target == n,
            root <= 0xffff,
            (root + 1) * (root + 1) <= 0x1_0000_0000,
        decreases target - root * root,
    {
        assert((root + 1) * (root + 1) > root * root) by (nonlinear_arith);
        assert((root + 1) * (root + 1) <= 0xffff_ffff ==> root + 1 <= 0xffff) by (nonlinear_arith);
        root += 1;
        assert(root <= 0xffff ==> (root + 1) * (root + 1) <= 0x1_0000_0000) by (nonlinear_arith);
    }
    root as u32
}

impl Camera {
    /// The cell of sample `i` in a grid of the given side: samples fill the
    /// grid column by column.
    pub open spec fn cell_of(i: int, side: int) -> (int, int) {
        (i / side, i % side)
    }

    /// Whether `s` is a possible placement of sample `i`: its cell is the
    /// one that the grid assigns to `i`, and both jitter steps are below the
    /// sample count.
    pub open spec fn places(self, i: int, s: SubpixelSample) -> bool {
        exists|side: int|
            {
                &&& #[trigger] is_floor_sqrt(self.aa_sample_count as int, side)
                &&& side > 0
                &&& s.cell_x == Camera::cell_of(i, side).0
                &&& s.cell_y == Camera::cell_of(i, side).1
                &&& s.jitter_x < self.aa_sample_count
                &&& s.jitter_y < self.aa_sample_count
            }
    }

    /// Whether `ray` is a possible ray for sample `i` of the pixel
    /// `(screen_x, screen_y)`: what `make_ray` gives for some placement of
    /// the sample.
    pub open spec fn aims<F>(
        self,
        make_ray: F,
        screen_x: u32,
        screen_y: u32,
        i: int,
        ray: Ray,
    ) -> bool where F: Fn(u32, u32, SubpixelSample) -> Ray {
        exists|s: SubpixelSample| #[trigger]
            self.places(i, s) && call_ensures(make_ray, (screen_x, screen_y, s), ray)
    }

    /// Computes the side of the sample grid.
    pub fn grid_side(&self) -> (side: u32)
        ensures
            is_floor_sqrt(self.aa_sample_count as int, side as int),
            self.aa_sample_count > 0 ==> side > 0,
    {
        let side: u32 = floor_sqrt(self.aa_sample_count);
        assert(self.aa_sample_count > 0 ==> side > 0) by (nonlinear_arith)
            requires
                is_floor_sqrt(self.aa_sample_count as int, side as int),
        ;
        side
    }

    /// Places sample `i` of a pixel: its grid cell, and two jitter steps
    /// drawn at random.
    pub fn place_sample(&self, i: u32) -> (s: SubpixelSample)
        requires
            i < self.aa_sample_count,
        ensures
            self.places(i as int, s),
    {
        let side: u32 = self.grid_side();
        let jitter_x: u32 = random_below(self.aa_sample_count);
        let jitter_y: u32 = random_below(self.aa_sample_count);
        SubpixelSample { cell_x: i / side, cell_y: i % side, jitter_x, jitter_y }
    }

    /// Generates the rays of one pixel, one for each anti-aliasing sample.
    ///
    /// Sample `i` is placed in its cell of the sample grid with a random
    /// jitter, and `make_ray` forms the ray through that place of the pixel
    /// `(screen_x, screen_y)`.
    pub fn generate_rays<F>(&self, screen_x: u32, screen_y: u32, make_ray: &F) -> (rays: Vec<Ray>)
        where F: Fn(u32, u32, SubpixelSample) -> Ray
        requires
            forall|s: SubpixelSample| call_requires(*make_ray, (screen_x, screen_y, s)),
        ensures
            rays@.len() == self.aa_sample_count,
            forall|i: int|
                0 <= i < rays@.len() ==> self.aims(
                    *make_ray,
                    screen_x,
                    screen_y,
                    i,
                    #[trigger] rays@[i],
                ),
    {
        let mut rays: Vec<Ray> = Vec::new();
        let mut i: u32 = 0;
        while i < self.aa_sample_count
            invariant
                i <= self.aa_sample_count,
                rays@.len() == i,
                forall|s: SubpixelSample| call_requires(*make_ray, (screen_x, screen_y, s)),
                forall|k: int|
                    0 <= k < rays@.len() ==> self.aims(
                        *make_ray,
                        screen_x,
                        screen_y,
                        k,
                        #[trigger] rays@[k],
                    ),
            decreases self.aa_sample_count - i,
        {
            let s = self.place_sample(i);
            let ray = make_ray(screen_x, screen_y, s);
            let ghost before = rays@;
            rays.push(ray);
            assert forall|k: int| 0 <= k < rays@.len() implies self.aims(
                *make_ray,
                screen_x,
                screen_y,
                k,
                #[trigger] rays@[k],
            ) by {
                if k < i {
                    assert(rays@[k] == before[k]);
                } else {
                    assert(self.places(k, s));
                }
            }
            i += 1;
        }
        rays
    }
}

/// Every sample lies in a row of the grid, and its cell determines it: the
/// column times the side plus the row gives back the sample number. Where
/// the sample count is a perfect square the column lies in the grid too, so
/// that each cell holds exactly one sample.
pub proof fn lemma_cells_cover_grid(n: int, side: int, i: int)
    requires
        is_floor_sqrt(n, side),
        0 <= i < n,
    ensures
        side > 0,
        0 <= Camera::cell_of(i, side).1 < side,
        0 <= Camera::cell_of(i, side).0,
        Camera::cell_of(i, side).0 * side + Camera::cell_of(i, side).1 == i,
        n == side * side ==> Camera::cell_of(i, side).0 < side,
{
    assert(side > 0) by (nonlinear_arith)
        requires
            0 <= side,
            n < (side + 1) * (side + 1),
            0 < n,
            side * side <= n,
    ;
    let q = i / side;
    let r = i % side;
    assert(q * side + r == i && 0 <= r < side && 0 <= q) by (nonlinear_arith)
        requires
            side > 0,
            i >= 0,
            q == i / side,
            r == i % side,
    ;
    if n == side * side {
        assert(q < side) by (nonlinear_arith)
            requires
                q * side + r == i,
                i < side * side,
                0 <= r,
                side > 0,
        ;
    }
}

} // verus!
