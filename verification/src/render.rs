use vstd::prelude::*;
use crate::camera::{Camera, ShadingMode, SubpixelSample};
use crate::hit::Ray;
use crate::scene::Scene;
use crate::vector::Vec3;

verus! {

impl Camera {
    /// Whether `color` is a possible colour of sample `i` of the pixel
    /// `(screen_x, screen_y)`: what the shader of the active mode gives for
    /// a possible ray of that sample.
    pub open spec fn samples<F, P, Q>(
        self,
        make_ray: F,
        phong: P,
        path_trace: Q,
        screen_x: u32,
        screen_y: u32,
        i: int,
        color: Vec3,
    ) -> bool where
        F: Fn(u32, u32, SubpixelSample) -> Ray,
        P: Fn(&Ray) -> Vec3,
        Q: Fn(&Ray) -> Vec3,
     {
        exists|ray: Ray|
            {
                &&& #[trigger] self.aims(make_ray, screen_x, screen_y, i, ray)
                &&& match self.shading_mode {
                    ShadingMode::Phong => call_ensures(phong, (&ray,), color),
                    ShadingMode::PathTrace => call_ensures(path_trace, (&ray,), color),
                }
            }
    }
}

impl Camera {
    /// The number of bytes of the image: three for each pixel.
    pub open spec fn image_len(self) -> int {
        3 * (self.screen_width * self.screen_height)
    }

    /// Where the three bytes of the pixel `(x, y)` start in the image:
    /// rows follow one another from the top, pixels from the left.
    pub open spec fn slot(self, x: int, y: int) -> int {
        3 * (y * self.screen_width + x)
    }

    /// Computes the number of bytes of the image, unless it is more than
    /// the machine can address.
    pub fn image_bytes(&self) -> (n: Option<usize>)
        ensures
            match n {
                Some(k) => k == self.image_len(),
                None => self.image_len() > usize::MAX,
            },
    {
        let w: u128 = self.screen_width as u128;
        let h: u128 = self.screen_height as u128;
        assert(w * h <= 0xffff_ffff * 0xffff_ffff) by (nonlinear_arith)
            requires
                0 <= w <= 0xffff_ffff,
                0 <= h <= 0xffff_ffff,
        ;
        let total: u128 = 3 * (w * h);
        if total <= usize::MAX as u128 {
            Some(total as usize)
        } else {
            None
        }
    }

    /// Every pixel has a slot of three bytes inside the image, and the slots
    /// of two different pixels share no byte.
    pub proof fn lemma_slots_are_disjoint(self, x1: int, y1: int, x2: int, y2: int)
        requires
            0 <= x1 < self.screen_width,
            0 <= x2 < self.screen_width,
            0 <= y1 < self.screen_height,
            0 <= y2 < self.screen_height,
            x1 != x2 || y1 != y2,
        ensures
            0 <= self.slot(x1, y1),
            self.slot(x1, y1) + 3 <= self.image_len(),
            self.slot(x1, y1) + 3 <= self.slot(x2, y2) || self.slot(x2, y2) + 3 <= self.slot(x1, y1),
    {
        let w = self.screen_width as int;
        let h = self.screen_height as int;
        lemma_slot_in_rows(w, x1, y1, h);
        if y1 < y2 {
            lemma_slot_in_rows(w, x1, y1, y2);
            lemma_slot_in_rows(w, x2, y2, h);
        } else if y2 < y1 {
            lemma_slot_in_rows(w, x2, y2, y1);
            lemma_slot_in_rows(w, x2, y2, h);
        } else {
            lemma_slot_in_rows(w, x2, y2, h);
        }
    }
}

/// The slot of a pixel of row `y` lies within the first `rows` rows, for
/// any `rows` above `y`, and behind the first `y` rows.
pub proof fn lemma_slot_in_rows(width: int, x: int, y: int, rows: int)
    requires
        0 <= x < width,
        0 <= y < rows,
    ensures
        3 * (y * width + x) == 3 * (width * y) + 3 * x,
        3 * (y * width + x) + 3 <= 3 * (width * rows),
        0 <= 3 * (width * y),
{
    assert(y * width == width * y) by (nonlinear_arith);
    assert(width * (y + 1) <= width * rows) by (nonlinear_arith)
        requires
            0 <= width,
            y + 1 <= rows,
    ;
    assert(width * (y + 1) == width * y + width) by (nonlinear_arith);
    assert(0 <= width * y) by (nonlinear_arith)
        requires
            0 <= width,
            0 <= y,
    ;
}

impl<T> Scene<T> {
    /// Shades one pixel: generates its camera rays and runs the shader of
    /// the active mode on each. The result holds one colour for each
    /// anti-aliasing sample, in order.
    pub fn sample_colors<F, P, Q>(
        &self,
        screen_x: u32,
        screen_y: u32,
        make_ray: &F,
        phong: &P,
        path_trace: &Q,
    ) -> (colors: Vec<Vec3>) where
        F: Fn(u32, u32, SubpixelSample) -> Ray,
        P: Fn(&Ray) -> Vec3,
        Q: Fn(&Ray) -> Vec3,

        requires
            forall|s: SubpixelSample| call_requires(*make_ray, (screen_x, screen_y, s)),
            forall|r: Ray| call_requires(*phong, (&r,)),
            forall|r: Ray| call_requires(*path_trace, (&r,)),
        ensures
            colors@.len() == self.camera.aa_sample_count,
            forall|i: int|
                0 <= i < colors@.len() ==> self.camera.samples(
                    *make_ray,
                    *phong,
                    *path_trace,
                    screen_x,
                    screen_y,
                    i,
                    #[trigger] colors@[i],
                ),
    {
        let rays = self.camera.generate_rays(screen_x, screen_y, make_ray);
        let mut colors: Vec<Vec3> = Vec::new();
        let mut i: usize = 0;
        while i < rays.len()
            invariant
                i <= rays@.len(),
                colors@.len() == i,
                rays@.len() == self.camera.aa_sample_count,
                forall|r: Ray| call_requires(*phong, (&r,)),
                forall|r: Ray| call_requires(*path_trace, (&r,)),
                forall|k: int|
                    0 <= k < rays@.len() ==> self.camera.aims(
                        *make_ray,
                        screen_x,
                        screen_y,
                        k,
                        #[trigger] rays@[k],
                    ),
                forall|k: int|
                    0 <= k < colors@.len() ==> self.camera.samples(
                        *make_ray,
                        *phong,
                        *path_trace,
                        screen_x,
                        screen_y,
                        k,
                        #[trigger] colors@[k],
                    ),
            decreases rays@.len() - i,
        {
            let ray = &rays[i];
            let color = match self.camera.shading_mode {
                ShadingMode::Phong => phong(ray),
                ShadingMode::PathTrace => path_trace(ray),
            };
            let ghost before = colors@;
            colors.push(color);
            assert forall|k: int| 0 <= k < colors@.len() implies self.camera.samples(
                *make_ray,
                *phong,
                *path_trace,
                screen_x,
                screen_y,
                k,
                #[trigger] colors@[k],
            ) by {
                if k < i {
                    assert(colors@[k] == before[k]);
                } else {
                    assert(self.camera.aims(*make_ray, screen_x, screen_y, k, rays@[k]));
                    match self.camera.shading_mode {
                        ShadingMode::Phong => {
                            assert(call_ensures(*phong, (&rays@[k],), color));
                        },
                        ShadingMode::PathTrace => {
                            assert(call_ensures(*path_trace, (&rays@[k],), color));
                        },
                    }
                }
            }
            i += 1;
        }
        colors
    }

    /// Renders row `y` of the image: three bytes for each pixel, from left
    /// to right, as `shade_pixel` gives them. Rows share nothing, so they
    /// can be rendered in any order or side by side.
    pub fn render_row<F>(&self, y: u32, shade_pixel: &F) -> (row: Vec<u8>) where
        F: Fn(u32, u32) -> (u8, u8, u8),

        requires
            forall|x: u32| call_requires(*shade_pixel, (x, y)),
        ensures
            row@.len() == 3 * self.camera.screen_width,
            forall|x: u32|
                x < self.camera.screen_width ==> call_ensures(
                    *shade_pixel,
                    (x, y),
                    (#[trigger] row@[3 * x], row@[3 * x + 1], row@[3 * x + 2]),
                ),
    {
        let mut row: Vec<u8> = Vec::new();
        let mut x: u32 = 0;
        while x < self.camera.screen_width
            invariant
                x <= self.camera.screen_width,
                row@.len() == 3 * x,
                forall|x: u32| call_requires(*shade_pixel, (x, y)),
                forall|k: u32|
                    k < x ==> call_ensures(
                        *shade_pixel,
                        (k, y),
                        (#[trigger] row@[3 * k], row@[3 * k + 1], row@[3 * k + 2]),
                    ),
            decreases self.camera.screen_width - x,
        {
            let (r, g, b) = shade_pixel(x, y);
            let ghost before = row@;
            row.push(r);
            row.push(g);
            row.push(b);
            assert forall|k: u32| k < x + 1 implies call_ensures(
                *shade_pixel,
                (k, y),
                (#[trigger] row@[3 * k], row@[3 * k + 1], row@[3 * k + 2]),
            ) by {
                if k < x {
                    assert(row@[3 * k] == before[3 * k]);
                    assert(row@[3 * k + 1] == before[3 * k + 1]);
                    assert(row@[3 * k + 2] == before[3 * k + 2]);
                }
            }
            x += 1;
        }
        row
    }

    /// Renders the whole image, row by row from the top: three bytes for
    /// each pixel, each pixel in its own slot.
    pub fn render_to_image<F>(&self, shade_pixel: &F) -> (image: Vec<u8>) where
        F: Fn(u32, u32) -> (u8, u8, u8),

        requires
            forall|x: u32, y: u32| call_requires(*shade_pixel, (x, y)),
            self.camera.image_len() <= usize::MAX,
        ensures
            image@.len() == self.camera.image_len(),
            forall|x: u32, y: u32|
                x < self.camera.screen_width && y < self.camera.screen_height ==> call_ensures(
                    *shade_pixel,
                    (x, y),
                    (
                        #[trigger] image@[self.camera.slot(x as int, y as int)],
                        image@[self.camera.slot(x as int, y as int) + 1],
                        image@[self.camera.slot(x as int, y as int) + 2],
                    ),
                ),
    {
        let ghost w = self.camera.screen_width as int;
        let mut image: Vec<u8> = Vec::new();
        let mut y: u32 = 0;
        while y < self.camera.screen_height
            invariant
                y <= self.camera.screen_height,
                w == self.camera.screen_width,
                forall|x: u32, y: u32| call_requires(*shade_pixel, (x, y)),
                image@.len() == 3 * (w * y),
                forall|x: u32, r: u32|
                    x < self.camera.screen_width && r < y ==> call_ensures(
                        *shade_pixel,
                        (x, r),
                        (
                            #[trigger] image@[self.camera.slot(x as int, r as int)],
                            image@[self.camera.slot(x as int, r as int) + 1],
                            image@[self.camera.slot(x as int, r as int) + 2],
                        ),
                    ),
            decreases self.camera.screen_height - y,
        {
            let mut row = self.render_row(y, shade_pixel);
            let ghost before = image@;
            let ghost fresh = row@;
            image.append(&mut row);
            proof {
                assert(w * (y + 1) == w * y + w) by (nonlinear_arith);
                assert forall|x: u32, r: u32|
                    x < self.camera.screen_width && r < y + 1 implies call_ensures(
                    *shade_pixel,
                    (x, r),
                    (
                        #[trigger] image@[self.camera.slot(x as int, r as int)],
                        image@[self.camera.slot(x as int, r as int) + 1],
                        image@[self.camera.slot(x as int, r as int) + 2],
                    ),
                ) by {
                    let at = self.camera.slot(x as int, r as int);
                    if r < y {
                        lemma_slot_in_rows(w, x as int, r as int, y as int);
                        assert(image@[at] == before[at]);
                        assert(image@[at + 1] == before[at + 1]);
                        assert(image@[at + 2] == before[at + 2]);
                    } else {
                        lemma_slot_in_rows(w, x as int, r as int, y + 1);
                        assert(at == before.len() + 3 * x);
                        assert(image@[at] == fresh[3 * x]);
                        assert(image@[at + 1] == fresh[3 * x + 1]);
                        assert(image@[at + 2] == fresh[3 * x + 2]);
                    }
                }
            }
            y += 1;
        }
        image
    }
}

} // verus!
