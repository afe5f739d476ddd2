//! The camera: pixel coordinates to world rays, and full-image rendering.
//!
//! Pixel coordinates map to normalized device coordinates through
//! `coord / ((dimension - 1) / 2) - 1`, giving a point on an image plane
//! one unit in front of the ray origin along the depth axis; the per-pixel
//! ray direction is the normalized vector from the origin to that point.

use vstd::prelude::*;
use crate::fx::{fdiv_s, Fx, SCALE};
use crate::image::{Image, Resolution};
use crate::object::ray_wf;
use crate::ray::Ray;
use crate::scene::{trace_s, Scene};
use crate::vector::{
    bounded3, lemma_dot_bound, lemma_mag_lower, mag_sq_int, normalized_v, sub_v, HVector,
};

verus! {

/// Camera positions stay within 1024 world units per axis.
pub const CAMERA_LIMIT: i64 = 0x400_0000;

/// Raster dimensions stay modest, and leave room for the half-resolution
/// divisor.
pub const RESOLUTION_LIMIT: usize = 4096;

pub struct Camera {
    pub position: HVector,
    pub resolution: Resolution,
}

pub open spec fn camera_wf(cam: Camera) -> bool {
    &&& bounded3(cam.position, CAMERA_LIMIT as int)
    &&& 2 <= cam.resolution.height <= RESOLUTION_LIMIT
    &&& 2 <= cam.resolution.width <= RESOLUTION_LIMIT
}

/// The camera-plane position of a pixel: the camera position offset by
/// the pixel's normalized device coordinates (rows growing downward),
/// mirrored to the near side of the depth axis.
pub open spec fn pixel_position_s(cam: Camera, row: int, column: int) -> HVector {
    let rp = fdiv_s(row * 65536, (cam.resolution.height as int - 1) * 32768) - 65536;
    let cp = fdiv_s(column * 65536, (cam.resolution.width as int - 1) * 32768) - 65536;
    HVector {
        x: Fx { raw: (cam.position.x@ + cp) as i64 },
        y: Fx { raw: (cam.position.y@ - rp) as i64 },
        z: Fx { raw: (-cam.position.z@) as i64 },
        w: Fx { raw: SCALE },
    }
}

/// The ray-origin point: one unit behind the camera plane on the
/// mirrored depth axis.
pub open spec fn camera_origin_s(cam: Camera) -> HVector {
    HVector {
        x: cam.position.x,
        y: cam.position.y,
        z: Fx { raw: (-cam.position.z@ + 65536) as i64 },
        w: Fx { raw: SCALE },
    }
}

/// The world ray of one pixel: from the origin point toward the pixel's
/// plane position, normalized.
pub open spec fn camera_ray_s(cam: Camera, row: int, column: int) -> Ray {
    let origin = camera_origin_s(cam);
    Ray {
        from: origin,
        direction: normalized_v(sub_v(pixel_position_s(cam, row, column), origin)),
    }
}

/// Distinct pixel coordinates occupy distinct row-major cells.
proof fn lemma_row_major_distinct(r1: int, c1: int, r2: int, c2: int, w: int)
    requires
        0 <= c1 < w,
        0 <= c2 < w,
        !(r1 == r2 && c1 == c2),
        0 <= r1,
        0 <= r2,
    ensures
        r1 * w + c1 != r2 * w + c2,
{
    assert(r1 * w + c1 != r2 * w + c2) by (nonlinear_arith)
        requires
            0 <= c1 < w,
            0 <= c2 < w,
            !(r1 == r2 && c1 == c2),
            0 <= r1,
            0 <= r2,
    ;
}

impl Camera {
    pub fn new(position: [Fx; 3], resolution: Resolution) -> (r: Camera)
        ensures
            r.position.x == position[0] && r.position.y == position[1] && r.position.z
                == position[2],
            r.position.w@ == SCALE,
            r.resolution == resolution,
    {
        Camera { position: HVector::new(position), resolution }
    }

    fn get_pixel_position(&self, row: usize, column: usize) -> (r: HVector)
        requires
            camera_wf(*self),
            row < self.resolution.height,
            column < self.resolution.width,
        ensures
            r == pixel_position_s(*self, row as int, column as int),
            bounded3(r, 0x4000_0000),
    {
        let den_r = Fx { raw: ((self.resolution.height - 1) as i64) * 32768 };
        let den_c = Fx { raw: ((self.resolution.width - 1) as i64) * 32768 };
        let row_fx = Fx { raw: (row as i64) * 65536 };
        let col_fx = Fx { raw: (column as i64) * 65536 };
        proof {
            crate::fx::lemma_floor_div_denom_bound(row_fx@ * 65536, den_r@, 32768);
            crate::fx::lemma_floor_div_denom_bound(col_fx@ * 65536, den_c@, 32768);
        }
        let rp = row_fx.div(den_r).sub(Fx::one());
        let cp = col_fx.div(den_c).sub(Fx::one());
        let x = self.position.x.add(cp);
        let y = self.position.y.sub(rp);
        let z = self.position.z.neg();
        HVector::new([x, y, z])
    }

    /// Renders the scene: every pixel is independently set to the trace
    /// of its own camera ray.
    pub fn generate_image(&self, scene: &Scene, depth: u8) -> (image: Image)
        requires
            camera_wf(*self),
            scene.wf(),
        ensures
            image.wf(),
            image.resolution == self.resolution,
            forall|r: int, c: int|
                0 <= r < self.resolution.height && 0 <= c < self.resolution.width
                    ==> image.pixels@[r * self.resolution.width + c] == trace_s(
                    *scene,
                    #[trigger] camera_ray_s(*self, r, c),
                ),
    {
        proof {
            assert(self.resolution.height * self.resolution.width <= usize::MAX)
                by (nonlinear_arith)
                requires
                    2 <= self.resolution.height <= 4096,
                    2 <= self.resolution.width <= 4096,
            ;
        }
        let mut image = Image::new(&self.resolution);
        let oz = self.position.z.neg().add(Fx::one());
        let origin = HVector::new([self.position.x, self.position.y, oz]);
        proof {
            assert(origin == camera_origin_s(*self));
        }
        let w = self.resolution.width;
        let h = self.resolution.height;
        let mut row: usize = 0;
        while row < h
            invariant
                camera_wf(*self),
                scene.wf(),
                origin == camera_origin_s(*self),
                h == self.resolution.height,
                w == self.resolution.width,
                image.wf(),
                image.resolution == self.resolution,
                row <= h,
                forall|r: int, c: int|
                    0 <= r < row as int && 0 <= c < w as int ==> image.pixels@[r * w as int + c]
                        == trace_s(*scene, #[trigger] camera_ray_s(*self, r, c)),
            decreases h - row,
        {
            let mut col: usize = 0;
            while col < w
                invariant
                    camera_wf(*self),
                    scene.wf(),
                    origin == camera_origin_s(*self),
                    h == self.resolution.height,
                    w == self.resolution.width,
                    image.wf(),
                    image.resolution == self.resolution,
                    row < h,
                    col <= w,
                    forall|r: int, c: int|
                        0 <= r < row as int && 0 <= c < w as int ==> image.pixels@[r * w as int
                            + c] == trace_s(*scene, #[trigger] camera_ray_s(*self, r, c)),
                    forall|c: int|
                        0 <= c < col as int ==> image.pixels@[row as int * w as int + c]
                            == trace_s(*scene, #[trigger] camera_ray_s(*self, row as int, c)),
                decreases w - col,
            {
                let pp = self.get_pixel_position(row, col);
                let dir0 = pp.sub(origin);
                proof {
                    assert(dir0 == sub_v(pp, origin));
                    assert(dir0.z@ == -65536);
                    assert(mag_sq_int(dir0) >= 65536 * 65536) by (nonlinear_arith)
                        requires dir0.z@ == -65536,
                    ;
                    lemma_mag_lower(dir0, 65536);
                    lemma_dot_bound(dir0, dir0, 0x8000_0000, 0x8000_0000);
                }
                let direction = dir0.normalized();
                let ray = Ray { from: origin, direction };
                proof {
                    assert(ray == camera_ray_s(*self, row as int, col as int));
                    assert(ray_wf(ray));
                }
                let colour = scene.trace(&ray, depth);
                let ghost old_pixels = image.pixels@;
                image.set(row, col, colour);
                proof {
                    let wi = w as int;
                    let hi = h as int;
                    let idx = row as int * wi + col as int;
                    assert(image.pixels@ == old_pixels.update(idx, colour));
                    crate::image::lemma_row_major_index(row as int, col as int, hi, wi);
                    assert(image.pixels@[idx] == colour);
                    assert forall|r: int, c: int|
                        0 <= r < row as int && 0 <= c < wi implies image.pixels@[r * wi + c]
                        == trace_s(*scene, #[trigger] camera_ray_s(*self, r, c)) by {
                        lemma_row_major_distinct(r, c, row as int, col as int, wi);
                        crate::image::lemma_row_major_index(r, c, hi, wi);
                        assert(image.pixels@[r * wi + c] == old_pixels[r * wi + c]);
                        assert(old_pixels[r * wi + c] == trace_s(
                            *scene,
                            camera_ray_s(*self, r, c),
                        ));
                    }
                    assert forall|c: int|
                        0 <= c < col as int + 1 implies image.pixels@[row as int * wi + c]
                        == trace_s(*scene, #[trigger] camera_ray_s(*self, row as int, c)) by {
                        if c < col as int {
                            lemma_row_major_distinct(row as int, c, row as int, col as int, wi);
                            crate::image::lemma_row_major_index(row as int, c, hi, wi);
                            assert(image.pixels@[row as int * wi + c] == old_pixels[row as int * wi
                                + c]);
                        } else {
                            assert(c == col as int);
                            assert(image.pixels@[idx] == colour);
                        }
                    }
                }
                col = col + 1;
            }
            row = row + 1;
        }
        image
    }
}

} // verus!
