//! The thin-lens camera: derived per-frame state that maps normalized image
//! coordinates and a lens sample to a world-space ray.

use vstd::prelude::*;
use crate::fx::{
    clamp_fx, clamp_s, cos_fx, cos_fx_s, fx_div, fx_div_s, fx_mul, fx_mul_s, sin_fx, sin_fx_s,
    FX_ONE, PI_FX,
};
use crate::fx::lemma_fx_mul_mag;
use crate::material::{disk_sample_s, random_in_unit_disk, SAMPLE_CAP};
use crate::ray::{ray_wf, Ray};
use crate::rng::Rng;
use crate::vec3::{
    unit_s, unit_vector, v3_cross_s, v3_in_bound, v3_minus_s, v3_plus_s, v3_scale_s, Vec3,
};

verus! {

/// Cap on the viewport half extents (4.0): a tangent that blows up near a
/// straight-ahead field of view is clamped here instead of overflowing the
/// viewport.
pub const HALF_MAX: i64 = 0x40000;

#[derive(Clone, Copy, Debug, PartialEq, Eq, Structural)]
pub struct Camera {
    pub origin: Vec3,
    pub lower_left_corner: Vec3,
    pub horizontal: Vec3,
    pub vertical: Vec3,
    pub u: Vec3,
    pub v: Vec3,
    pub w: Vec3,
    pub lens_radius: i64,
}

/// The bounds every camera built by `Camera::new` meets, and that
/// `Camera::ray` needs to stay inside the ray bound.
pub open spec fn camera_wf(c: Camera) -> bool {
    &&& v3_in_bound(c.origin, 0x100000)
    &&& v3_in_bound(c.lower_left_corner, 0x4000000)
    &&& v3_in_bound(c.horizontal, 0x1000000)
    &&& v3_in_bound(c.vertical, 0x4000000)
    &&& v3_in_bound(c.u, 0x20000)
    &&& v3_in_bound(c.v, 0x80000)
    &&& v3_in_bound(c.w, 0x20000)
    &&& 0 <= c.lens_radius <= 0x40000
}

/// The tangent of half the field of view, through the sine and cosine
/// approximations, clamped into `[0, HALF_MAX]`.
pub open spec fn half_height_s(vfov: i64) -> int {
    let hv: int = fx_mul_s(vfov as int, 32768);
    let sn: int = sin_fx_s(hv);
    let cs: int = cos_fx_s(hv);
    if cs <= 0 {
        HALF_MAX as int
    } else {
        let t: int = fx_div_s(sn, cs);
        if t < 0 {
            0
        } else if t > HALF_MAX as int {
            HALF_MAX as int
        } else {
            t
        }
    }
}

/// The camera derived from eye position, target, up vector, vertical field
/// of view (radians), aspect ratio, aperture and focus distance.
pub open spec fn camera_new_s(
    from: Vec3,
    to: Vec3,
    vup: Vec3,
    vfov: i64,
    aspect: i64,
    aperture: i64,
    focus_dist: i64,
) -> Camera {
    let lens_radius: int = fx_mul_s(aperture as int, 32768);
    let half_h: int = half_height_s(vfov);
    let half_w: int = clamp_s(fx_mul_s(aspect as int, half_h), HALF_MAX as int);
    let w: Vec3 = unit_s(v3_minus_s(from, to));
    let u: Vec3 = unit_s(v3_cross_s(vup, w));
    let v: Vec3 = v3_cross_s(w, u);
    let hwf: int = fx_mul_s(half_w, focus_dist as int);
    let hhf: int = fx_mul_s(half_h, focus_dist as int);
    let lower_left_corner: Vec3 = v3_minus_s(
        v3_minus_s(v3_minus_s(from, v3_scale_s(hwf as i64, u)), v3_scale_s(hhf as i64, v)),
        v3_scale_s(focus_dist, w),
    );
    let horizontal: Vec3 = v3_scale_s(
        focus_dist,
        v3_scale_s(half_w as i64, v3_scale_s((2 * FX_ONE) as i64, u)),
    );
    let vertical: Vec3 = v3_scale_s(
        focus_dist,
        v3_scale_s(half_h as i64, v3_scale_s((2 * FX_ONE) as i64, v)),
    );
    Camera {
        origin: from,
        lower_left_corner,
        horizontal,
        vertical,
        u,
        v,
        w,
        lens_radius: lens_radius as i64,
    }
}

/// The ray for image coordinates `(uvx, uvy)`, with the origin displaced
/// inside the lens disk for depth of field.
pub open spec fn camera_ray_s(c: Camera, rng: Rng, uvx: i64, uvy: i64) -> (Ray, Rng) {
    let dk: (Vec3, Rng) = disk_sample_s(rng, SAMPLE_CAP as nat);
    let rd: Vec3 = v3_scale_s(c.lens_radius, dk.0);
    let offset: Vec3 = v3_plus_s(v3_scale_s(rd.x, c.u), v3_scale_s(rd.y, c.v));
    let a: Vec3 = v3_plus_s(c.origin, offset);
    let b: Vec3 = v3_minus_s(
        v3_minus_s(
            v3_plus_s(
                v3_plus_s(c.lower_left_corner, v3_scale_s(uvx, c.horizontal)),
                v3_scale_s(uvy, c.vertical),
            ),
            c.origin,
        ),
        offset,
    );
    (Ray { a, b }, dk.1)
}

impl Camera {
    /// Build the per-frame camera state.  Vertical field of view in radians
    /// and aspect ratio as width over height.
    #[verifier::rlimit(100)]
    pub fn new(
        from: Vec3,
        to: Vec3,
        vup: Vec3,
        vfov: i64,
        aspect: i64,
        aperture: i64,
        focus_dist: i64,
    ) -> (c: Camera)
        requires
            v3_in_bound(from, 0x100000),
            v3_in_bound(to, 0x100000),
            v3_in_bound(vup, 0x100000),
            0 < vfov < PI_FX,
            0 <= aspect <= 0x1000000000,
            0 <= aperture <= 0x80000,
            0 <= focus_dist <= 0x100000,
        ensures
            c == camera_new_s(from, to, vup, vfov, aspect, aperture, focus_dist),
            camera_wf(c),
    {
        proof {
            assert(0x80000 * 32768 == 0x400000000int) by (nonlinear_arith);
            lemma_fx_mul_mag(aperture as int, 32768, 0x80000, 32768);
        }
        let lens_radius: i64 = fx_mul(aperture, 32768);
        let hv: i64 = fx_mul(vfov, 32768);
        let sn: i64 = sin_fx(hv);
        let cs: i64 = cos_fx(hv);
        let half_h: i64 = if cs <= 0 {
            HALF_MAX
        } else {
            let t: i64 = fx_div(sn, cs);
            if t < 0 {
                0
            } else if t > HALF_MAX {
                HALF_MAX
            } else {
                t
            }
        };
        proof {
            assert(0x1000000000 * 0x40000 == 0x40000000000000int) by (nonlinear_arith);
            lemma_fx_mul_mag(aspect as int, half_h as int, 0x1000000000, 0x40000);
        }
        let half_w: i64 = clamp_fx(fx_mul(aspect, half_h), HALF_MAX);
        let w: Vec3 = unit_vector(from.minus(to));
        proof {
            assert(0x100000 * 0x20000 == 0x2000000000int) by (nonlinear_arith);
            lemma_fx_mul_mag(vup.y as int, w.z as int, 0x100000, 0x20000);
            lemma_fx_mul_mag(vup.z as int, w.y as int, 0x100000, 0x20000);
            lemma_fx_mul_mag(vup.z as int, w.x as int, 0x100000, 0x20000);
            lemma_fx_mul_mag(vup.x as int, w.z as int, 0x100000, 0x20000);
            lemma_fx_mul_mag(vup.x as int, w.y as int, 0x100000, 0x20000);
            lemma_fx_mul_mag(vup.y as int, w.x as int, 0x100000, 0x20000);
        }
        let u: Vec3 = unit_vector(vup.cross(w));
        proof {
            assert(0x20000 * 0x20000 == 0x400000000int) by (nonlinear_arith);
            lemma_fx_mul_mag(w.y as int, u.z as int, 0x20000, 0x20000);
            lemma_fx_mul_mag(w.z as int, u.y as int, 0x20000, 0x20000);
            lemma_fx_mul_mag(w.z as int, u.x as int, 0x20000, 0x20000);
            lemma_fx_mul_mag(w.x as int, u.z as int, 0x20000, 0x20000);
            lemma_fx_mul_mag(w.x as int, u.y as int, 0x20000, 0x20000);
            lemma_fx_mul_mag(w.y as int, u.x as int, 0x20000, 0x20000);
        }
        let v: Vec3 = w.cross(u);
        proof {
            assert(0x40000 * 0x100000 == 0x4000000000int) by (nonlinear_arith);
            lemma_fx_mul_mag(half_w as int, focus_dist as int, 0x40000, 0x100000);
            lemma_fx_mul_mag(half_h as int, focus_dist as int, 0x40000, 0x100000);
        }
        let hwf: i64 = fx_mul(half_w, focus_dist);
        let hhf: i64 = fx_mul(half_h, focus_dist);
        proof {
            assert(0x400000 * 0x20000 == 0x8000000000int) by (nonlinear_arith);
            lemma_fx_mul_mag(hwf as int, u.x as int, 0x400000, 0x20000);
            lemma_fx_mul_mag(hwf as int, u.y as int, 0x400000, 0x20000);
            lemma_fx_mul_mag(hwf as int, u.z as int, 0x400000, 0x20000);
            assert(0x400000 * 0x80000 == 0x20000000000int) by (nonlinear_arith);
            lemma_fx_mul_mag(hhf as int, v.x as int, 0x400000, 0x80000);
            lemma_fx_mul_mag(hhf as int, v.y as int, 0x400000, 0x80000);
            lemma_fx_mul_mag(hhf as int, v.z as int, 0x400000, 0x80000);
            assert(0x100000 * 0x20000 == 0x2000000000int) by (nonlinear_arith);
            lemma_fx_mul_mag(focus_dist as int, w.x as int, 0x100000, 0x20000);
            lemma_fx_mul_mag(focus_dist as int, w.y as int, 0x100000, 0x20000);
            lemma_fx_mul_mag(focus_dist as int, w.z as int, 0x100000, 0x20000);
        }
        let lower_left_corner: Vec3 = from.minus(u.scale(hwf)).minus(v.scale(hhf)).minus(
            w.scale(focus_dist),
        );
        proof {
            assert(0x20000 * 0x20000 == 0x400000000int) by (nonlinear_arith);
            lemma_fx_mul_mag(2 * FX_ONE as int, u.x as int, 0x20000, 0x20000);
            lemma_fx_mul_mag(2 * FX_ONE as int, u.y as int, 0x20000, 0x20000);
            lemma_fx_mul_mag(2 * FX_ONE as int, u.z as int, 0x20000, 0x20000);
        }
        let u2: Vec3 = u.scale(2 * FX_ONE);
        proof {
            assert(0x40000 * 0x40000 == 0x1000000000int) by (nonlinear_arith);
            lemma_fx_mul_mag(half_w as int, u2.x as int, 0x40000, 0x40000);
            lemma_fx_mul_mag(half_w as int, u2.y as int, 0x40000, 0x40000);
            lemma_fx_mul_mag(half_w as int, u2.z as int, 0x40000, 0x40000);
        }
        let hu: Vec3 = u2.scale(half_w);
        proof {
            assert(0x100000 * 0x100000 == 0x10000000000int) by (nonlinear_arith);
            lemma_fx_mul_mag(focus_dist as int, hu.x as int, 0x100000, 0x100000);
            lemma_fx_mul_mag(focus_dist as int, hu.y as int, 0x100000, 0x100000);
            lemma_fx_mul_mag(focus_dist as int, hu.z as int, 0x100000, 0x100000);
        }
        let horizontal: Vec3 = hu.scale(focus_dist);
        proof {
            assert(0x20000 * 0x80000 == 0x1000000000int) by (nonlinear_arith);
            lemma_fx_mul_mag(2 * FX_ONE as int, v.x as int, 0x20000, 0x80000);
            lemma_fx_mul_mag(2 * FX_ONE as int, v.y as int, 0x20000, 0x80000);
            lemma_fx_mul_mag(2 * FX_ONE as int, v.z as int, 0x20000, 0x80000);
        }
        let v2: Vec3 = v.scale(2 * FX_ONE);
        proof {
            assert(0x40000 * 0x100000 == 0x4000000000int) by (nonlinear_arith);
            lemma_fx_mul_mag(half_h as int, v2.x as int, 0x40000, 0x100000);
            lemma_fx_mul_mag(half_h as int, v2.y as int, 0x40000, 0x100000);
            lemma_fx_mul_mag(half_h as int, v2.z as int, 0x40000, 0x100000);
        }
        let hv2: Vec3 = v2.scale(half_h);
        proof {
            assert(0x100000 * 0x400000 == 0x40000000000int) by (nonlinear_arith);
            lemma_fx_mul_mag(focus_dist as int, hv2.x as int, 0x100000, 0x400000);
            lemma_fx_mul_mag(focus_dist as int, hv2.y as int, 0x100000, 0x400000);
            lemma_fx_mul_mag(focus_dist as int, hv2.z as int, 0x100000, 0x400000);
        }
        let vertical: Vec3 = hv2.scale(focus_dist);
        Camera {
            origin: from,
            lower_left_corner,
            horizontal,
            vertical,
            u,
            v,
            w,
            lens_radius,
        }
    }

    /// The world-space ray through image coordinates `(uvx, uvy)`.
    #[verifier::rlimit(100)]
    pub fn ray(&self, rng: &mut Rng, uvx: i64, uvy: i64) -> (r: Ray)
        requires
            camera_wf(*self),
            0 <= uvx <= 2 * FX_ONE,
            0 <= uvy <= 2 * FX_ONE,
        ensures
            (r, *final(rng)) == camera_ray_s(*self, *old(rng), uvx, uvy),
            ray_wf(r),
    {
        let dk: Vec3 = random_in_unit_disk(rng);
        proof {
            assert(0x40000 * 0x10000 == 0x400000000int) by (nonlinear_arith);
            lemma_fx_mul_mag(self.lens_radius as int, dk.x as int, 0x40000, 0x10000);
            lemma_fx_mul_mag(self.lens_radius as int, dk.y as int, 0x40000, 0x10000);
            lemma_fx_mul_mag(self.lens_radius as int, dk.z as int, 0x40000, 0x10000);
        }
        let rd: Vec3 = dk.scale(self.lens_radius);
        proof {
            assert(0x40000 * 0x20000 == 0x800000000int) by (nonlinear_arith);
            lemma_fx_mul_mag(rd.x as int, self.u.x as int, 0x40000, 0x20000);
            lemma_fx_mul_mag(rd.x as int, self.u.y as int, 0x40000, 0x20000);
            lemma_fx_mul_mag(rd.x as int, self.u.z as int, 0x40000, 0x20000);
            assert(0x40000 * 0x80000 == 0x2000000000int) by (nonlinear_arith);
            lemma_fx_mul_mag(rd.y as int, self.v.x as int, 0x40000, 0x80000);
            lemma_fx_mul_mag(rd.y as int, self.v.y as int, 0x40000, 0x80000);
            lemma_fx_mul_mag(rd.y as int, self.v.z as int, 0x40000, 0x80000);
        }
        let offset: Vec3 = self.u.scale(rd.x).plus(self.v.scale(rd.y));
        proof {
            assert(0x20000 * 0x1000000 == 0x20000000000int) by (nonlinear_arith);
            lemma_fx_mul_mag(uvx as int, self.horizontal.x as int, 0x20000, 0x1000000);
            lemma_fx_mul_mag(uvx as int, self.horizontal.y as int, 0x20000, 0x1000000);
            lemma_fx_mul_mag(uvx as int, self.horizontal.z as int, 0x20000, 0x1000000);
            assert(0x20000 * 0x4000000 == 0x80000000000int) by (nonlinear_arith);
            lemma_fx_mul_mag(uvy as int, self.vertical.x as int, 0x20000, 0x4000000);
            lemma_fx_mul_mag(uvy as int, self.vertical.y as int, 0x20000, 0x4000000);
            lemma_fx_mul_mag(uvy as int, self.vertical.z as int, 0x20000, 0x4000000);
        }
        let a: Vec3 = self.origin.plus(offset);
        let b: Vec3 = self.lower_left_corner.plus(self.horizontal.scale(uvx)).plus(
            self.vertical.scale(uvy),
        ).minus(self.origin).minus(offset);
        Ray::new(a, b)
    }
}

} // verus!
