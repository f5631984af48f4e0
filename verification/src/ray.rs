//! The ray type: an origin and an (unnormalized) direction, evaluated as
//! `origin + t * direction`.

use vstd::prelude::*;
use crate::fx::{mag, FX_BOUND};
use crate::fx::lemma_fx_mul_mag;
use crate::vec3::{v3_in_bound, v3_plus_s, v3_scale_s, Vec3};

verus! {

#[derive(Clone, Copy, Debug, PartialEq, Eq, Structural)]
pub struct Ray {
    pub a: Vec3,
    pub b: Vec3,
}

/// A ray whose origin and direction both lie within the kernel's coordinate
/// bound.
pub open spec fn ray_wf(r: Ray) -> bool {
    &&& v3_in_bound(r.a, FX_BOUND as int)
    &&& v3_in_bound(r.b, FX_BOUND as int)
}

/// The point reached after parameter `t` along the ray.
pub open spec fn ray_at_s(r: Ray, t: i64) -> Vec3 {
    v3_plus_s(r.a, v3_scale_s(t, r.b))
}

impl Ray {
    pub fn new(a: Vec3, b: Vec3) -> (r: Ray)
        ensures
            r == (Ray { a, b }),
    {
        Ray { a, b }
    }

    pub fn origin(&self) -> (r: Vec3)
        ensures
            r == self.a,
    {
        self.a
    }

    pub fn direction(&self) -> (r: Vec3)
        ensures
            r == self.b,
    {
        self.b
    }

    pub fn point_at_parameter(&self, t: i64) -> (r: Vec3)
        requires
            ray_wf(*self),
            mag(t as int) <= FX_BOUND as int,
        ensures
            r == ray_at_s(*self, t),
            v3_in_bound(r, 0x10000010000000),
    {
        proof {
            assert(0x10000000 * 0x10000000 == 0x100000000000000int) by (nonlinear_arith);
            lemma_fx_mul_mag(t as int, self.b.x as int, FX_BOUND as int, FX_BOUND as int);
            lemma_fx_mul_mag(t as int, self.b.y as int, FX_BOUND as int, FX_BOUND as int);
            lemma_fx_mul_mag(t as int, self.b.z as int, FX_BOUND as int, FX_BOUND as int);
        }
        self.a.plus(self.b.scale(t))
    }
}

} // verus!
