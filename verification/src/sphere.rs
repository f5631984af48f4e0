//! Spheres, hit records and the closest-hit scan over the scene.

use vstd::prelude::*;
use crate::fx::{fx_div, fx_div_s, fx_mul, fx_mul_s, mag, sqrt_fx, sqrt_fx_s, FX_BOUND, FX_ONE};
use crate::fx::lemma_fx_mul_mag;
use crate::ray::{ray_at_s, ray_wf, Ray};
use crate::vec3::{v3_dot_s, v3_in_bound, v3_minus_s, Vec3};

verus! {

/// Guard on the quadratic's coefficients: a scene so far away or so large
/// that a coefficient passes this bound is reported as a miss rather than
/// risking overflow in the discriminant.
pub const COEF_BOUND: i64 = 0x4000000000;

#[derive(Clone, Copy, Debug, PartialEq, Eq, Structural)]
pub enum MaterialKind {
    Lambertian,
    Metal,
    Dielectric,
}

#[derive(Clone, Copy, Debug, PartialEq, Eq, Structural)]
pub struct MaterialInfo {
    pub kind: MaterialKind,
    pub index: usize,
}

impl Default for MaterialKind {
    fn default() -> (r: Self)
        ensures
            r == MaterialKind::Lambertian,
    {
        MaterialKind::Lambertian
    }
}

impl Default for MaterialInfo {
    fn default() -> (r: Self)
        ensures
            r == (MaterialInfo { kind: MaterialKind::Lambertian, index: 0 }),
    {
        let kind = MaterialKind::Lambertian;
        let index: usize = 0;
        MaterialInfo { kind, index }
    }
}

#[derive(Clone, Copy, Debug, PartialEq, Eq, Structural)]
pub struct HitData {
    pub t: i64,
    pub p: Vec3,
    pub normal: Vec3,
    pub material: MaterialInfo,
}

/// A hit record the rest of the kernel can consume: the point within the
/// coordinate bound and the normal within unit scale (up to rounding).
pub open spec fn hit_wf(h: HitData) -> bool {
    &&& mag(h.t as int) <= FX_BOUND as int
    &&& v3_in_bound(h.p, FX_BOUND as int)
    &&& v3_in_bound(h.normal, 2 * (FX_ONE as int))
}

#[derive(Clone, Copy, Debug, PartialEq, Eq, Structural)]
pub struct Sphere {
    pub center: Vec3,
    pub radius: i64,
    pub material: MaterialInfo,
}

pub open spec fn sphere_wf(s: Sphere) -> bool {
    &&& v3_in_bound(s.center, FX_BOUND as int)
    &&& 1 <= s.radius <= FX_BOUND
}

/// The record for an accepted root `t`: the hit point, the outward normal
/// `(p - center) / radius`, and the sphere's material.  A point or normal
/// outside its bound is rejected as a miss.
pub open spec fn sphere_record_s(s: Sphere, r: Ray, t: i64) -> Option<HitData> {
    let p: Vec3 = ray_at_s(r, t);
    if !v3_in_bound(p, FX_BOUND as int) {
        None
    } else {
        let n: Vec3 = Vec3 {
            x: fx_div_s(p.x - s.center.x, s.radius as int) as i64,
            y: fx_div_s(p.y - s.center.y, s.radius as int) as i64,
            z: fx_div_s(p.z - s.center.z, s.radius as int) as i64,
        };
        if !v3_in_bound(n, 2 * (FX_ONE as int)) {
            None
        } else {
            Some(HitData { t, p, normal: n, material: s.material })
        }
    }
}

/// The quadratic `|O + tD - C|^2 = r^2` solved in fixed point: a miss when
/// the discriminant is not positive, otherwise the smaller root in the open
/// window `(t_min, t_max)`, else the larger.
pub open spec fn sphere_hit_s(s: Sphere, r: Ray, t_min: i64, t_max: i64) -> Option<HitData> {
    let oc: Vec3 = v3_minus_s(r.a, s.center);
    let a: int = v3_dot_s(r.b, r.b);
    let b: int = v3_dot_s(oc, r.b);
    let c: int = v3_dot_s(oc, oc) - fx_mul_s(s.radius as int, s.radius as int);
    if a <= 0 || a > COEF_BOUND as int || mag(b) > COEF_BOUND as int || mag(c) > COEF_BOUND as int {
        None
    } else {
        let disc: int = fx_mul_s(b, b) - fx_mul_s(a, c);
        if disc > 0 {
            let sq: int = sqrt_fx_s(disc);
            let t1: int = fx_div_s(-b - sq, a);
            if t_min < t1 < t_max {
                sphere_record_s(s, r, t1 as i64)
            } else {
                let t2: int = fx_div_s(-b + sq, a);
                if t_min < t2 < t_max {
                    sphere_record_s(s, r, t2 as i64)
                } else {
                    None
                }
            }
        } else {
            None
        }
    }
}

impl Sphere {
    fn record(&self, r: &Ray, t: i64) -> (res: Option<HitData>)
        requires
            sphere_wf(*self),
            ray_wf(*r),
            mag(t as int) <= FX_BOUND as int,
        ensures
            res == sphere_record_s(*self, *r, t),
            res matches Some(h) ==> hit_wf(h) && h.t == t && h.material == self.material,
    {
        let p: Vec3 = r.point_at_parameter(t);
        let bound: i64 = FX_BOUND;
        if !(p.x <= bound && -bound <= p.x && p.y <= bound && -bound <= p.y && p.z <= bound
            && -bound <= p.z) {
            return None;
        }
        let n: Vec3 = Vec3 {
            x: fx_div(p.x - self.center.x, self.radius),
            y: fx_div(p.y - self.center.y, self.radius),
            z: fx_div(p.z - self.center.z, self.radius),
        };
        let nb: i64 = 2 * FX_ONE;
        if !(n.x <= nb && -nb <= n.x && n.y <= nb && -nb <= n.y && n.z <= nb && -nb <= n.z) {
            return None;
        }
        Some(HitData { t, p, normal: n, material: self.material })
    }

    /// Whether the ray hits this sphere with a parameter inside the open
    /// window `(t_min, t_max)`, and the associated hit data.
    pub fn hit(&self, r: &Ray, t_min: i64, t_max: i64) -> (res: Option<HitData>)
        requires
            sphere_wf(*self),
            ray_wf(*r),
            mag(t_min as int) <= FX_BOUND as int,
            mag(t_max as int) <= FX_BOUND as int,
        ensures
            res == sphere_hit_s(*self, *r, t_min, t_max),
            res matches Some(h) ==> hit_wf(h) && t_min < h.t < t_max && h.material
                == self.material,
    {
        let oc: Vec3 = r.origin().minus(self.center);
        let av: i64 = r.direction().dot(r.direction());
        let bv: i64 = oc.dot(r.direction());
        proof {
            assert(0x10000000 * 0x10000000 == 0x100000000000000int) by (nonlinear_arith);
            lemma_fx_mul_mag(self.radius as int, self.radius as int, FX_BOUND as int,
                FX_BOUND as int);
        }
        let rr: i64 = fx_mul(self.radius, self.radius);
        let cv: i64 = oc.dot(oc) - rr;
        let cb: i64 = COEF_BOUND;
        if av <= 0 || av > cb || bv > cb || bv < -cb || cv > cb || cv < -cb {
            return None;
        }
        proof {
            assert(0x4000000000 * 0x4000000000 == 0x10000000000000000000int) by (nonlinear_arith);
            lemma_fx_mul_mag(bv as int, bv as int, COEF_BOUND as int, COEF_BOUND as int);
            lemma_fx_mul_mag(av as int, cv as int, COEF_BOUND as int, COEF_BOUND as int);
        }
        let disc: i64 = fx_mul(bv, bv) - fx_mul(av, cv);
        if disc > 0 {
            let sq: i64 = sqrt_fx(disc);
            let t1: i64 = fx_div(-bv - sq, av);
            if t_min < t1 && t1 < t_max {
                return self.record(r, t1);
            }
            let t2: i64 = fx_div(-bv + sq, av);
            if t_min < t2 && t2 < t_max {
                return self.record(r, t2);
            }
        }
        None
    }
}

pub open spec fn world_wf(w: Seq<Sphere>) -> bool {
    forall|i: int| 0 <= i < w.len() ==> sphere_wf(#[trigger] w[i])
}

/// The closest-hit scan, sphere by sphere, narrowing the window to the best
/// parameter found so far.
pub open spec fn world_hit_from_s(
    w: Seq<Sphere>,
    i: int,
    r: Ray,
    t_min: i64,
    closest: i64,
    best: Option<HitData>,
) -> Option<HitData>
    decreases w.len() - i,
{
    if i < 0 || i >= w.len() {
        best
    } else {
        match sphere_hit_s(w[i], r, t_min, closest) {
            Some(h) => world_hit_from_s(w, i + 1, r, t_min, h.t, Some(h)),
            None => world_hit_from_s(w, i + 1, r, t_min, closest, best),
        }
    }
}

/// The closest hit of a ray against the whole scene.
pub open spec fn world_hit_s(w: Seq<Sphere>, r: Ray, t_min: i64, t_max: i64) -> Option<HitData> {
    world_hit_from_s(w, 0, r, t_min, t_max, None)
}

/// Whether the ray hits anything in the scene, returning the hit with the
/// smallest parameter.
pub fn hit(world: &Vec<Sphere>, r: &Ray, t_min: i64, t_max: i64) -> (res: Option<HitData>)
    requires
        world_wf(world@),
        ray_wf(*r),
        mag(t_min as int) <= FX_BOUND as int,
        mag(t_max as int) <= FX_BOUND as int,
    ensures
        res == world_hit_s(world@, *r, t_min, t_max),
        res matches Some(h) ==> hit_wf(h) && t_min < h.t < t_max,
        res matches Some(h) ==> exists|j: int|
            0 <= j < world@.len() && (#[trigger] world@[j]).material == h.material,
{
    let mut best: Option<HitData> = None;
    let mut closest: i64 = t_max;
    let mut i: usize = 0;
    while i < world.len()
        invariant
            world_wf(world@),
            ray_wf(*r),
            mag(t_min as int) <= FX_BOUND as int,
            mag(t_max as int) <= FX_BOUND as int,
            mag(closest as int) <= FX_BOUND as int,
            i <= world.len(),
            world_hit_from_s(world@, i as int, *r, t_min, closest, best) == world_hit_s(
                world@,
                *r,
                t_min,
                t_max,
            ),
            best matches Some(h) ==> hit_wf(h) && t_min < h.t < t_max && h.t == closest,
            best matches Some(h) ==> exists|j: int|
                0 <= j < world@.len() && (#[trigger] world@[j]).material == h.material,
            best is None ==> closest == t_max,
        decreases world.len() - i,
    {
        let s: Sphere = world[i];
        match s.hit(r, t_min, closest) {
            Some(h) => {
                best = Some(h);
                closest = h.t;
            },
            None => {},
        }
        i = i + 1;
    }
    best
}

} // verus!
