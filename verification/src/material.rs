//! Surface materials: diffuse (Lambertian), metallic and dielectric
//! scattering, with the rejection samplers, Snell refraction and Schlick
//! reflectance they use.

use vstd::prelude::*;
use crate::fx::{
    clamp_fx, clamp_s, fx_div, fx_div_s, fx_mul, fx_mul_s, mag, sqrt_fx, sqrt_fx_s, FX_BOUND,
    FX_ONE,
};
use crate::fx::{
    lemma_fx_div_denom, lemma_fx_mul_mag, lemma_fx_square_nonneg, lemma_isqrt_mono,
    lemma_isqrt_square,
};
use crate::ray::{ray_wf, Ray};
use crate::rng::{rng_next_s, rng_raw_s, Rng};
use crate::sphere::{hit_wf, HitData, MaterialInfo, MaterialKind};
use crate::vec3::{
    clamp3, clamp3_s, reflect, reflect_s, unit_s, unit_vector, v3_dot_s, v3_in_bound, v3_minus_s,
    v3_neg_s, v3_plus_s, v3_scale_s, v3_zero, Vec3,
};
use crate::vec3::lemma_reflect_unit_mag;

verus! {

/// How many candidate points a rejection sampler may draw before it falls
/// back to the zero vector, so a degenerate seed cannot loop forever.
pub const SAMPLE_CAP: u32 = 100;

/// Rejection sampling of a point inside the unit sphere: up to `fuel`
/// triples of signed draws, keeping the first with squared length below one.
pub open spec fn sphere_sample_s(r: Rng, fuel: nat) -> (Vec3, Rng)
    decreases fuel,
{
    if fuel == 0 {
        (v3_zero(), r)
    } else {
        let g0: int = rng_raw_s(r);
        let r1: Rng = rng_next_s(r);
        let g1: int = rng_raw_s(r1);
        let r2: Rng = rng_next_s(r1);
        let g2: int = rng_raw_s(r2);
        let r3: Rng = rng_next_s(r2);
        let p: Vec3 = Vec3 {
            x: (2 * g0 - 65536) as i64,
            y: (2 * g1 - 65536) as i64,
            z: (2 * g2 - 65536) as i64,
        };
        if v3_dot_s(p, p) < FX_ONE as int {
            (p, r3)
        } else {
            sphere_sample_s(r3, (fuel - 1) as nat)
        }
    }
}

/// Rejection sampling of a point inside the unit disk of the lens plane.
pub open spec fn disk_sample_s(r: Rng, fuel: nat) -> (Vec3, Rng)
    decreases fuel,
{
    if fuel == 0 {
        (v3_zero(), r)
    } else {
        let g0: int = rng_raw_s(r);
        let r1: Rng = rng_next_s(r);
        let g1: int = rng_raw_s(r1);
        let r2: Rng = rng_next_s(r1);
        let p: Vec3 = Vec3 { x: (2 * g0 - 65536) as i64, y: (2 * g1 - 65536) as i64, z: 0 };
        if v3_dot_s(p, p) < FX_ONE as int {
            (p, r2)
        } else {
            disk_sample_s(r2, (fuel - 1) as nat)
        }
    }
}

/// A point strictly inside the unit sphere, drawn by rejection from the
/// sampler (the zero vector once the cap is exhausted).
#[verifier::rlimit(60)]
pub fn random_in_unit_sphere(rng: &mut Rng) -> (p: Vec3)
    ensures
        (p, *final(rng)) == sphere_sample_s(*old(rng), SAMPLE_CAP as nat),
        v3_dot_s(p, p) < FX_ONE as int,
        v3_in_bound(p, FX_ONE as int),
{
    proof {
        assert(0int * 0int == 0) by (nonlinear_arith);
    }
    let ghost orig: Rng = *rng;
    let mut i: u32 = 0;
    while i < SAMPLE_CAP
        invariant
            i <= SAMPLE_CAP,
            orig == *old(rng),
            sphere_sample_s(orig, SAMPLE_CAP as nat) == sphere_sample_s(
                *rng,
                (SAMPLE_CAP - i) as nat,
            ),
        decreases SAMPLE_CAP - i,
    {
        let ghost pre: Rng = *rng;
        let ghost fuel: nat = (SAMPLE_CAP - i) as nat;
        let gx: i64 = rng.gen();
        let gy: i64 = rng.gen();
        let gz: i64 = rng.gen();
        let p = Vec3 { x: 2 * gx - FX_ONE, y: 2 * gy - FX_ONE, z: 2 * gz - FX_ONE };
        let q: i64 = p.length_squared();
        proof {
            assert(sphere_sample_s(pre, fuel) == if v3_dot_s(p, p) < FX_ONE as int {
                (p, *rng)
            } else {
                sphere_sample_s(*rng, (fuel - 1) as nat)
            });
        }
        if q < FX_ONE {
            return p;
        }
        i = i + 1;
    }
    Vec3 { x: 0, y: 0, z: 0 }
}

/// A point strictly inside the unit disk (z = 0), drawn by rejection.
#[verifier::rlimit(60)]
pub fn random_in_unit_disk(rng: &mut Rng) -> (p: Vec3)
    ensures
        (p, *final(rng)) == disk_sample_s(*old(rng), SAMPLE_CAP as nat),
        v3_dot_s(p, p) < FX_ONE as int,
        v3_in_bound(p, FX_ONE as int),
{
    proof {
        assert(0int * 0int == 0) by (nonlinear_arith);
    }
    let ghost orig: Rng = *rng;
    let mut i: u32 = 0;
    while i < SAMPLE_CAP
        invariant
            i <= SAMPLE_CAP,
            orig == *old(rng),
            disk_sample_s(orig, SAMPLE_CAP as nat) == disk_sample_s(*rng, (SAMPLE_CAP - i) as nat),
        decreases SAMPLE_CAP - i,
    {
        let ghost pre: Rng = *rng;
        let ghost fuel: nat = (SAMPLE_CAP - i) as nat;
        let gx: i64 = rng.gen();
        let gy: i64 = rng.gen();
        let p = Vec3 { x: 2 * gx - FX_ONE, y: 2 * gy - FX_ONE, z: 0 };
        let q: i64 = p.length_squared();
        proof {
            assert(disk_sample_s(pre, fuel) == if v3_dot_s(p, p) < FX_ONE as int {
                (p, *rng)
            } else {
                disk_sample_s(*rng, (fuel - 1) as nat)
            });
        }
        if q < FX_ONE {
            return p;
        }
        i = i + 1;
    }
    Vec3 { x: 0, y: 0, z: 0 }
}

/// Vector-form Snell refraction.  `None` means total internal reflection.
pub open spec fn refract_s(v: Vec3, n: Vec3, ni_over_nt: i64) -> Option<Vec3> {
    let uv: Vec3 = unit_s(v);
    let dt: int = v3_dot_s(uv, n);
    let dtdt: int = fx_mul_s(dt, dt);
    let nn: int = fx_mul_s(ni_over_nt as int, ni_over_nt as int);
    let disc: int = FX_ONE as int - fx_mul_s(nn, FX_ONE as int - dtdt);
    if disc > 0 {
        let sq: int = sqrt_fx_s(disc);
        let um: Vec3 = v3_minus_s(uv, v3_scale_s(dt as i64, n));
        Some(v3_minus_s(v3_scale_s(ni_over_nt, um), v3_scale_s(sq as i64, n)))
    } else {
        None
    }
}

/// Refract `v` about the outward normal `n` with refraction ratio
/// `ni_over_nt`; `None` on total internal reflection.
pub fn refract(v: Vec3, n: Vec3, ni_over_nt: i64) -> (res: Option<Vec3>)
    requires
        v3_in_bound(v, FX_BOUND as int),
        v3_in_bound(n, 0x20000),
        0 <= ni_over_nt <= 0x100000,
    ensures
        res == refract_s(v, n, ni_over_nt),
        res matches Some(rf) ==> v3_in_bound(rf, FX_BOUND as int),
{
    let uv: Vec3 = unit_vector(v);
    proof {
        assert(0x20000 * 0x20000 == 0x400000000int) by (nonlinear_arith);
        lemma_fx_mul_mag(uv.x as int, n.x as int, 0x20000, 0x20000);
        lemma_fx_mul_mag(uv.y as int, n.y as int, 0x20000, 0x20000);
        lemma_fx_mul_mag(uv.z as int, n.z as int, 0x20000, 0x20000);
    }
    let dt: i64 = uv.dot(n);
    proof {
        assert(0x100000 * 0x100000 == 0x10000000000int) by (nonlinear_arith);
        lemma_fx_mul_mag(dt as int, dt as int, 0x100000, 0x100000);
        lemma_fx_mul_mag(ni_over_nt as int, ni_over_nt as int, 0x100000, 0x100000);
    }
    let dtdt: i64 = fx_mul(dt, dt);
    let nn: i64 = fx_mul(ni_over_nt, ni_over_nt);
    proof {
        assert(0x1000000 * 0x2000000 == 0x2000000000000int) by (nonlinear_arith);
        lemma_fx_mul_mag(nn as int, (FX_ONE - dtdt) as int, 0x1000000, 0x2000000);
    }
    let inner: i64 = fx_mul(nn, FX_ONE - dtdt);
    let disc: i64 = FX_ONE - inner;
    if disc > 0 {
        proof {
            assert(0x2000000 * 0x2000000 == 0x4000000000000int) by (nonlinear_arith);
            lemma_isqrt_mono((disc * (FX_ONE as int)) as nat, 0x4000000000000);
            lemma_isqrt_square(0x2000000);
        }
        let sq: i64 = sqrt_fx(disc);
        proof {
            assert(0x100000 * 0x20000 == 0x2000000000int) by (nonlinear_arith);
            lemma_fx_mul_mag(dt as int, n.x as int, 0x100000, 0x20000);
            lemma_fx_mul_mag(dt as int, n.y as int, 0x100000, 0x20000);
            lemma_fx_mul_mag(dt as int, n.z as int, 0x100000, 0x20000);
        }
        let ndt: Vec3 = n.scale(dt);
        let um: Vec3 = uv.minus(ndt);
        proof {
            assert(0x100000 * 0x400000 == 0x40000000000int) by (nonlinear_arith);
            lemma_fx_mul_mag(ni_over_nt as int, um.x as int, 0x100000, 0x400000);
            lemma_fx_mul_mag(ni_over_nt as int, um.y as int, 0x100000, 0x400000);
            lemma_fx_mul_mag(ni_over_nt as int, um.z as int, 0x100000, 0x400000);
            assert(0x2000000 * 0x20000 == 0x40000000000int) by (nonlinear_arith);
            lemma_fx_mul_mag(sq as int, n.x as int, 0x2000000, 0x20000);
            lemma_fx_mul_mag(sq as int, n.y as int, 0x2000000, 0x20000);
            lemma_fx_mul_mag(sq as int, n.z as int, 0x2000000, 0x20000);
        }
        let t1v: Vec3 = um.scale(ni_over_nt);
        let t2v: Vec3 = n.scale(sq);
        Some(t1v.minus(t2v))
    } else {
        None
    }
}

/// Schlick's approximation of the Fresnel reflectance:
/// `r0 + (1 - r0) (1 - cos)^5` with `r0 = ((1 - n) / (1 + n))^2`.
pub open spec fn schlick_s(cos: i64, ref_idx: i64) -> int {
    let r0: int = clamp_s(fx_div_s(FX_ONE as int - ref_idx, FX_ONE as int + ref_idx), FX_ONE as int);
    let r0sq: int = fx_mul_s(r0, r0);
    let omc: int = FX_ONE as int - cos;
    let m2: int = fx_mul_s(omc, omc);
    let m4: int = fx_mul_s(m2, m2);
    let p5: int = fx_mul_s(m4, omc);
    r0sq + fx_mul_s(FX_ONE as int - r0sq, p5)
}

/// Schlick reflectance for an incidence cosine and refractive index.
pub fn schlick(cos: i64, ref_idx: i64) -> (r: i64)
    requires
        mag(cos as int) <= 2 * (FX_ONE as int),
        FX_ONE / 4 <= ref_idx <= 0x100000,
    ensures
        r as int == schlick_s(cos, ref_idx),
{
    let r0a: i64 = fx_div(FX_ONE - ref_idx, FX_ONE + ref_idx);
    let r0: i64 = clamp_fx(r0a, FX_ONE);
    proof {
        assert(0x10000 * 0x10000 == 0x100000000int) by (nonlinear_arith);
        lemma_fx_mul_mag(r0 as int, r0 as int, 0x10000, 0x10000);
        lemma_fx_square_nonneg(r0 as int);
    }
    let r0sq: i64 = fx_mul(r0, r0);
    let omc: i64 = FX_ONE - cos;
    proof {
        assert(0x40000 * 0x40000 == 0x1000000000int) by (nonlinear_arith);
        lemma_fx_mul_mag(omc as int, omc as int, 0x40000, 0x40000);
    }
    let m2: i64 = fx_mul(omc, omc);
    proof {
        assert(0x100000 * 0x100000 == 0x10000000000int) by (nonlinear_arith);
        lemma_fx_mul_mag(m2 as int, m2 as int, 0x100000, 0x100000);
    }
    let m4: i64 = fx_mul(m2, m2);
    proof {
        assert(0x1000000 * 0x40000 == 0x40000000000int) by (nonlinear_arith);
        lemma_fx_mul_mag(m4 as int, omc as int, 0x1000000, 0x40000);
        assert(0x20000 * 0x4000000 == 0x80000000000int) by (nonlinear_arith);
    }
    let p5: i64 = fx_mul(m4, omc);
    proof {
        lemma_fx_mul_mag((FX_ONE - r0sq) as int, p5 as int, 0x20000, 0x4000000);
    }
    r0sq + fx_mul(FX_ONE - r0sq, p5)
}

#[derive(Clone, Copy, Debug, PartialEq, Eq, Structural)]
pub struct Lambertian {
    pub albedo: Vec3,
}

#[derive(Clone, Copy, Debug, PartialEq, Eq, Structural)]
pub struct Metal {
    pub albedo: Vec3,
    pub fuzz: i64,
}

#[derive(Clone, Copy, Debug, PartialEq, Eq, Structural)]
pub struct Dielectric {
    pub ref_idx: i64,
}

pub open spec fn lambertian_wf(m: Lambertian) -> bool {
    v3_in_bound(m.albedo, FX_BOUND as int)
}

pub open spec fn metal_wf(m: Metal) -> bool {
    &&& v3_in_bound(m.albedo, FX_BOUND as int)
    &&& 0 <= m.fuzz <= 0x4000000
}

pub open spec fn dielectric_wf(m: Dielectric) -> bool {
    FX_ONE / 4 <= m.ref_idx <= 0x100000
}

impl Lambertian {
    pub fn new(albedo: Vec3) -> (r: Self)
        ensures
            r == (Lambertian { albedo }),
    {
        Lambertian { albedo }
    }
}

impl Metal {
    pub fn new(albedo: Vec3, fuzz: i64) -> (r: Self)
        ensures
            r == (Metal { albedo, fuzz }),
    {
        Metal { albedo, fuzz }
    }
}

impl Dielectric {
    pub fn new(ref_idx: i64) -> (r: Self)
        ensures
            r == (Dielectric { ref_idx }),
    {
        Dielectric { ref_idx }
    }
}

/// Diffuse scattering: the bounced direction is the normal displaced by a
/// random point inside the unit sphere; the attenuation is the albedo.  It
/// never absorbs.
pub open spec fn lambertian_scatter_s(m: Lambertian, h: HitData, rng: Rng) -> (Option<
    (Vec3, Ray),
>, Rng) {
    let sp: (Vec3, Rng) = sphere_sample_s(rng, SAMPLE_CAP as nat);
    let target: Vec3 = v3_plus_s(v3_plus_s(h.p, h.normal), sp.0);
    let dir: Vec3 = v3_minus_s(target, h.p);
    (Some((m.albedo, Ray { a: h.p, b: dir })), sp.1)
}

impl Lambertian {
    /// The scattered ray and attenuation for a diffuse bounce.
    pub fn scatter_ray(&self, hit: &HitData, rng: &mut Rng) -> (res: (Vec3, Ray))
        requires
            lambertian_wf(*self),
            hit_wf(*hit),
        ensures
            lambertian_scatter_s(*self, *hit, *old(rng)) == (Some(res), *final(rng)),
            ray_wf(res.1),
            v3_in_bound(res.0, FX_BOUND as int),
    {
        let rp: Vec3 = random_in_unit_sphere(rng);
        let target: Vec3 = hit.p.plus(hit.normal).plus(rp);
        let r_out: Ray = Ray::new(hit.p, target.minus(hit.p));
        (self.albedo, r_out)
    }

    /// Diffuse scattering never absorbs the ray.
    pub fn scatter(&self, _ray_in: &Ray, hit: &HitData, rng: &mut Rng) -> (res: Option<
        (Vec3, Ray),
    >)
        requires
            lambertian_wf(*self),
            hit_wf(*hit),
        ensures
            (res, *final(rng)) == lambertian_scatter_s(*self, *hit, *old(rng)),
            res is Some,
            res matches Some(ar) ==> ray_wf(ar.1) && v3_in_bound(ar.0, FX_BOUND as int),
    {
        let ar: (Vec3, Ray) = self.scatter_ray(hit, rng);
        Some(ar)
    }
}

/// Metallic scattering: mirror the incoming direction about the normal,
/// perturb it by `fuzz` times a random unit-sphere point, and absorb the ray
/// if the result points into the surface.
pub open spec fn metal_scatter_s(m: Metal, r_in: Ray, h: HitData, rng: Rng) -> (Option<
    (Vec3, Ray),
>, Rng) {
    let refl: Vec3 = reflect_s(unit_s(r_in.b), h.normal);
    let sp: (Vec3, Rng) = sphere_sample_s(rng, SAMPLE_CAP as nat);
    let dir: Vec3 = v3_plus_s(refl, v3_scale_s(m.fuzz, sp.0));
    if v3_dot_s(dir, h.normal) > 0 {
        (Some((m.albedo, Ray { a: h.p, b: dir })), sp.1)
    } else {
        (None, sp.1)
    }
}

impl Metal {
    /// Mirror scattering with a fuzzed reflection cone.
    pub fn scatter(&self, ray_in: &Ray, hit: &HitData, rng: &mut Rng) -> (res: Option<
        (Vec3, Ray),
    >)
        requires
            metal_wf(*self),
            hit_wf(*hit),
            ray_wf(*ray_in),
        ensures
            (res, *final(rng)) == metal_scatter_s(*self, *ray_in, *hit, *old(rng)),
            res matches Some(ar) ==> ray_wf(ar.1) && v3_in_bound(ar.0, FX_BOUND as int),
    {
        let uv: Vec3 = unit_vector(ray_in.direction());
        proof {
            lemma_reflect_unit_mag(uv, hit.normal);
        }
        let reflected: Vec3 = reflect(uv, hit.normal);
        let rp: Vec3 = random_in_unit_sphere(rng);
        proof {
            assert(0x4000000 * 0x10000 == 0x40000000000int) by (nonlinear_arith);
            lemma_fx_mul_mag(self.fuzz as int, rp.x as int, 0x4000000, 0x10000);
            lemma_fx_mul_mag(self.fuzz as int, rp.y as int, 0x4000000, 0x10000);
            lemma_fx_mul_mag(self.fuzz as int, rp.z as int, 0x4000000, 0x10000);
        }
        let dir: Vec3 = reflected.plus(rp.scale(self.fuzz));
        let r_out: Ray = Ray::new(hit.p, dir);
        if dir.dot(hit.normal) > 0 {
            Some((self.albedo, r_out))
        } else {
            None
        }
    }
}

/// Dielectric scattering: refract by Snell's law where geometrically
/// possible, otherwise reflect; when both are possible the sampler chooses,
/// reflecting with probability given by Schlick's approximation.  The ray is
/// never absorbed and the attenuation is white.  A direction whose squared
/// length truncates to zero reflects outright.
pub open spec fn dielectric_scatter_s(m: Dielectric, r_in: Ray, h: HitData, rng: Rng) -> (Option<
    (Vec3, Ray),
>, Rng) {
    let white: Vec3 = Vec3 { x: FX_ONE, y: FX_ONE, z: FX_ONE };
    let dir: Vec3 = r_in.b;
    let refl: Vec3 = clamp3_s(reflect_s(dir, h.normal), FX_BOUND as int);
    let lq: int = v3_dot_s(dir, dir);
    let g: int = rng_raw_s(rng);
    let r2: Rng = rng_next_s(rng);
    if lq <= 0 {
        (Some((white, Ray { a: h.p, b: refl })), r2)
    } else {
        let len: int = sqrt_fx_s(lq);
        let ddn: int = v3_dot_s(dir, h.normal);
        let outward: Vec3 = if ddn > 0 {
            v3_neg_s(h.normal)
        } else {
            h.normal
        };
        let ni: int = if ddn > 0 {
            m.ref_idx as int
        } else {
            fx_div_s(FX_ONE as int, m.ref_idx as int)
        };
        let cos: int = if ddn > 0 {
            clamp_s(fx_div_s(fx_mul_s(m.ref_idx as int, ddn), len), 2 * (FX_ONE as int))
        } else {
            clamp_s(fx_div_s(-ddn, len), 2 * (FX_ONE as int))
        };
        match refract_s(dir, outward, ni as i64) {
            Some(rf) => {
                let prob: int = schlick_s(cos as i64, m.ref_idx);
                if g < prob {
                    (Some((white, Ray { a: h.p, b: refl })), r2)
                } else {
                    (Some((white, Ray { a: h.p, b: clamp3_s(rf, FX_BOUND as int) })), r2)
                }
            },
            None => (Some((white, Ray { a: h.p, b: refl })), r2),
        }
    }
}

impl Dielectric {
    /// Refraction or reflection at a dielectric surface; never absorbs.
    pub fn scatter(&self, ray_in: &Ray, hit: &HitData, rng: &mut Rng) -> (res: Option<
        (Vec3, Ray),
    >)
        requires
            dielectric_wf(*self),
            hit_wf(*hit),
            ray_wf(*ray_in),
        ensures
            (res, *final(rng)) == dielectric_scatter_s(*self, *ray_in, *hit, *old(rng)),
            res is Some,
            res matches Some(ar) ==> ray_wf(ar.1) && v3_in_bound(ar.0, FX_BOUND as int),
    {
        let white: Vec3 = Vec3 { x: FX_ONE, y: FX_ONE, z: FX_ONE };
        let dirv: Vec3 = ray_in.direction();
        let refl0: Vec3 = reflect(dirv, hit.normal);
        let refl: Vec3 = clamp3(refl0, FX_BOUND);
        let lq: i64 = dirv.length_squared();
        let g: i64 = rng.gen();
        if lq <= 0 {
            return Some((white, Ray::new(hit.p, refl)));
        }
        let len: i64 = sqrt_fx(lq);
        proof {
            lemma_isqrt_mono(65536, (lq * (FX_ONE as int)) as nat);
            lemma_isqrt_square(256);
            assert(256nat * 256nat == 65536) by (nonlinear_arith);
            assert(0x10000000 * 0x20000 == 0x200000000000int) by (nonlinear_arith);
            lemma_fx_mul_mag(dirv.x as int, hit.normal.x as int, 0x10000000, 0x20000);
            lemma_fx_mul_mag(dirv.y as int, hit.normal.y as int, 0x10000000, 0x20000);
            lemma_fx_mul_mag(dirv.z as int, hit.normal.z as int, 0x10000000, 0x20000);
        }
        let ddn: i64 = dirv.dot(hit.normal);
        let outward: Vec3;
        let ni: i64;
        let cos0: i64;
        if ddn > 0 {
            outward = hit.normal.neg();
            ni = self.ref_idx;
            proof {
                assert(0x100000 * 0x200000000 == 0x20000000000000int) by (nonlinear_arith);
                lemma_fx_mul_mag(self.ref_idx as int, ddn as int, 0x100000, 0x200000000);
            }
            cos0 = fx_div(fx_mul(self.ref_idx, ddn), len);
        } else {
            outward = hit.normal;
            proof {
                lemma_fx_div_denom(FX_ONE as int, self.ref_idx as int, FX_ONE as int, 16384);
            }
            ni = fx_div(FX_ONE, self.ref_idx);
            cos0 = fx_div(-ddn, len);
        }
        let cos: i64 = clamp_fx(cos0, 2 * FX_ONE);
        let refr_opt: Option<Vec3> = refract(dirv, outward, ni);
        match refr_opt {
            Some(rf) => {
                let prob: i64 = schlick(cos, self.ref_idx);
                if g < prob {
                    Some((white, Ray::new(hit.p, refl)))
                } else {
                    Some((white, Ray::new(hit.p, clamp3(rf, FX_BOUND))))
                }
            },
            None => Some((white, Ray::new(hit.p, refl))),
        }
    }
}

/// The scene's materials, grouped by kind; a `MaterialInfo` picks one.
#[derive(Clone, Debug)]
pub struct Materials {
    pub lambertian: Vec<Lambertian>,
    pub metal: Vec<Metal>,
    pub dielectric: Vec<Dielectric>,
}

/// The mathematical contents of a `Materials` value.
pub struct MatsV {
    pub lambertian: Seq<Lambertian>,
    pub metal: Seq<Metal>,
    pub dielectric: Seq<Dielectric>,
}

impl View for Materials {
    type V = MatsV;

    open spec fn view(&self) -> MatsV {
        MatsV { lambertian: self.lambertian@, metal: self.metal@, dielectric: self.dielectric@ }
    }
}

pub open spec fn mats_wf(m: MatsV) -> bool {
    &&& forall|i: int| 0 <= i < m.lambertian.len() ==> lambertian_wf(#[trigger] m.lambertian[i])
    &&& forall|i: int| 0 <= i < m.metal.len() ==> metal_wf(#[trigger] m.metal[i])
    &&& forall|i: int| 0 <= i < m.dielectric.len() ==> dielectric_wf(#[trigger] m.dielectric[i])
}

/// A material reference that points inside the array of its kind.
pub open spec fn mat_ref_valid(m: MatsV, info: MaterialInfo) -> bool {
    match info.kind {
        MaterialKind::Lambertian => info.index < m.lambertian.len(),
        MaterialKind::Metal => info.index < m.metal.len(),
        MaterialKind::Dielectric => info.index < m.dielectric.len(),
    }
}

/// Dispatch to the material selected by the hit record.
pub open spec fn materials_scatter_s(m: MatsV, r_in: Ray, h: HitData, rng: Rng) -> (Option<
    (Vec3, Ray),
>, Rng) {
    match h.material.kind {
        MaterialKind::Lambertian => lambertian_scatter_s(
            m.lambertian[h.material.index as int],
            h,
            rng,
        ),
        MaterialKind::Metal => metal_scatter_s(m.metal[h.material.index as int], r_in, h, rng),
        MaterialKind::Dielectric => dielectric_scatter_s(
            m.dielectric[h.material.index as int],
            r_in,
            h,
            rng,
        ),
    }
}

impl Materials {
    /// Scatter the ray off the material that the hit record names.
    pub fn scatter(&self, ray_in: &Ray, hit: &HitData, rng: &mut Rng) -> (res: Option<(Vec3, Ray)>)
        requires
            mats_wf(self@),
            mat_ref_valid(self@, hit.material),
            hit_wf(*hit),
            ray_wf(*ray_in),
        ensures
            (res, *final(rng)) == materials_scatter_s(self@, *ray_in, *hit, *old(rng)),
            res matches Some(ar) ==> ray_wf(ar.1) && v3_in_bound(ar.0, FX_BOUND as int),
    {
        match hit.material.kind {
            MaterialKind::Lambertian => {
                let m: Lambertian = self.lambertian[hit.material.index];
                m.scatter(ray_in, hit, rng)
            },
            MaterialKind::Metal => {
                let m: Metal = self.metal[hit.material.index];
                m.scatter(ray_in, hit, rng)
            },
            MaterialKind::Dielectric => {
                let m: Dielectric = self.dielectric[hit.material.index];
                m.scatter(ray_in, hit, rng)
            },
        }
    }
}

} // verus!
