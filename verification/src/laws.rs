//! The laws of the kernel: properties that hold of every input, stated over
//! the specification functions and proved once and for all.

use vstd::prelude::*;
use crate::fx::{fx_div_s, fx_mul_s, sqrt_fx_s, clamp_s, FX_BOUND, FX_ONE};
use crate::fx::{lemma_div_trunc_ordered, lemma_isqrt_square};
use crate::material::{
    lambertian_scatter_s, metal_scatter_s, schlick_s, sphere_sample_s, Lambertian, Metal,
    SAMPLE_CAP,
};
use crate::ray::Ray;
use crate::render::{pixel_color_s, sky_s, ShaderConstants};
use crate::rng::{rng_next_s, rng_raw_s, rng_signed_s, Rng};
use crate::sphere::{
    sphere_hit_s, sphere_record_s, world_hit_from_s, world_hit_s, HitData, Sphere,
};
use crate::vec3::{reflect_s, unit_s, v3_in_bound, Vec3};

verus! {

/// The sampler is a pure function of its seed: equal seeds draw the same
/// value, the same signed value, and step to the same next seed, so a fixed
/// seed reproduces the same sequence on every run.
pub proof fn lemma_sampler_deterministic(a: Rng, b: Rng)
    requires
        a == b,
    ensures
        rng_raw_s(a) == rng_raw_s(b),
        rng_signed_s(a) == rng_signed_s(b),
        rng_next_s(a) == rng_next_s(b),
{
}

/// The whole per-pixel computation is a pure function of the frame
/// parameters and the pixel coordinates: two runs with identical inputs
/// produce bit-identical colours.
pub proof fn lemma_pixel_idempotent(c: ShaderConstants, frag_x: u32, frag_y: u32, a: Vec3, b: Vec3)
    requires
        a == pixel_color_s(c, frag_x, frag_y),
        b == pixel_color_s(c, frag_x, frag_y),
    ensures
        a == b,
{
}

/// Diffuse scattering never absorbs: for every albedo, every hit record and
/// every sampler state the Lambertian scatter produces a ray.
pub proof fn lemma_lambertian_always_scatters(m: Lambertian, h: HitData, rng: Rng)
    ensures
        lambertian_scatter_s(m, h, rng).0 is Some,
{
}

/// A metal with zero fuzz is a perfect mirror: whenever it scatters, the
/// outgoing direction is exactly the reflection of the normalized incoming
/// direction about the surface normal, and the attenuation is the albedo.
pub proof fn lemma_metal_mirror(m: Metal, r_in: Ray, h: HitData, rng: Rng)
    requires
        m.fuzz == 0,
        metal_scatter_s(m, r_in, h, rng).0 is Some,
    ensures
        metal_scatter_s(m, r_in, h, rng).0 matches Some(ar) ==> ar.1.b == reflect_s(
            unit_s(r_in.b),
            h.normal,
        ) && ar.0 == m.albedo && ar.1.a == h.p,
{
    let sp: (Vec3, Rng) = sphere_sample_s(rng, SAMPLE_CAP as nat);
    assert(0int * (sp.0.x as int) == 0) by (nonlinear_arith);
    assert(0int * (sp.0.y as int) == 0) by (nonlinear_arith);
    assert(0int * (sp.0.z as int) == 0) by (nonlinear_arith);
}

/// Schlick reflectance at normal incidence (`cos = 1`): the fifth-power
/// term vanishes, leaving exactly `r0 = ((1 - n) / (1 + n))^2`; for a
/// refractive index of one the reflectance is exactly zero.
pub proof fn lemma_schlick_normal_incidence(ref_idx: i64)
    requires
        FX_ONE / 4 <= ref_idx <= 0x100000,
    ensures
        schlick_s(FX_ONE, ref_idx) == fx_mul_s(
            clamp_s(fx_div_s(FX_ONE as int - ref_idx, FX_ONE as int + ref_idx), FX_ONE as int),
            clamp_s(fx_div_s(FX_ONE as int - ref_idx, FX_ONE as int + ref_idx), FX_ONE as int),
        ),
        schlick_s(FX_ONE, FX_ONE) == 0,
{
    let r0: int = clamp_s(
        fx_div_s(FX_ONE as int - ref_idx, FX_ONE as int + ref_idx),
        FX_ONE as int,
    );
    let r0sq: int = fx_mul_s(r0, r0);
    assert(0int * 0int == 0) by (nonlinear_arith);
    assert(fx_mul_s(0, 0) == 0);
    assert((FX_ONE as int - r0sq) * 0 == 0) by (nonlinear_arith);
    assert(fx_mul_s(FX_ONE as int - r0sq, 0) == 0);
    let r1: int = clamp_s(fx_div_s(0, 2 * (FX_ONE as int)), FX_ONE as int);
    assert(0int * 65536int == 0) by (nonlinear_arith);
    assert(fx_div_s(0, 2 * (FX_ONE as int)) == 0);
    let z: int = fx_mul_s(0, 0);
    assert((FX_ONE as int - z) * 0 == 0) by (nonlinear_arith);
}

/// The sky gradient's endpoints: a straight-up ray whose direction
/// normalizes exactly (any positive multiple of 1/256) is pale blue, and
/// the matching straight-down ray is white.
pub proof fn lemma_sky_endpoints(r_up: Ray, r_down: Ray, d: i64)
    requires
        0 < d <= FX_BOUND,
        d % 256 == 0,
        r_up.b == (Vec3 { x: 0, y: d, z: 0 }),
        r_down.b == (Vec3 { x: 0, y: (-(d as int)) as i64, z: 0 }),
    ensures
        sky_s(r_up) == (Vec3 { x: 32768, y: 45875, z: FX_ONE }),
        sky_s(r_down) == (Vec3 { x: FX_ONE, y: FX_ONE, z: FX_ONE }),
{
    reveal(crate::vec3::unit_s);
    let k: int = d / 256;
    vstd::arithmetic::div_mod::lemma_fundamental_div_mod(d as int, 256);
    assert(d == 256 * k);
    assert(k >= 1);
    assert(0int * 0int == 0) by (nonlinear_arith);
    assert(fx_mul_s(0, 0) == 0);
    // The squared length is exactly k * k.
    assert((d as int) * (d as int) == 65536 * (k * k)) by (nonlinear_arith)
        requires
            d == 256 * k,
    ;
    assert((-d as int) * (-d as int) == 65536 * (k * k)) by (nonlinear_arith)
        requires
            d == 256 * k,
    ;
    vstd::arithmetic::div_mod::lemma_div_by_multiple(k * k, 65536);
    assert(k * k >= 1) by (nonlinear_arith)
        requires
            k >= 1,
    ;
    let q: int = fx_mul_s(d as int, d as int);
    assert(q == k * k);
    // The length is exactly d.
    assert((k * k) * 65536 == (256 * k) * (256 * k)) by (nonlinear_arith);
    lemma_isqrt_square((256 * k) as nat);
    assert(sqrt_fx_s(q) == d);
    // The unit vector is exactly (0, +/-1, 0).
    vstd::arithmetic::div_mod::lemma_div_by_multiple(65536, d as int);
    assert((d as int) * 65536 == 65536 * (d as int)) by (nonlinear_arith);
    assert(fx_div_s(d as int, d as int) == 65536);
    assert(fx_div_s(-(d as int), d as int) == -65536);
    assert(0int * 65536int == 0) by (nonlinear_arith);
    assert(fx_div_s(0, d as int) == 0);
    assert(unit_s(r_up.b) == (Vec3 { x: 0, y: 65536i64, z: 0 }));
    assert(unit_s(r_down.b) == (Vec3 { x: 0, y: -65536i64, z: 0 }));
    // The lerp parameter is exactly one (up) and zero (down).
    assert(65536int * 32768int == 2147483648int) by (nonlinear_arith);
    assert(65536int * 45875int == 3006464000int) by (nonlinear_arith);
    assert(65536int * 65536int == 4294967296int) by (nonlinear_arith);
    assert(0int * 32768int == 0) by (nonlinear_arith);
    assert(0int * 45875int == 0) by (nonlinear_arith);
    assert(0int * 65536int == 0) by (nonlinear_arith);
    assert(65536int * 0int == 0) by (nonlinear_arith);
}

/// A sphere hit lies strictly inside its search window and carries the
/// record of its own parameter.
proof fn lemma_sphere_hit_in_window(s: Sphere, r: Ray, t_min: i64, t_max: i64)
    ensures
        sphere_hit_s(s, r, t_min, t_max) matches Some(h) ==> t_min < h.t < t_max,
{
    match sphere_hit_s(s, r, t_min, t_max) {
        Some(h) => {
            assert(t_min < h.t < t_max);
        },
        None => {},
    }
}

/// Narrowing the window below a reported hit does not change the report:
/// if a sphere hits at `h.t < c` inside `(t_min, t_full)`, it reports the
/// same hit inside `(t_min, c)`.
proof fn lemma_sphere_hit_narrow(s: Sphere, r: Ray, t_min: i64, c: i64, t_full: i64)
    requires
        c <= t_full,
        sphere_hit_s(s, r, t_min, t_full) is Some,
        sphere_hit_s(s, r, t_min, t_full) matches Some(h) ==> h.t < c,
    ensures
        sphere_hit_s(s, r, t_min, c) == sphere_hit_s(s, r, t_min, t_full),
{
    let oc: Vec3 = crate::vec3::v3_minus_s(r.a, s.center);
    let a: int = crate::vec3::v3_dot_s(r.b, r.b);
    let b: int = crate::vec3::v3_dot_s(oc, r.b);
    let cc: int = crate::vec3::v3_dot_s(oc, oc) - fx_mul_s(s.radius as int, s.radius as int);
    let disc: int = fx_mul_s(b, b) - fx_mul_s(a, cc);
    if disc > 0 {
        let sq: int = sqrt_fx_s(disc);
        let t1: int = fx_div_s(-b - sq, a);
        let t2: int = fx_div_s(-b + sq, a);
        crate::fx::lemma_isqrt_bounds((disc * (FX_ONE as int)) as nat);
        assert(sq >= 0);
        if a >= 0 {
            lemma_div_trunc_ordered((-b - sq) * (FX_ONE as int), (-b + sq) * (FX_ONE as int), a);
            assert((-b - sq) * (FX_ONE as int) <= (-b + sq) * (FX_ONE as int)) by (nonlinear_arith)
                requires
                    sq >= 0,
            ;
        }
        assert(t1 <= t2);
    }
}

/// The scan from index `i` returns the hit with the smallest reported
/// parameter: relative to the full window `t_full`, anything it returns
/// beats every sphere's own full-window report.
proof fn lemma_world_from_closest(
    w: Seq<Sphere>,
    i: int,
    r: Ray,
    t_min: i64,
    closest: i64,
    best: Option<HitData>,
    t_full: i64,
)
    requires
        0 <= i <= w.len(),
        closest <= t_full,
        best matches Some(bh) ==> bh.t == closest,
        best is None ==> closest == t_full,
        forall|j: int|
            0 <= j < i ==> (#[trigger] sphere_hit_s(w[j], r, t_min, t_full) matches Some(h2)
                ==> closest <= h2.t),
    ensures
        world_hit_from_s(w, i, r, t_min, closest, best) matches Some(h) ==> h.t <= closest
            && forall|j: int|
            0 <= j < w.len() ==> (#[trigger] sphere_hit_s(w[j], r, t_min, t_full) matches Some(h2)
                ==> h.t <= h2.t),
        world_hit_from_s(w, i, r, t_min, closest, best) is None ==> best is None && forall|j: int|
            0 <= j < w.len() ==> #[trigger] sphere_hit_s(w[j], r, t_min, t_full) is None,
    decreases w.len() - i,
{
    if i >= w.len() {
        match best {
            Some(bh) => {
                assert forall|j: int|
                    0 <= j < w.len() && (#[trigger] sphere_hit_s(w[j], r, t_min, t_full))
                        is Some implies (sphere_hit_s(w[j], r, t_min, t_full) matches Some(h2)
                    ==> bh.t <= h2.t) by {}
            },
            None => {
                assert forall|j: int| 0 <= j < w.len() implies #[trigger] sphere_hit_s(
                    w[j],
                    r,
                    t_min,
                    t_full,
                ) is None by {
                    if sphere_hit_s(w[j], r, t_min, t_full) is Some {
                        let h2 = sphere_hit_s(w[j], r, t_min, t_full)->Some_0;
                        assert(closest <= h2.t);
                        lemma_sphere_hit_in_window(w[j], r, t_min, t_full);
                        lemma_sphere_hit_narrow(w[j], r, t_min, closest, t_full);
                    }
                }
            },
        }
    } else {
        match sphere_hit_s(w[i], r, t_min, closest) {
            Some(hi) => {
                lemma_sphere_hit_in_window(w[i], r, t_min, closest);
                assert forall|j: int|
                    0 <= j < i + 1 && (#[trigger] sphere_hit_s(w[j], r, t_min, t_full))
                        is Some implies (sphere_hit_s(w[j], r, t_min, t_full) matches Some(h2)
                    ==> hi.t <= h2.t) by {
                    let h2 = sphere_hit_s(w[j], r, t_min, t_full)->Some_0;
                    if j < i {
                        assert(closest <= h2.t);
                    } else {
                        if h2.t < closest {
                            lemma_sphere_hit_narrow(w[i], r, t_min, closest, t_full);
                            assert(h2 == hi);
                        } else {
                            assert(hi.t < closest <= h2.t);
                        }
                    }
                }
                lemma_world_from_closest(w, i + 1, r, t_min, hi.t, Some(hi), t_full);
            },
            None => {
                assert forall|j: int|
                    0 <= j < i + 1 && (#[trigger] sphere_hit_s(w[j], r, t_min, t_full))
                        is Some implies (sphere_hit_s(w[j], r, t_min, t_full) matches Some(h2)
                    ==> closest <= h2.t) by {
                    let h2 = sphere_hit_s(w[j], r, t_min, t_full)->Some_0;
                    if j == i {
                        if h2.t < closest {
                            lemma_sphere_hit_narrow(w[i], r, t_min, closest, t_full);
                        }
                    }
                }
                lemma_world_from_closest(w, i + 1, r, t_min, closest, best, t_full);
            },
        }
    }
}

/// Closest-hit selection: whatever the scene scan returns beats every
/// sphere's own report over the full window — given two overlapping spheres
/// along one ray, the returned hit is the one with the smaller parameter —
/// and the scan reports a miss only when every sphere misses.
pub proof fn lemma_closest_hit(w: Seq<Sphere>, r: Ray, t_min: i64, t_max: i64)
    ensures
        world_hit_s(w, r, t_min, t_max) matches Some(h) ==> forall|j: int|
            0 <= j < w.len() ==> (#[trigger] sphere_hit_s(w[j], r, t_min, t_max) matches Some(h2)
                ==> h.t <= h2.t),
        world_hit_s(w, r, t_min, t_max) is None ==> forall|j: int|
            0 <= j < w.len() ==> #[trigger] sphere_hit_s(w[j], r, t_min, t_max) is None,
{
    lemma_world_from_closest(w, 0, r, t_min, t_max, None, t_max);
}


/// Sphere intersection along the axis: a unit ray aimed straight at a
/// sphere's center hits it exactly at `t = distance - radius`, with the
/// outward normal pointing straight back, whenever distance and radius are
/// exactly representable (multiples of 1/256).
pub proof fn lemma_axis_aligned_hit(
    o: Vec3,
    dist: i64,
    radius: i64,
    t_min: i64,
    t_max: i64,
    mat: crate::sphere::MaterialInfo,
)
    requires
        v3_in_bound(o, 0x4000000),
        0 < radius < dist <= 0x4000000,
        dist % 256 == 0,
        radius % 256 == 0,
        t_min < dist - radius < t_max,
    ensures
        ({
            let s = Sphere {
                center: Vec3 { x: o.x, y: o.y, z: (o.z - dist) as i64 },
                radius,
                material: mat,
            };
            let r = Ray { a: o, b: Vec3 { x: 0, y: 0, z: -65536i64 } };
            sphere_hit_s(s, r, t_min, t_max) == Some(HitData {
                t: (dist - radius) as i64,
                p: Vec3 { x: o.x, y: o.y, z: (o.z - (dist - radius)) as i64 },
                normal: Vec3 { x: 0, y: 0, z: 65536i64 },
                material: mat,
            })
        }),
{
    let s = Sphere {
        center: Vec3 { x: o.x, y: o.y, z: (o.z - dist) as i64 },
        radius,
        material: mat,
    };
    let r = Ray { a: o, b: Vec3 { x: 0, y: 0, z: -65536i64 } };
    let k: int = dist / 256;
    let m: int = radius / 256;
    vstd::arithmetic::div_mod::lemma_fundamental_div_mod(dist as int, 256);
    vstd::arithmetic::div_mod::lemma_fundamental_div_mod(radius as int, 256);
    assert(dist == 256 * k && radius == 256 * m);
    assert(0int * 0int == 0) by (nonlinear_arith);
    assert(fx_mul_s(0, 0) == 0);
    assert((-65536int) * (-65536int) == 65536 * 65536) by (nonlinear_arith);
    vstd::arithmetic::div_mod::lemma_div_by_multiple(65536, 65536);
    assert(fx_mul_s(-65536, -65536) == 65536);
    let a: int = crate::vec3::v3_dot_s(r.b, r.b);
    assert(a == 65536);
    let oc: Vec3 = crate::vec3::v3_minus_s(r.a, s.center);
    assert(oc == (Vec3 { x: 0, y: 0, z: dist }));
    // b = -dist exactly.
    assert((dist as int) * (-65536int) == -(65536 * (dist as int))) by (nonlinear_arith);
    vstd::arithmetic::div_mod::lemma_div_by_multiple(dist as int, 65536);
    assert((dist as int) * 65536 == 65536 * (dist as int)) by (nonlinear_arith);
    let b: int = crate::vec3::v3_dot_s(oc, r.b);
    assert(b == -(dist as int));
    // c = k^2 - m^2 exactly.
    assert((dist as int) * (dist as int) == 65536 * (k * k)) by (nonlinear_arith)
        requires
            dist == 256 * k,
    ;
    assert((radius as int) * (radius as int) == 65536 * (m * m)) by (nonlinear_arith)
        requires
            radius == 256 * m,
    ;
    vstd::arithmetic::div_mod::lemma_div_by_multiple(k * k, 65536);
    vstd::arithmetic::div_mod::lemma_div_by_multiple(m * m, 65536);
    let c: int = crate::vec3::v3_dot_s(oc, oc) - fx_mul_s(s.radius as int, s.radius as int);
    assert(c == k * k - m * m);
    // The coefficient guards pass.
    assert(0 < m < k <= 0x40000);
    assert(k * k <= 0x40000 * 0x40000) by (nonlinear_arith)
        requires
            0 < k <= 0x40000,
    ;
    assert(0x40000 * 0x40000 == 0x1000000000int) by (nonlinear_arith);
    assert(m * m < k * k) by (nonlinear_arith)
        requires
            0 < m < k,
    ;
    assert(m * m >= 1) by (nonlinear_arith)
        requires
            m >= 1,
    ;
    // disc = m^2 exactly, and its square root is the radius.
    assert((-(dist as int)) * (-(dist as int)) == 65536 * (k * k)) by (nonlinear_arith)
        requires
            dist == 256 * k,
    ;
    assert(fx_mul_s(b, b) == k * k);
    assert(65536 * c == c * 65536) by (nonlinear_arith);
    vstd::arithmetic::div_mod::lemma_div_by_multiple(c, 65536);
    assert(fx_mul_s(a, c) == c);
    let disc: int = fx_mul_s(b, b) - fx_mul_s(a, c);
    assert(disc == m * m);
    assert((m * m) * 65536 == (256 * m) * (256 * m)) by (nonlinear_arith);
    lemma_isqrt_square((256 * m) as nat);
    assert(sqrt_fx_s(disc) == radius);
    // The near root is distance minus radius.
    assert(-b - radius == dist - radius);
    assert(((dist - radius) as int) * 65536 == 65536 * ((dist - radius) as int))
        by (nonlinear_arith);
    vstd::arithmetic::div_mod::lemma_div_by_multiple((dist - radius) as int, 65536);
    let t1: int = fx_div_s(-b - sqrt_fx_s(disc), a);
    assert(t1 == dist - radius);
    // The record at that root.
    let tt: i64 = (dist - radius) as i64;
    assert((tt as int) * (-65536int) == -(65536 * (tt as int))) by (nonlinear_arith);
    vstd::arithmetic::div_mod::lemma_div_by_multiple(tt as int, 65536);
    assert(fx_mul_s(tt as int, -65536) == -(tt as int));
    assert(fx_mul_s(tt as int, 0) == 0) by {
        assert((tt as int) * 0 == 0) by (nonlinear_arith);
    }
    let p: Vec3 = crate::ray::ray_at_s(r, tt);
    assert(p == (Vec3 { x: o.x, y: o.y, z: (o.z - (dist - radius)) as i64 }));
    assert(v3_in_bound(p, FX_BOUND as int));
    // The normal is exactly +z.
    assert(p.z - s.center.z == radius);
    assert((radius as int) * 65536 == 65536 * (radius as int)) by (nonlinear_arith);
    vstd::arithmetic::div_mod::lemma_div_by_multiple(65536, radius as int);
    assert(fx_div_s(radius as int, radius as int) == 65536);
    assert(0int * 65536int == 0) by (nonlinear_arith);
    assert(fx_div_s(0, radius as int) == 0);
    assert(sphere_record_s(s, r, tt) == Some(HitData {
        t: tt,
        p,
        normal: Vec3 { x: 0, y: 0, z: 65536i64 },
        material: mat,
    }));
}

/// Sphere intersection, the miss side: a unit ray parallel to the axis
/// whose perpendicular offset exceeds the radius reports no hit, for
/// exactly representable offsets.
pub proof fn lemma_axis_aligned_miss(
    o: Vec3,
    dist: i64,
    radius: i64,
    off: i64,
    t_min: i64,
    t_max: i64,
    mat: crate::sphere::MaterialInfo,
)
    requires
        v3_in_bound(o, 0x4000000),
        0 < radius < off <= 0x4000000,
        0 < dist <= 0x4000000,
        dist % 256 == 0,
        radius % 256 == 0,
        off % 256 == 0,
    ensures
        ({
            let s = Sphere {
                center: Vec3 { x: o.x, y: (o.y - off) as i64, z: (o.z - dist) as i64 },
                radius,
                material: mat,
            };
            let r = Ray { a: o, b: Vec3 { x: 0, y: 0, z: -65536i64 } };
            sphere_hit_s(s, r, t_min, t_max) is None
        }),
{
    let s = Sphere {
        center: Vec3 { x: o.x, y: (o.y - off) as i64, z: (o.z - dist) as i64 },
        radius,
        material: mat,
    };
    let r = Ray { a: o, b: Vec3 { x: 0, y: 0, z: -65536i64 } };
    let k: int = dist / 256;
    let m: int = radius / 256;
    let j: int = off / 256;
    vstd::arithmetic::div_mod::lemma_fundamental_div_mod(dist as int, 256);
    vstd::arithmetic::div_mod::lemma_fundamental_div_mod(radius as int, 256);
    vstd::arithmetic::div_mod::lemma_fundamental_div_mod(off as int, 256);
    assert(dist == 256 * k && radius == 256 * m && off == 256 * j);
    assert(0int * 0int == 0) by (nonlinear_arith);
    assert(fx_mul_s(0, 0) == 0);
    assert((-65536int) * (-65536int) == 65536 * 65536) by (nonlinear_arith);
    vstd::arithmetic::div_mod::lemma_div_by_multiple(65536, 65536);
    let a: int = crate::vec3::v3_dot_s(r.b, r.b);
    assert(a == 65536);
    let oc: Vec3 = crate::vec3::v3_minus_s(r.a, s.center);
    assert(oc == (Vec3 { x: 0, y: off, z: dist }));
    assert((off as int) * 0 == 0) by (nonlinear_arith);
    assert((dist as int) * (-65536int) == -(65536 * (dist as int))) by (nonlinear_arith);
    vstd::arithmetic::div_mod::lemma_div_by_multiple(dist as int, 65536);
    assert((dist as int) * 65536 == 65536 * (dist as int)) by (nonlinear_arith);
    let b: int = crate::vec3::v3_dot_s(oc, r.b);
    assert(b == -(dist as int));
    assert((dist as int) * (dist as int) == 65536 * (k * k)) by (nonlinear_arith)
        requires
            dist == 256 * k,
    ;
    assert((off as int) * (off as int) == 65536 * (j * j)) by (nonlinear_arith)
        requires
            off == 256 * j,
    ;
    assert((radius as int) * (radius as int) == 65536 * (m * m)) by (nonlinear_arith)
        requires
            radius == 256 * m,
    ;
    vstd::arithmetic::div_mod::lemma_div_by_multiple(k * k, 65536);
    vstd::arithmetic::div_mod::lemma_div_by_multiple(j * j, 65536);
    vstd::arithmetic::div_mod::lemma_div_by_multiple(m * m, 65536);
    let c: int = crate::vec3::v3_dot_s(oc, oc) - fx_mul_s(s.radius as int, s.radius as int);
    assert(c == j * j + k * k - m * m);
    let cb: int = crate::sphere::COEF_BOUND as int;
    if a <= 0 || a > cb || crate::fx::mag(b) > cb || crate::fx::mag(c) > cb {
        // A coefficient guard already reports the miss.
    } else {
        assert((-(dist as int)) * (-(dist as int)) == 65536 * (k * k)) by (nonlinear_arith)
            requires
                dist == 256 * k,
        ;
        assert(fx_mul_s(b, b) == k * k);
        assert(65536 * c == c * 65536) by (nonlinear_arith);
        assert(j * j > m * m && k * k >= 0) by (nonlinear_arith)
            requires
                0 < m < j,
        ;
        vstd::arithmetic::div_mod::lemma_div_by_multiple(c, 65536);
        assert(fx_mul_s(a, c) == c);
        let disc: int = fx_mul_s(b, b) - fx_mul_s(a, c);
        assert(disc == m * m - j * j);
        assert(m * m < j * j) by (nonlinear_arith)
            requires
                0 < m < j,
        ;
        assert(disc <= 0);
    }
}


} // verus!
