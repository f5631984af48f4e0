//! The frame: the animated scene, the sky gradient, the bounce-loop path
//! integrator, and the two per-frame entry points (full-screen triangle
//! vertices and the per-pixel colour).

use vstd::prelude::*;
use crate::camera::{camera_new_s, camera_ray_s, camera_wf, Camera};
use crate::fx::{
    cos_fx, cos_fx_s, div_trunc, fx_div, fx_div_s, fx_mul, fx_mul_s, mag, sin_fx, sin_fx_s,
    FX_BOUND, FX_ONE, PI_FX,
};
use crate::fx::{
    lemma_fx_mul_mag, lemma_fx_square_nonneg, lemma_isqrt_mono, lemma_isqrt_square,
};
use crate::material::{
    mat_ref_valid, materials_scatter_s, mats_wf, Dielectric, Lambertian, MatsV, Materials, Metal,
};
use crate::ray::{ray_wf, Ray};
use crate::rng::{rng_next_s, rng_raw_s, Rng};
use crate::sphere::{
    hit, world_hit_s, world_wf, HitData, MaterialInfo, MaterialKind, Sphere,
};
use crate::vec3::{
    clamp3, clamp3_s, unit_s, unit_vector, v3_cmul_s, v3_in_bound, v3_minus_s, v3_plus_s,
    v3_zero, Vec3,
};

verus! {

/// The near clip of every scene ray (0.001), excluding self-intersection.
pub const T_MIN: i64 = 65;

/// The far clip: the coordinate bound itself.
pub const T_MAX: i64 = 0x10000000;

/// The per-frame parameter block, supplied by the embedding application.
#[derive(Clone, Copy, Debug)]
pub struct ShaderConstants {
    pub view_size_pixels: [u32; 2],
    pub mouse_pixels: [i64; 2],
    pub time: i64,
    pub rng_seed_offset: u32,
    pub rays_per_pixel: u32,
    pub ray_bounce_limit: u32,
    pub vfov: i64,
    pub aperture: i64,
}

impl Default for ShaderConstants {
    fn default() -> (r: Self)
        ensures
            r == (ShaderConstants {
                view_size_pixels: [0, 0],
                mouse_pixels: [0, 0],
                time: 0,
                rng_seed_offset: 0,
                rays_per_pixel: 0,
                ray_bounce_limit: 0,
                vfov: 0,
                aperture: 0,
            }),
    {
        ShaderConstants {
            view_size_pixels: [0, 0],
            mouse_pixels: [0, 0],
            time: 0,
            rng_seed_offset: 0,
            rays_per_pixel: 0,
            ray_bounce_limit: 0,
            vfov: 0,
            aperture: 0,
        }
    }
}

/// The ranges the kernel accepts, following the tunable ranges of the
/// control surface.
pub open spec fn constants_wf(c: ShaderConstants) -> bool {
    &&& 1 <= c.view_size_pixels[0] <= 0x100000
    &&& 1 <= c.view_size_pixels[1] <= 0x100000
    &&& mag(c.time as int) <= 0x1000000000
    &&& 1 <= c.rays_per_pixel <= 100
    &&& 1 <= c.ray_bounce_limit
    &&& 0 < c.vfov < PI_FX
    &&& 0 <= c.aperture <= 0x40000
}

/// A scene and material set that the integrator can consume: every sphere
/// well-formed and every material reference in range.
pub open spec fn scene_ok(w: Seq<Sphere>, m: MatsV) -> bool {
    &&& world_wf(w)
    &&& mats_wf(m)
    &&& forall|i: int| 0 <= i < w.len() ==> mat_ref_valid(m, (#[trigger] w[i]).material)
}

pub open spec fn white3() -> Vec3 {
    Vec3 { x: FX_ONE, y: FX_ONE, z: FX_ONE }
}

/// The sky gradient: lerp from white straight down to pale blue straight
/// up, by `t = (unit(direction).y + 1) / 2` clamped into `[0, 1]`.
pub open spec fn sky_s(r: Ray) -> Vec3 {
    let u: Vec3 = unit_s(r.b);
    let t0: int = div_trunc(u.y + FX_ONE, 2);
    let t: int = if t0 < 0 {
        0
    } else if t0 > FX_ONE as int {
        FX_ONE as int
    } else {
        t0
    };
    Vec3 {
        x: (fx_mul_s(FX_ONE as int - t, FX_ONE as int) + fx_mul_s(t, 32768)) as i64,
        y: (fx_mul_s(FX_ONE as int - t, FX_ONE as int) + fx_mul_s(t, 45875)) as i64,
        z: (fx_mul_s(FX_ONE as int - t, FX_ONE as int) + fx_mul_s(t, FX_ONE as int)) as i64,
    }
}

/// The background colour for an escaping ray.
pub fn color_sky(r: &Ray) -> (c: Vec3)
    requires
        ray_wf(*r),
    ensures
        c == sky_s(*r),
        v3_in_bound(c, FX_ONE as int),
{
    let u: Vec3 = unit_vector(r.direction());
    let s0: i64 = u.y + FX_ONE;
    let t0: i64 = if s0 >= 0 {
        ((s0 as u64) / 2) as i64
    } else {
        -((((-s0) as u64) / 2) as i64)
    };
    let t: i64 = if t0 < 0 {
        0
    } else if t0 > FX_ONE {
        FX_ONE
    } else {
        t0
    };
    proof {
        assert(0x10000 * 0x10000 == 0x100000000int) by (nonlinear_arith);
        lemma_fx_mul_mag(FX_ONE as int - t as int, FX_ONE as int, 0x10000, 0x10000);
        lemma_fx_mul_mag(t as int, 32768, 0x10000, 0x10000);
        lemma_fx_mul_mag(t as int, 45875, 0x10000, 0x10000);
        lemma_fx_mul_mag(t as int, FX_ONE as int, 0x10000, 0x10000);
        crate::fx::lemma_fx_square_nonneg(t as int);
        vstd::arithmetic::div_mod::lemma_div_pos_is_pos((FX_ONE as int - t) * (FX_ONE as int),
            FX_ONE as int);
        assert((FX_ONE as int - t) * (FX_ONE as int) >= 0) by (nonlinear_arith)
            requires
                t <= FX_ONE,
                FX_ONE == 65536i64,
        ;
        assert(t as int * 32768 >= 0) by (nonlinear_arith)
            requires
                t >= 0,
        ;
        assert(t as int * 45875 >= 0) by (nonlinear_arith)
            requires
                t >= 0,
        ;
        assert(t as int * (FX_ONE as int) >= 0) by (nonlinear_arith)
            requires
                t >= 0,
        ;
        vstd::arithmetic::div_mod::lemma_div_pos_is_pos(t as int * 32768, FX_ONE as int);
        vstd::arithmetic::div_mod::lemma_div_pos_is_pos(t as int * 45875, FX_ONE as int);
        vstd::arithmetic::div_mod::lemma_div_pos_is_pos(t as int * (FX_ONE as int), FX_ONE as int);
    }
    Vec3 {
        x: fx_mul(FX_ONE - t, FX_ONE) + fx_mul(t, 32768),
        y: fx_mul(FX_ONE - t, FX_ONE) + fx_mul(t, 45875),
        z: fx_mul(FX_ONE - t, FX_ONE) + fx_mul(t, FX_ONE),
    }
}

/// The bounce loop as a recursion: scatter while the scene is hit and the
/// bounce budget lasts, accumulating the attenuation product (saturated at
/// the coordinate bound); an escaping ray picks up the sky, an absorbed ray
/// or an exhausted budget goes black.
pub open spec fn color_loop_s(
    limit: u32,
    accum: Vec3,
    r: Ray,
    w: Seq<Sphere>,
    m: MatsV,
    rng: Rng,
    bounces: u32,
) -> (Vec3, Rng)
    decreases limit - bounces,
{
    match world_hit_s(w, r, T_MIN, T_MAX) {
        None => (v3_cmul_s(sky_s(r), accum), rng),
        Some(h) => {
            if bounces < limit {
                let sc: (Option<(Vec3, Ray)>, Rng) = materials_scatter_s(m, r, h, rng);
                match sc.0 {
                    Some(ar) => color_loop_s(
                        limit,
                        clamp3_s(v3_cmul_s(accum, ar.0), FX_BOUND as int),
                        ar.1,
                        w,
                        m,
                        sc.1,
                        (bounces + 1) as u32,
                    ),
                    None => (v3_cmul_s(sky_s(r), v3_zero()), sc.1),
                }
            } else {
                (v3_cmul_s(sky_s(r), v3_zero()), rng)
            }
        },
    }
}

/// The colour carried by one ray.
pub open spec fn color_s(limit: u32, rng: Rng, r: Ray, w: Seq<Sphere>, m: MatsV) -> (Vec3, Rng) {
    color_loop_s(limit, white3(), r, w, m, rng, 0)
}

/// Trace one ray through the scene: iterate the bounce loop up to
/// `ray_bounce_limit` scattering events and composite against the sky.
pub fn color(
    ray_bounce_limit: u32,
    rng: &mut Rng,
    ray: Ray,
    world: &Vec<Sphere>,
    materials: &Materials,
) -> (res: Vec3)
    requires
        scene_ok(world@, materials@),
        ray_wf(ray),
    ensures
        (res, *final(rng)) == color_s(ray_bounce_limit, *old(rng), ray, world@, materials@),
        v3_in_bound(res, FX_BOUND as int),
{
    let ghost cspec: (Vec3, Rng) = color_s(ray_bounce_limit, *rng, ray, world@, materials@);
    let mut col: Vec3 = Vec3 { x: FX_ONE, y: FX_ONE, z: FX_ONE };
    let mut cur: Ray = ray;
    let mut bounces: u32 = 0;
    loop
        invariant_except_break
            scene_ok(world@, materials@),
            ray_wf(cur),
            v3_in_bound(col, FX_BOUND as int),
            bounces <= ray_bounce_limit,
            cspec == color_loop_s(
                ray_bounce_limit,
                col,
                cur,
                world@,
                materials@,
                *rng,
                bounces,
            ),
        ensures
            ray_wf(cur),
            v3_in_bound(col, FX_BOUND as int),
            cspec == (v3_cmul_s(sky_s(cur), col), *rng),
        decreases ray_bounce_limit - bounces,
    {
        let hres: Option<HitData> = hit(world, &cur, T_MIN, T_MAX);
        match hres {
            None => {
                break ;
            },
            Some(h) => {
                if bounces < ray_bounce_limit {
                    let sres: Option<(Vec3, Ray)> = materials.scatter(&cur, &h, rng);
                    match sres {
                        Some(ar) => {
                            col = clamp3(col.cmul(ar.0), FX_BOUND);
                            cur = ar.1;
                            bounces = bounces + 1;
                        },
                        None => {
                            col = Vec3 { x: 0, y: 0, z: 0 };
                            break ;
                        },
                    }
                } else {
                    col = Vec3 { x: 0, y: 0, z: 0 };
                    break ;
                }
            },
        }
    }
    let skyv: Vec3 = color_sky(&cur);
    proof {
        assert(0x10000 * 0x10000000 == 0x100000000000int) by (nonlinear_arith);
        lemma_fx_mul_mag(skyv.x as int, col.x as int, 0x10000, 0x10000000);
        lemma_fx_mul_mag(skyv.y as int, col.y as int, 0x10000, 0x10000000);
        lemma_fx_mul_mag(skyv.z as int, col.z as int, 0x10000, 0x10000000);
    }
    skyv.cmul(col)
}

pub open spec fn scene_target_s() -> Vec3 {
    Vec3 { x: 0, y: 65536, z: -196608i64 }
}

/// The eye position: a slow circular bob around (0.125, 1.125, 0).
pub open spec fn eye_s(time: i64) -> Vec3 {
    Vec3 {
        x: (fx_mul_s(cos_fx_s(fx_mul_s(time as int, 50462)), 8192) + 8192) as i64,
        y: (65536 + fx_mul_s(sin_fx_s(time as int), 8192) + 8192) as i64,
        z: 0,
    }
}

/// The focus distance: the eye-to-target distance less a quarter unit, so
/// focus falls on the near surface of the target sphere.
pub open spec fn focus_s(time: i64) -> i64 {
    (crate::vec3::v3_len_s(v3_minus_s(eye_s(time), scene_target_s())) - 16384) as i64
}

pub open spec fn aspect_s(c: ShaderConstants) -> int {
    fx_div_s(c.view_size_pixels[0] * 65536, c.view_size_pixels[1] * 65536)
}

/// The camera of a frame.
pub open spec fn frame_camera_s(c: ShaderConstants) -> Camera {
    camera_new_s(
        eye_s(c.time),
        scene_target_s(),
        Vec3 { x: 0, y: 65536, z: 0 },
        c.vfov,
        aspect_s(c) as i64,
        c.aperture,
        focus_s(c.time),
    )
}

/// The material set of a frame: five diffuse surfaces (one animated, one a
/// bright light), four metals, one glass.
pub open spec fn mats_v_s(time: i64) -> MatsV {
    MatsV {
        lambertian: seq![
            Lambertian {
                albedo: Vec3 {
                    x: (52428 + sin_fx_s(fx_mul_s(time as int, 111411)) + 32768) as i64,
                    y: 19660,
                    z: 19660,
                },
            },
            Lambertian { albedo: Vec3 { x: 65536, y: 6553, z: 6553 } },
            Lambertian { albedo: Vec3 { x: 6553, y: 65536, z: 6553 } },
            Lambertian { albedo: Vec3 { x: 58982, y: 58982, z: 58982 } },
            Lambertian { albedo: Vec3 { x: 327680, y: 327680, z: 327680 } },
        ],
        metal: seq![
            Metal { albedo: Vec3 { x: 52428, y: 39321, z: 13107 }, fuzz: 0 },
            Metal { albedo: Vec3 { x: 52428, y: 39321, z: 13107 }, fuzz: 3276 },
            Metal { albedo: Vec3 { x: 13107, y: 39321, z: 52428 }, fuzz: 3276 },
            Metal { albedo: Vec3 { x: 58982, y: 58982, z: 58982 }, fuzz: 32768 },
        ],
        dielectric: seq![Dielectric { ref_idx: 98304 }],
    }
}

/// The scene of a frame: three feature spheres, an orbiting light, the
/// floor and three walls, with the time-animated positions of the original
/// layout.
pub open spec fn world_s(time: i64) -> Seq<Sphere> {
    seq![
        Sphere {
            center: scene_target_s(),
            radius: 32768,
            material: MaterialInfo { kind: MaterialKind::Metal, index: 0 },
        },
        Sphere {
            center: Vec3 { x: -65536i64, y: 0, z: -131072i64 },
            radius: 32768,
            material: MaterialInfo { kind: MaterialKind::Dielectric, index: 0 },
        },
        Sphere {
            center: Vec3 {
                x: 65536,
                y: 0,
                z: (-65536 + cos_fx_s(fx_mul_s(time as int, 86507))) as i64,
            },
            radius: 32768,
            material: MaterialInfo { kind: MaterialKind::Metal, index: 2 },
        },
        Sphere {
            center: Vec3 {
                x: sin_fx_s(fx_mul_s(time as int, 43909)) as i64,
                y: (65536 + cos_fx_s(fx_mul_s(time as int, 21626))) as i64,
                z: (-196608 + cos_fx_s(fx_mul_s(time as int, 37355))) as i64,
            },
            radius: 6553,
            material: MaterialInfo { kind: MaterialKind::Lambertian, index: 3 },
        },
        Sphere {
            center: Vec3 { x: 0, y: -65568768i64, z: -65536i64 },
            radius: 65536000,
            material: MaterialInfo { kind: MaterialKind::Lambertian, index: 3 },
        },
        Sphere {
            center: Vec3 { x: -1441792i64, y: 0, z: -65536i64 },
            radius: 1310720,
            material: MaterialInfo { kind: MaterialKind::Lambertian, index: 1 },
        },
        Sphere {
            center: Vec3 { x: 1441792, y: 0, z: -65536i64 },
            radius: 1310720,
            material: MaterialInfo { kind: MaterialKind::Lambertian, index: 2 },
        },
        Sphere {
            center: Vec3 { x: 0, y: 0, z: -1572864i64 },
            radius: 1310720,
            material: MaterialInfo { kind: MaterialKind::Lambertian, index: 3 },
        },
    ]
}

/// Build the frame's materials.
pub fn build_materials(time: i64) -> (r: Materials)
    requires
        mag(time as int) <= 0x1000000000,
    ensures
        r@ == mats_v_s(time),
        mats_wf(r@),
{
    proof {
        lemma_fx_mul_mag(time as int, 111411, 0x1000000000, 0x20000);
        assert(0x1000000000 * 0x20000 == 0x20000000000000int) by (nonlinear_arith);
    }
    let a0: i64 = 52428 + sin_fx(fx_mul(time, 111411)) + 32768;
    let mut lambertian: Vec<Lambertian> = Vec::new();
    lambertian.push(Lambertian::new(Vec3 { x: a0, y: 19660, z: 19660 }));
    lambertian.push(Lambertian::new(Vec3 { x: 65536, y: 6553, z: 6553 }));
    lambertian.push(Lambertian::new(Vec3 { x: 6553, y: 65536, z: 6553 }));
    lambertian.push(Lambertian::new(Vec3 { x: 58982, y: 58982, z: 58982 }));
    lambertian.push(Lambertian::new(Vec3 { x: 327680, y: 327680, z: 327680 }));
    let mut metal: Vec<Metal> = Vec::new();
    metal.push(Metal::new(Vec3 { x: 52428, y: 39321, z: 13107 }, 0));
    metal.push(Metal::new(Vec3 { x: 52428, y: 39321, z: 13107 }, 3276));
    metal.push(Metal::new(Vec3 { x: 13107, y: 39321, z: 52428 }, 3276));
    metal.push(Metal::new(Vec3 { x: 58982, y: 58982, z: 58982 }, 32768));
    let mut dielectric: Vec<Dielectric> = Vec::new();
    dielectric.push(Dielectric::new(98304));
    let r = Materials { lambertian, metal, dielectric };
    proof {
        assert(r@.lambertian =~= mats_v_s(time).lambertian);
        assert(r@.metal =~= mats_v_s(time).metal);
        assert(r@.dielectric =~= mats_v_s(time).dielectric);
    }
    r
}

/// Build the frame's scene.
pub fn build_world(time: i64) -> (r: Vec<Sphere>)
    requires
        mag(time as int) <= 0x1000000000,
    ensures
        r@ == world_s(time),
        world_wf(r@),
{
    proof {
        assert(0x1000000000 * 0x20000 == 0x20000000000000int) by (nonlinear_arith);
        lemma_fx_mul_mag(time as int, 86507, 0x1000000000, 0x20000);
        lemma_fx_mul_mag(time as int, 43909, 0x1000000000, 0x20000);
        lemma_fx_mul_mag(time as int, 21626, 0x1000000000, 0x20000);
        lemma_fx_mul_mag(time as int, 37355, 0x1000000000, 0x20000);
    }
    let mut w: Vec<Sphere> = Vec::new();
    w.push(Sphere {
        center: Vec3 { x: 0, y: 65536, z: -196608i64 },
        radius: 32768,
        material: MaterialInfo { kind: MaterialKind::Metal, index: 0 },
    });
    w.push(Sphere {
        center: Vec3 { x: -65536i64, y: 0, z: -131072i64 },
        radius: 32768,
        material: MaterialInfo { kind: MaterialKind::Dielectric, index: 0 },
    });
    w.push(Sphere {
        center: Vec3 { x: 65536, y: 0, z: -65536 + cos_fx(fx_mul(time, 86507)) },
        radius: 32768,
        material: MaterialInfo { kind: MaterialKind::Metal, index: 2 },
    });
    w.push(Sphere {
        center: Vec3 {
            x: sin_fx(fx_mul(time, 43909)),
            y: 65536 + cos_fx(fx_mul(time, 21626)),
            z: -196608 + cos_fx(fx_mul(time, 37355)),
        },
        radius: 6553,
        material: MaterialInfo { kind: MaterialKind::Lambertian, index: 3 },
    });
    w.push(Sphere {
        center: Vec3 { x: 0, y: -65568768i64, z: -65536i64 },
        radius: 65536000,
        material: MaterialInfo { kind: MaterialKind::Lambertian, index: 3 },
    });
    w.push(Sphere {
        center: Vec3 { x: -1441792i64, y: 0, z: -65536i64 },
        radius: 1310720,
        material: MaterialInfo { kind: MaterialKind::Lambertian, index: 1 },
    });
    w.push(Sphere {
        center: Vec3 { x: 1441792, y: 0, z: -65536i64 },
        radius: 1310720,
        material: MaterialInfo { kind: MaterialKind::Lambertian, index: 2 },
    });
    w.push(Sphere {
        center: Vec3 { x: 0, y: 0, z: -1572864i64 },
        radius: 1310720,
        material: MaterialInfo { kind: MaterialKind::Lambertian, index: 3 },
    });
    proof {
        assert(w@ =~= world_s(time));
    }
    w
}

/// The sampler seed of a pixel: its coordinates displaced by the frame's
/// seed offset.
pub open spec fn pixel_rng_s(c: ShaderConstants, frag_x: u32, frag_y: u32) -> Rng {
    Rng {
        s0: ((frag_x + c.rng_seed_offset) % 0x100000000) as u32,
        s1: ((frag_y + c.rng_seed_offset) % 0x100000000) as u32,
    }
}

/// The sum of the first `n` jittered samples of a pixel, with the sampler
/// state threaded through every draw.
pub open spec fn sample_acc_s(
    c: ShaderConstants,
    frag_x: u32,
    frag_y: u32,
    rng: Rng,
    n: u32,
) -> (Vec3, Rng)
    decreases n,
{
    if n == 0 {
        (v3_zero(), rng)
    } else {
        let prev: (Vec3, Rng) = sample_acc_s(c, frag_x, frag_y, rng, (n - 1) as u32);
        let r0: Rng = prev.1;
        let gx: int = rng_raw_s(r0);
        let r1: Rng = rng_next_s(r0);
        let gy: int = rng_raw_s(r1);
        let r2: Rng = rng_next_s(r1);
        let uvx: int = fx_div_s(frag_x * 65536 + gx, c.view_size_pixels[0] * 65536);
        let uvy: int = fx_div_s(
            (c.view_size_pixels[1] * 65536 - frag_y * 65536) + gy,
            c.view_size_pixels[1] * 65536,
        );
        let rr: (Ray, Rng) = camera_ray_s(frame_camera_s(c), r2, uvx as i64, uvy as i64);
        let cc: (Vec3, Rng) = color_s(
            c.ray_bounce_limit,
            rr.1,
            rr.0,
            world_s(c.time),
            mats_v_s(c.time),
        );
        (v3_plus_s(prev.0, cc.0), cc.1)
    }
}

/// The colour of one pixel: the average of `rays_per_pixel` samples.
pub open spec fn pixel_color_s(c: ShaderConstants, frag_x: u32, frag_y: u32) -> Vec3 {
    let acc: (Vec3, Rng) = sample_acc_s(
        c,
        frag_x,
        frag_y,
        pixel_rng_s(c, frag_x, frag_y),
        c.rays_per_pixel,
    );
    let nfx: int = c.rays_per_pixel * 65536;
    Vec3 {
        x: fx_div_s(acc.0.x as int, nfx) as i64,
        y: fx_div_s(acc.0.y as int, nfx) as i64,
        z: fx_div_s(acc.0.z as int, nfx) as i64,
    }
}

/// The per-pixel entry point: seed the sampler from the pixel coordinates,
/// rebuild the animated scene from the frame's time, average the jittered
/// samples, and return the RGBA value (alpha fixed at one).
#[verifier::rlimit(100)]
pub fn main_fs(frag_x: u32, frag_y: u32, constants: &ShaderConstants) -> (out: (Vec3, i64))
    requires
        constants_wf(*constants),
        frag_x < constants.view_size_pixels[0],
        frag_y < constants.view_size_pixels[1],
    ensures
        out.0 == pixel_color_s(*constants, frag_x, frag_y),
        out.1 == FX_ONE,
{
    let w_px: u32 = constants.view_size_pixels[0];
    let h_px: u32 = constants.view_size_pixels[1];
    let time: i64 = constants.time;

    // Camera state for this frame.
    proof {
        assert(0x1000000000 * 0x20000 == 0x20000000000000int) by (nonlinear_arith);
        lemma_fx_mul_mag(time as int, 50462, 0x1000000000, 0x20000);
        assert(0x10000 * 8192 == 0x20000000int) by (nonlinear_arith);
    }
    let cv: i64 = cos_fx(fx_mul(time, 50462));
    let sv: i64 = sin_fx(time);
    proof {
        lemma_fx_mul_mag(cv as int, 8192, 0x10000, 8192);
        lemma_fx_mul_mag(sv as int, 8192, 0x10000, 8192);
    }
    let from: Vec3 = Vec3 {
        x: fx_mul(cv, 8192) + 8192,
        y: 65536 + fx_mul(sv, 8192) + 8192,
        z: 0,
    };
    let to: Vec3 = Vec3 { x: 0, y: 65536, z: -196608i64 };
    let vup: Vec3 = Vec3 { x: 0, y: 65536, z: 0 };
    let diff: Vec3 = from.minus(to);
    proof {
        lemma_fx_square_nonneg(diff.x as int);
        lemma_fx_square_nonneg(diff.y as int);
        lemma_fx_square_nonneg(diff.z as int);
        lemma_fx_mul_mag(diff.x as int, diff.x as int, 16384, 16384);
        lemma_fx_mul_mag(diff.y as int, diff.y as int, 16384, 16384);
        assert(16384 * 16384 == 0x10000000int) by (nonlinear_arith);
        assert(196608 * 196608 == 38654705664int) by (nonlinear_arith);
    }
    let len: i64 = diff.length();
    proof {
        let q: int = crate::vec3::v3_dot_s(diff, diff);
        assert(q >= 589824);
        assert(q <= 598016);
        lemma_isqrt_mono(38654705664, (q * 65536) as nat);
        assert(196608nat * 196608nat == 38654705664nat) by (nonlinear_arith);
        lemma_isqrt_square(196608);
        lemma_isqrt_mono((q * 65536) as nat, 1099511627776);
        assert(1048576nat * 1048576nat == 1099511627776nat) by (nonlinear_arith);
        lemma_isqrt_square(1048576);
    }
    let focus_dist: i64 = len - 16384;
    let aspect: i64 = fx_div((w_px as i64) * 65536, (h_px as i64) * 65536);
    proof {
        crate::fx::lemma_fx_div_denom(
            (w_px as i64) * 65536,
            (h_px as i64) * 65536,
            0x1000000000,
            65536,
        );
    }
    let cam: Camera = Camera::new(from, to, vup, constants.vfov, aspect, constants.aperture,
        focus_dist);

    let mut rng: Rng = Rng::new(
        (((frag_x as u64) + (constants.rng_seed_offset as u64)) % 0x100000000) as u32,
        (((frag_y as u64) + (constants.rng_seed_offset as u64)) % 0x100000000) as u32,
    );
    let materials: Materials = build_materials(time);
    let world: Vec<Sphere> = build_world(time);
    proof {
        assert(scene_ok(world@, materials@));
    }

    let n: u32 = constants.rays_per_pixel;
    let mut col: Vec3 = Vec3 { x: 0, y: 0, z: 0 };
    let mut i: u32 = 0;
    let ghost rng0: Rng = rng;
    while i < n
        invariant
            constants_wf(*constants),
            frag_x < constants.view_size_pixels[0],
            frag_y < constants.view_size_pixels[1],
            w_px == constants.view_size_pixels[0],
            h_px == constants.view_size_pixels[1],
            time == constants.time,
            n == constants.rays_per_pixel,
            cam == frame_camera_s(*constants),
            camera_wf(cam),
            world@ == world_s(time),
            materials@ == mats_v_s(time),
            scene_ok(world@, materials@),
            i <= n,
            rng0 == pixel_rng_s(*constants, frag_x, frag_y),
            (col, rng) == sample_acc_s(*constants, frag_x, frag_y, rng0, i),
            v3_in_bound(col, (i as int) * (FX_BOUND as int)),
        decreases n - i,
    {
        let ghost pre: Rng = rng;
        let gx: i64 = rng.gen();
        let gy: i64 = rng.gen();
        let uvx: i64 = fx_div((frag_x as i64) * 65536 + gx, (w_px as i64) * 65536);
        let uvy: i64 = fx_div(
            ((h_px as i64) * 65536 - (frag_y as i64) * 65536) + gy,
            (h_px as i64) * 65536,
        );
        proof {
            let a: int = (frag_x as int) * 65536 + gx;
            let b: int = (w_px as int) * 65536;
            vstd::arithmetic::div_mod::lemma_div_pos_is_pos(a * 65536, b);
            assert(a * 65536 < b * 131072) by (nonlinear_arith)
                requires
                    a < 2 * b,
                    b > 0,
            ;
            vstd::arithmetic::div_mod::lemma_multiply_divide_lt(a * 65536, b, 131072);
            let ay: int = ((h_px as int) * 65536 - (frag_y as int) * 65536) + gy;
            let by: int = (h_px as int) * 65536;
            vstd::arithmetic::div_mod::lemma_div_pos_is_pos(ay * 65536, by);
            assert(ay * 65536 < by * 131072) by (nonlinear_arith)
                requires
                    ay < 2 * by,
                    by > 0,
            ;
            vstd::arithmetic::div_mod::lemma_multiply_divide_lt(ay * 65536, by, 131072);
        }
        let ray: Ray = cam.ray(&mut rng, uvx, uvy);
        let c1: Vec3 = color(constants.ray_bounce_limit, &mut rng, ray, &world, &materials);
        col = col.plus(c1);
        i = i + 1;
        proof {
            assert((col, rng) == sample_acc_s(*constants, frag_x, frag_y, rng0, i));
        }
    }
    let nfx: i64 = (n as i64) * 65536;
    proof {
        vstd::arithmetic::div_mod::lemma_div_pos_is_pos(
            mag(col.x as int) * 65536,
            nfx as int,
        );
    }
    let avg: Vec3 = Vec3 {
        x: fx_div(col.x, nfx),
        y: fx_div(col.y, nfx),
        z: fx_div(col.z, nfx),
    };
    (avg, FX_ONE)
}

/// The clip-space corner of the full-screen triangle for a vertex index:
/// the index bits select an oversized UV corner, expanded to clip space.
pub open spec fn main_vs_s(vert_idx: i32) -> (Vec3, i64) {
    let ux: i32 = (vert_idx << 1) & 2;
    let uy: i32 = vert_idx & 2;
    (Vec3 { x: (2 * (ux as int) * 65536 - 65536) as i64, y: (2 * (uy as int) * 65536 - 65536) as i64, z: 0 }, FX_ONE)
}

/// The vertex entry point: positions of the full-screen triangle.
pub fn main_vs(vert_idx: i32) -> (out: (Vec3, i64))
    requires
        0 <= vert_idx < 3,
    ensures
        out == main_vs_s(vert_idx),
{
    let ux: i32 = (vert_idx << 1) & 2;
    let uy: i32 = vert_idx & 2;
    proof {
        assert(0 <= ((vert_idx << 1) & 2) <= 2 && 0 <= (vert_idx & 2) <= 2) by (bit_vector);
    }
    (Vec3 { x: 2 * (ux as i64) * 65536 - 65536, y: 2 * (uy as i64) * 65536 - 65536, z: 0 }, FX_ONE)
}

} // verus!
