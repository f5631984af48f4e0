use raytracer::camera::Camera;
use raytracer::fx::{fx_div, fx_mul, sin_fx, sqrt_fx, FX_ONE};
use raytracer::material::{
    refract, schlick, Dielectric, Lambertian, Materials, Metal,
};
use raytracer::ray::Ray;
use raytracer::render::{build_materials, build_world, color, color_sky, main_fs, main_vs,
    ShaderConstants, T_MAX, T_MIN};
use raytracer::rng::Rng;
use raytracer::sphere::{hit, MaterialInfo, MaterialKind, Sphere};
use raytracer::vec3::{reflect, unit_vector, Vec3};

fn lambertian_sphere(center: Vec3, radius: i64) -> Sphere {
    Sphere {
        center,
        radius,
        material: MaterialInfo { kind: MaterialKind::Lambertian, index: 0 },
    }
}

#[test]
fn fx_mul_truncates_toward_zero() {
    assert_eq!(fx_mul(98304, 3), 4); // 1.5 * (3/65536) rounds down
    assert_eq!(fx_mul(-98304, 3), -4); // and toward zero when negative
    assert_eq!(fx_mul(65536, 65536), 65536);
    assert_eq!(fx_mul(-65536, 65536), -65536);
}

#[test]
fn fx_div_truncates_toward_zero() {
    assert_eq!(fx_div(65536, 131072), 32768);
    assert_eq!(fx_div(-65536, 131072), -32768);
    assert_eq!(fx_div(1, 3), 21845); // (1/65536) / (3/65536) = 0.33331...
    assert_eq!(fx_div(-1, 3), -21845);
}

#[test]
fn sqrt_fx_exact_on_squares() {
    assert_eq!(sqrt_fx(0), 0);
    assert_eq!(sqrt_fx(65536), 65536); // sqrt(1) = 1
    assert_eq!(sqrt_fx(262144), 131072); // sqrt(4) = 2
    assert_eq!(sqrt_fx(589824), 196608); // sqrt(9) = 3
}

#[test]
fn sine_endpoints() {
    assert_eq!(sin_fx(0), 0);
    let s = sin_fx(102943); // pi / 2
    assert!(65000 <= s && s <= 65536, "sin(pi/2) = {}", s);
    let n = sin_fx(102943 + 205887); // 3 pi / 2
    assert!(-65536 <= n && n <= -65000, "sin(3pi/2) = {}", n);
}

// Sampler determinism: a fixed seed reproduces the same sequence.
#[test]
fn sampler_determinism() {
    let mut a = Rng::new(12345, 67890);
    let mut b = Rng::new(12345, 67890);
    for _ in 0..32 {
        let x = a.gen();
        let y = b.gen();
        assert_eq!(x, y);
        assert!(0 <= x && x < FX_ONE);
    }
    let mut c = Rng::new(12345, 67890);
    let mut d = Rng::new(12345, 67890);
    for _ in 0..32 {
        assert_eq!(c.gen_signed(), d.gen_signed());
    }
}

#[test]
fn sampler_moves() {
    let mut a = Rng::new(3, 5);
    let first = a.gen();
    let second = a.gen();
    let third = a.gen();
    assert!(first != second || second != third);
}

// A ray through a sphere's center hits at distance - radius, and the far
// root at distance + radius.
#[test]
fn sphere_hit_through_center() {
    let s = lambertian_sphere(Vec3::new(0, 0, -3 * 65536), 65536);
    let r = Ray::new(Vec3::new(0, 0, 0), Vec3::new(0, 0, -65536));
    let h = s.hit(&r, T_MIN, T_MAX).expect("must hit");
    assert_eq!(h.t, 2 * 65536); // distance 3 minus radius 1
    assert_eq!(h.p, Vec3::new(0, 0, -2 * 65536));
    assert_eq!(h.normal, Vec3::new(0, 0, 65536));

    // With the near root excluded the far root distance + radius is reported.
    let h2 = s.hit(&r, 3 * 65536, T_MAX).expect("far root");
    assert_eq!(h2.t, 4 * 65536);
}

#[test]
fn sphere_miss_when_offset_exceeds_radius() {
    let s = lambertian_sphere(Vec3::new(0, 0, -3 * 65536), 65536);
    // Parallel ray displaced 3 units: perpendicular offset > radius.
    let r = Ray::new(Vec3::new(0, 3 * 65536, 0), Vec3::new(0, 0, -65536));
    assert!(s.hit(&r, T_MIN, T_MAX).is_none());
}

// Closest-hit selection between two overlapping spheres along one ray.
#[test]
fn closest_hit_selection() {
    let near = lambertian_sphere(Vec3::new(0, 0, -3 * 65536), 65536);
    let far = lambertian_sphere(Vec3::new(0, 0, -5 * 65536), 65536);
    let r = Ray::new(Vec3::new(0, 0, 0), Vec3::new(0, 0, -65536));

    let w1: Vec<Sphere> = vec![far, near];
    let h1 = hit(&w1, &r, T_MIN, T_MAX).expect("hit");
    assert_eq!(h1.t, 2 * 65536);

    let w2: Vec<Sphere> = vec![near, far];
    let h2 = hit(&w2, &r, T_MIN, T_MAX).expect("hit");
    assert_eq!(h2.t, 2 * 65536);
}

// Lambertian scattering never absorbs.
#[test]
fn lambertian_always_scatters() {
    let s = lambertian_sphere(Vec3::new(0, 0, -3 * 65536), 65536);
    let r = Ray::new(Vec3::new(0, 0, 0), Vec3::new(0, 0, -65536));
    let h = s.hit(&r, T_MIN, T_MAX).expect("must hit");
    let m = Lambertian::new(Vec3::new(32768, 16384, 8192));
    for seed in 0..16u32 {
        let mut rng = Rng::new(seed, seed.wrapping_mul(977));
        let res = m.scatter(&r, &h, &mut rng);
        let (att, out) = res.expect("lambertian never absorbs");
        assert_eq!(att, Vec3::new(32768, 16384, 8192));
        assert_eq!(out.a, h.p);
    }
}

// A metal with zero fuzz mirrors the incoming direction exactly.
#[test]
fn metal_zero_fuzz_mirrors() {
    let s = Sphere {
        center: Vec3::new(0, 0, -3 * 65536),
        radius: 65536,
        material: MaterialInfo { kind: MaterialKind::Metal, index: 0 },
    };
    let r = Ray::new(Vec3::new(0, 0, 0), Vec3::new(0, 0, -65536));
    let h = s.hit(&r, T_MIN, T_MAX).expect("must hit");
    let m = Metal::new(Vec3::new(52428, 39321, 13107), 0);
    let mut rng = Rng::new(1, 2);
    let (att, out) = m.scatter(&r, &h, &mut rng).expect("reflects away from surface");
    assert_eq!(att, Vec3::new(52428, 39321, 13107));
    let mirrored = reflect(unit_vector(r.direction()), h.normal);
    assert_eq!(out.b, mirrored);
    assert_eq!(out.b, Vec3::new(0, 0, 65536));
}

// Schlick reflectance at normal incidence.
#[test]
fn schlick_normal_incidence() {
    assert_eq!(schlick(65536, 65536), 0); // ref_idx 1: no reflection
    assert_eq!(schlick(65536, 98304), 2621); // ref_idx 1.5: about 0.04
}

#[test]
fn refract_straight_through_and_total_internal() {
    // Straight-on refraction passes through unchanged.
    let v = Vec3::new(0, -65536, 0);
    let n = Vec3::new(0, 65536, 0);
    let refr = refract(v, n, 43690).expect("no total internal reflection straight on");
    assert_eq!(refr, Vec3::new(0, -65536, 0));
    // A grazing ray leaving a dense medium reflects internally.
    let g = Vec3::new(65536, -100, 0);
    assert!(refract(g, n, 98304).is_none());
}

#[test]
fn dielectric_never_absorbs() {
    let s = Sphere {
        center: Vec3::new(0, 0, -3 * 65536),
        radius: 65536,
        material: MaterialInfo { kind: MaterialKind::Dielectric, index: 0 },
    };
    let r = Ray::new(Vec3::new(0, 0, 0), Vec3::new(0, 0, -65536));
    let h = s.hit(&r, T_MIN, T_MAX).expect("must hit");
    let m = Dielectric::new(98304);
    for seed in 0..16u32 {
        let mut rng = Rng::new(seed, seed.wrapping_add(31));
        let res = m.scatter(&r, &h, &mut rng);
        let (att, _) = res.expect("dielectric never absorbs");
        assert_eq!(att, Vec3::new(65536, 65536, 65536));
    }
}

// Sky gradient endpoints: straight up is pale blue, straight down white.
#[test]
fn sky_endpoints() {
    let up = Ray::new(Vec3::new(0, 0, 0), Vec3::new(0, 256, 0));
    assert_eq!(color_sky(&up), Vec3::new(32768, 45875, 65536));
    let up_long = Ray::new(Vec3::new(0, 0, 0), Vec3::new(0, 2 * 65536, 0));
    assert_eq!(color_sky(&up_long), Vec3::new(32768, 45875, 65536));
    let down = Ray::new(Vec3::new(0, 0, 0), Vec3::new(0, -256, 0));
    assert_eq!(color_sky(&down), Vec3::new(65536, 65536, 65536));
}

// End to end: one diffuse sphere, one sample, one bounce; the traced colour
// equals the albedo attenuated against the sky of the scattered ray.
#[test]
fn single_bounce_against_sky() {
    let albedo = Vec3::new(32768, 32768, 32768);
    let world: Vec<Sphere> = vec![lambertian_sphere(Vec3::new(0, 0, -3 * 65536), 65536)];
    let materials = Materials {
        lambertian: vec![Lambertian::new(albedo)],
        metal: vec![],
        dielectric: vec![],
    };
    let from = Vec3::new(0, 0, 0);
    let to = Vec3::new(0, 0, -65536);
    let vup = Vec3::new(0, 65536, 0);
    // vfov pi/2, aspect 1, aperture 0.
    let cam = Camera::new(from, to, vup, 102943, 65536, 0, 65536);
    assert_eq!(cam.lens_radius, 0);
    assert_eq!(cam.w, Vec3::new(0, 0, 65536));
    assert_eq!(cam.u, Vec3::new(65536, 0, 0));
    assert_eq!(cam.v, Vec3::new(0, 65536, 0));

    let mut rng = Rng::new(7, 11);
    let ray = cam.ray(&mut rng, 32768, 32768);
    let mut replay = rng; // same state as the integrator will start from

    let result = color(8, &mut rng, ray, &world, &materials);

    // Replay the same draws by hand.
    let h = hit(&world, &ray, T_MIN, T_MAX).expect("the sphere faces the camera");
    let (att, scattered) = materials.lambertian[0].scatter_ray(&h, &mut replay);
    assert_eq!(att, albedo);
    assert!(hit(&world, &scattered, T_MIN, T_MAX).is_none(), "the bounce escapes");
    let sky = color_sky(&scattered);
    let expected = sky.cmul(Vec3::new(65536, 65536, 65536).cmul(att));
    assert_eq!(result, expected);
}

// Idempotence: the per-pixel computation has no hidden state.
#[test]
fn pixel_idempotent() {
    let constants = ShaderConstants {
        view_size_pixels: [4, 4],
        mouse_pixels: [0, 0],
        time: 98304,
        rng_seed_offset: 17,
        rays_per_pixel: 2,
        ray_bounce_limit: 4,
        vfov: 102943,
        aperture: 0,
    };
    let a = main_fs(1, 2, &constants);
    let b = main_fs(1, 2, &constants);
    assert_eq!(a, b);
    assert_eq!(a.1, 65536); // alpha fixed at one
}

#[test]
fn vertex_positions_cover_the_screen() {
    assert_eq!(main_vs(0), (Vec3::new(-65536, -65536, 0), 65536));
    assert_eq!(main_vs(1), (Vec3::new(196608, -65536, 0), 65536));
    assert_eq!(main_vs(2), (Vec3::new(-65536, 196608, 0), 65536));
}

#[test]
fn scene_builders_are_well_formed() {
    let m = build_materials(0);
    assert_eq!(m.lambertian.len(), 5);
    assert_eq!(m.metal.len(), 4);
    assert_eq!(m.dielectric.len(), 1);
    assert_eq!(m.lambertian[0].albedo, Vec3::new(52428 + 32768, 19660, 19660)); // sin(0) = 0
    assert_eq!(m.metal[0].fuzz, 0);
    assert_eq!(m.dielectric[0].ref_idx, 98304);
    let w = build_world(0);
    assert_eq!(w.len(), 8);
    assert_eq!(w[0].center, Vec3::new(0, 65536, -196608));
    assert_eq!(w[4].radius, 65536000); // the floor
    for s in &w {
        assert!(s.radius >= 1);
        let ok = match s.material.kind {
            MaterialKind::Lambertian => s.material.index < m.lambertian.len(),
            MaterialKind::Metal => s.material.index < m.metal.len(),
            MaterialKind::Dielectric => s.material.index < m.dielectric.len(),
        };
        assert!(ok);
    }
}

#[test]
fn unit_vector_normalizes_or_zeroes() {
    assert_eq!(unit_vector(Vec3::new(0, 512, 0)), Vec3::new(0, 65536, 0));
    assert_eq!(unit_vector(Vec3::new(-512, 0, 0)), Vec3::new(-65536, 0, 0));
    assert_eq!(unit_vector(Vec3::new(0, 0, 0)), Vec3::new(0, 0, 0));
    // A vector whose squared length truncates to zero degenerates too.
    assert_eq!(unit_vector(Vec3::new(3, 0, 0)), Vec3::new(0, 0, 0));
}

#[test]
fn material_info_defaults() {
    let i = MaterialInfo::default();
    assert!(matches!(i.kind, MaterialKind::Lambertian));
    assert_eq!(i.index, 0);
}

#[test]
fn ray_accessors() {
    let r = Ray::new(Vec3::new(1, 2, 3), Vec3::new(4, 5, 6));
    assert_eq!(r.origin(), Vec3::new(1, 2, 3));
    assert_eq!(r.direction(), Vec3::new(4, 5, 6));
    assert_eq!(r.point_at_parameter(65536), Vec3::new(5, 7, 9));
    assert_eq!(r.point_at_parameter(131072), Vec3::new(9, 12, 15));
}
