use path_tracer::fx::{fx_mul, fx_div, fx_sqrt, FX_ONE};
use path_tracer::vec3::Vec3;
use path_tracer::ray::Ray;
use path_tracer::sphere::Sphere;
use path_tracer::hit::World;
use path_tracer::material::{Lambertian, Metal, Dielectric, Material};
use path_tracer::camera::Camera;
use path_tracer::render::{ray_color, ray_color_depth, render_pixel, format_channel, T_EPS,
    MAX_RAY_BOUNCES};
use path_tracer::sampling::{rng_from_seed, rand_range, rand_unit};

const FX: i64 = FX_ONE;

fn gray() -> Material {
    Material::Lambertian(Lambertian::new(Vec3::new(FX / 2, FX / 2, FX / 2)))
}

#[test]
fn fx_ops_exact() {
    assert_eq!(fx_mul(2 * FX, 3 * FX), 6 * FX);
    assert_eq!(fx_mul(-FX / 2, FX / 2), -FX / 4);
    assert_eq!(fx_mul(FX, 12345), 12345);
    assert_eq!(fx_div(FX, 2 * FX), FX / 2);
    assert_eq!(fx_div(-3 * FX, 2 * FX), -3 * FX / 2);
    assert_eq!(fx_sqrt(4 * FX), 2 * FX);
    assert_eq!(fx_sqrt(0), 0);
    // floor(sqrt(2) * 2^20)
    assert_eq!(fx_sqrt(2 * FX), 1482910);
}

#[test]
fn vector_algebra_exact() {
    let a = Vec3::new(3 * FX, 4 * FX, 0);
    assert_eq!(a.dot(&a), 25 * FX);
    assert_eq!(a.length(), 5 * FX);
    let u = a.normalized();
    // 3/5 and 4/5 in fixed point, rounded toward zero
    assert_eq!((u.x, u.y, u.z), (629145, 838860, 0));
    let b = Vec3::new(FX, 0, 0).cross(&Vec3::new(0, FX, 0));
    assert_eq!((b.x, b.y, b.z), (0, 0, FX));
    let v = Vec3::new(0, -FX, 0);
    let n = Vec3::new(0, FX, 0);
    let r = v.reflect(&n);
    assert_eq!((r.x, r.y, r.z), (0, FX, 0));
    assert!(Vec3::zero().near_zero());
    assert!(!Vec3::new(1, 0, 0).near_zero());
}

#[test]
fn scalar_division_exact() {
    let v = Vec3::new(3 * FX, -FX, 0);
    let d = v.div(2 * FX);
    assert_eq!((d.x, d.y, d.z), (3 * FX / 2, -FX / 2, 0));
}

#[test]
fn get_ray_draws_its_own_lens_sample() {
    let cam = test_camera();
    let mut a = rng_from_seed(5);
    let mut b = rng_from_seed(5);
    let ra = cam.get_ray(FX / 2, FX / 2, &mut a);
    let rb = cam.get_ray(FX / 2, FX / 2, &mut b);
    assert_eq!((ra.orig.x, ra.dir.z), (rb.orig.x, rb.dir.z));
}

#[test]
fn ray_at_evaluates() {
    let r = Ray::new(Vec3::new(FX, 0, 0), Vec3::new(0, 0, -FX));
    let p = r.at(FX / 2);
    assert_eq!((p.x, p.y, p.z), (FX, 0, -FX / 2));
}

#[test]
fn sphere_hit_head_on() {
    // A ray aimed straight at the center hits the near surface: t = 0.5 and
    // the hit point sits exactly one radius from the center.
    let s = Sphere::new(Vec3::new(0, 0, -FX), FX / 2, gray());
    let r = Ray::new(Vec3::zero(), Vec3::new(0, 0, -FX));
    let rec = s.hit(&r, T_EPS, 100 * FX).expect("must hit");
    assert_eq!(rec.t, FX / 2);
    assert!(rec.front_face);
    assert_eq!((rec.normal.x, rec.normal.y, rec.normal.z), (0, 0, FX));
    let pc = rec.p.sub(&Vec3::new(0, 0, -FX));
    assert_eq!(pc.length(), FX / 2);
}

#[test]
fn sphere_miss_is_none() {
    // The ray's line passes the center at distance 1 > radius 0.5.
    let s = Sphere::new(Vec3::new(0, 0, -FX), FX / 2, gray());
    let r = Ray::new(Vec3::zero(), Vec3::new(0, FX, 0));
    assert!(s.hit(&r, T_EPS, 100 * FX).is_none());
}

#[test]
fn front_face_false_from_inside() {
    // A ray starting at the center points outward: the far root is taken,
    // the face is a back face, and the stored normal points inward.
    let s = Sphere::new(Vec3::new(0, 0, -FX), FX / 2, gray());
    let r = Ray::new(Vec3::new(0, 0, -FX), Vec3::new(0, 0, FX));
    let rec = s.hit(&r, T_EPS, 100 * FX).expect("must hit");
    assert_eq!(rec.t, FX / 2);
    assert!(!rec.front_face);
    assert_eq!((rec.normal.x, rec.normal.y, rec.normal.z), (0, 0, -FX));
}

#[test]
fn world_keeps_nearest_hit() {
    let near = Sphere::new(Vec3::new(0, 0, -FX), FX / 4, gray());
    let far = Sphere::new(Vec3::new(0, 0, -3 * FX), FX / 4, gray());
    let r = Ray::new(Vec3::zero(), Vec3::new(0, 0, -FX));
    let mut w1 = World::new();
    w1.push(near);
    w1.push(far);
    let mut w2 = World::new();
    w2.push(far);
    w2.push(near);
    let t1 = w1.hit(&r, T_EPS, 100 * FX).expect("hit").t;
    let t2 = w2.hit(&r, T_EPS, 100 * FX).expect("hit").t;
    assert_eq!(t1, t2);
    assert_eq!(t1, 3 * FX / 4);
}

fn plain_record(normal: Vec3) -> path_tracer::hit::HitRecord {
    path_tracer::hit::HitRecord {
        p: Vec3::zero(),
        normal,
        mat: gray(),
        t: FX,
        front_face: true,
    }
}

#[test]
fn lambertian_always_scatters() {
    let m = Material::Lambertian(Lambertian::new(Vec3::new(FX / 2, FX / 4, FX / 8)));
    let rec = plain_record(Vec3::new(0, 0, FX));
    let r = Ray::new(Vec3::zero(), Vec3::new(0, 0, -FX));
    let rv = Vec3::new(0, FX, 0);
    let (att, sray) = m.scatter_with(&r, &rec, &rv, 0).expect("diffuse always scatters");
    assert_eq!((att.x, att.y, att.z), (FX / 2, FX / 4, FX / 8));
    assert_eq!((sray.dir.x, sray.dir.y, sray.dir.z), (0, FX, FX));
}

#[test]
fn lambertian_near_zero_falls_back_to_normal() {
    let m = Material::Lambertian(Lambertian::new(Vec3::new(FX, FX, FX)));
    let rec = plain_record(Vec3::new(0, 0, FX));
    let r = Ray::new(Vec3::zero(), Vec3::new(0, 0, -FX));
    let rv = Vec3::new(0, 0, -FX);
    let (_, sray) = m.scatter_with(&r, &rec, &rv, 0).expect("diffuse always scatters");
    assert_eq!((sray.dir.x, sray.dir.y, sray.dir.z), (0, 0, FX));
}

#[test]
fn metal_scatters_or_absorbs_by_normal_side() {
    let m = Material::Metal(Metal::new(Vec3::new(FX, FX, FX), 0));
    let r = Ray::new(Vec3::zero(), Vec3::new(0, 0, -FX));
    // Reflection leaves the surface: scatter.
    let rec_out = plain_record(Vec3::new(0, 0, FX));
    let (_, sray) = m.scatter_with(&r, &rec_out, &Vec3::zero(), 0).expect("must scatter");
    assert_eq!((sray.dir.x, sray.dir.y, sray.dir.z), (0, 0, FX));
    // Reflection dives into the surface: absorb.
    let rec_in = plain_record(Vec3::new(0, 0, -FX));
    assert!(m.scatter_with(&r, &rec_in, &Vec3::zero(), 0).is_none());
}

#[test]
fn dielectric_attenuation_is_white() {
    let m = Material::Dielectric(Dielectric::new(3 * FX / 2));
    let rec = plain_record(Vec3::new(0, 0, FX));
    let r = Ray::new(Vec3::zero(), Vec3::new(0, 0, -FX));
    for rnd in [0, FX / 3, FX - 1] {
        let (att, _) = m.scatter_with(&r, &rec, &Vec3::zero(), rnd).expect("always scatters");
        assert_eq!((att.x, att.y, att.z), (FX, FX, FX));
    }
}

#[test]
fn reflectance_at_normal_incidence_is_r0() {
    for ratio in [699050, FX, 3 * FX / 2, 2 * FX] {
        let t = fx_div(FX - ratio, FX + ratio);
        let r0 = fx_mul(t, t);
        assert_eq!(Dielectric::reflectance(FX, ratio), r0);
    }
}

#[test]
fn refract_is_tangent_at_critical_angle() {
    // From inside glass (ratio 1.5) at sin = 1/1.5 the refracted direction
    // grazes the surface: its component along the normal nearly vanishes.
    let ratio = 3 * FX / 2;
    let sin = fx_div(FX, ratio);
    let cos = fx_sqrt(FX - fx_mul(sin, sin));
    let uv = Vec3::new(sin, 0, -cos);
    let n = Vec3::new(0, 0, FX);
    let refr = uv.refract(&n, ratio);
    let along = refr.dot(&n);
    assert!(along.abs() < 4096, "normal component {along} not near zero");
    assert!(refr.x > FX / 2, "tangential component should dominate");
}

#[test]
fn trace_depth_zero_is_black() {
    let mut w = World::new();
    w.push(Sphere::new(Vec3::new(0, 0, -FX), FX / 2, gray()));
    let r = Ray::new(Vec3::zero(), Vec3::new(0, 0, -FX));
    let mut rng = rng_from_seed(1);
    let c = ray_color_depth(&r, &w, 0, &mut rng);
    assert_eq!((c.x, c.y, c.z), (0, 0, 0));
}

#[test]
fn empty_scene_is_exactly_the_sky_gradient() {
    let w = World::new();
    let up = Ray::new(Vec3::zero(), Vec3::new(0, FX, 0));
    let down = Ray::new(Vec3::zero(), Vec3::new(0, -FX, 0));
    for seed in [1u64, 2, 99] {
        let mut rng = rng_from_seed(seed);
        let top = ray_color(&up, &w, &mut rng);
        // Straight up: full sky blue (0.5, 0.7, 1.0).
        assert_eq!((top.x, top.y, top.z), (FX / 2, 734003, FX));
        let bottom = ray_color(&down, &w, &mut rng);
        // Straight down: white.
        assert_eq!((bottom.x, bottom.y, bottom.z), (FX, FX, FX));
        let mid = ray_color_depth(&Ray::new(Vec3::zero(), Vec3::new(FX, 0, 0)), &w, 7, &mut rng);
        // Horizontal: the midpoint of the blend.
        assert_eq!((mid.x, mid.y, mid.z), (786432, 891289, FX));
    }
}

#[test]
fn gamma_and_quantization_exact() {
    // Full white sums quantize to 255, black to 0, quarter gray to 128.
    let white = Vec3::new(FX, FX, FX);
    assert_eq!(white.format_color(1), (255, 255, 255));
    assert_eq!(Vec3::zero().format_color(1), (0, 0, 0));
    assert_eq!(format_channel(FX / 4, 1), 128);
    assert_eq!(format_channel(-5, 1), 0);
}

#[test]
fn averaging_a_constant_is_exact() {
    // Summing the same channel value over n samples and averaging gives the
    // single-sample pixel, for every sample count.
    for n in [1u32, 2, 7, 100, 500] {
        let c = 262144i64;
        assert_eq!(format_channel(c * n as i64, n), format_channel(c, 1));
    }
}

fn test_camera() -> Camera {
    Camera::new(
        Vec3::zero(),
        Vec3::new(0, 0, -FX),
        Vec3::new(0, FX, 0),
        FX,  // tan of half of a 90 degree field of view
        FX,
        0,
        FX,
    )
}

#[test]
fn camera_center_ray_points_at_target() {
    let cam = test_camera();
    let r = cam.get_ray_with(FX / 2, FX / 2, &Vec3::zero());
    assert_eq!((r.orig.x, r.orig.y, r.orig.z), (0, 0, 0));
    assert_eq!((r.dir.x, r.dir.y, r.dir.z), (0, 0, -FX));
}

#[test]
fn single_sphere_render_is_reproducible() {
    // One diffuse gray sphere under the sky, a fixed seed: the pixel grid is
    // deterministic, so two renders agree everywhere.
    let cam = test_camera();
    let mut w = World::new();
    w.push(Sphere::new(Vec3::new(0, 0, -FX), FX / 2, gray()));
    let mut first: Vec<(u64, u64, u64)> = Vec::new();
    let mut second: Vec<(u64, u64, u64)> = Vec::new();
    for pass in 0..2 {
        let out = if pass == 0 { &mut first } else { &mut second };
        for j in 0..4u32 {
            for i in 0..4u32 {
                let mut rng = rng_from_seed((j * 4 + i) as u64);
                let sum = render_pixel(&cam, &w, i, j, 4, 4, 2, &mut rng);
                out.push(sum.format_color(2));
            }
        }
    }
    assert_eq!(first, second);
    assert!(first.iter().any(|&p| p != (0, 0, 0)));
    let _ = MAX_RAY_BOUNCES;
}

#[test]
fn seeded_generator_is_deterministic_and_in_bounds() {
    let mut a = rng_from_seed(12345);
    let mut b = rng_from_seed(12345);
    let mut differs_from_other_seed = false;
    let mut c = rng_from_seed(54321);
    for _ in 0..1000 {
        let x = rand_range(&mut a, -5 * FX, 5 * FX);
        let y = rand_range(&mut b, -5 * FX, 5 * FX);
        assert_eq!(x, y);
        assert!(-5 * FX <= x && x < 5 * FX);
        let u = rand_unit(&mut c);
        assert!(0 <= u && u < FX);
        if u != x {
            differs_from_other_seed = true;
        }
    }
    assert!(differs_from_other_seed);
}

#[test]
fn rejection_sampling_stays_in_bounds() {
    let mut rng = rng_from_seed(7);
    for _ in 0..200 {
        let v = Vec3::random_in_unit_sphere(&mut rng);
        assert!(v.dot(&v) < FX);
        let d = Vec3::random_in_unit_disk(&mut rng);
        assert_eq!(d.z, 0);
        assert!(d.dot(&d) < FX);
        let u = Vec3::random_unit_vector(&mut rng);
        let len = u.length();
        assert!((len - FX).abs() < 4096, "unit length {len}");
        let n = Vec3::new(0, 0, FX);
        let h = Vec3::random_in_hemisphere(&mut rng, &n);
        assert!(h.dot(&n) >= 0);
    }
}
