//! The integrator and the sampling driver: recursive light transport as a
//! loop with an attenuation accumulator, per-pixel sample averaging, and
//! gamma-corrected channel quantization.

use vstd::prelude::*;
use crate::fx::{FX_ONE, FX_HALF, fx_mul_spec, fx_sqrt_spec, fx_mul, fx_div, fx_sqrt,
    lemma_fx_mul_bound, lemma_fx_mul_color, lemma_fx_div_le_two};
use crate::vec3::{Vec3, vdot, vunit, vbounded};
use crate::ray::{Ray, POS_BOUND, T_LIMIT};
use crate::hit::World;
use crate::material::{Material, color_ok};
use crate::camera::Camera;
use crate::sampling::rand_unit;

verus! {

/// The shadow-acne epsilon: the lower bound of every hit-test interval,
/// about a thousandth.
pub const T_EPS: i64 = 1049;

/// The bounce budget of the integrator.
pub const MAX_RAY_BOUNCES: u32 = 50;

/// The sky gradient for a unit direction: a vertical blend from white at the
/// bottom to sky blue at the top, with the blend factor clamped into [0, 1]
/// against normalization slack.
pub open spec fn sky_spec(u: (int, int, int)) -> (int, int, int) {
    let t0 = fx_mul_spec(u.1 + FX_ONE, FX_HALF as int);
    let t = if t0 < 0 {
        0
    } else if t0 > FX_ONE {
        FX_ONE as int
    } else {
        t0
    };
    (
        fx_mul_spec(FX_ONE - t, FX_ONE as int) + fx_mul_spec(t, 524288),
        fx_mul_spec(FX_ONE - t, FX_ONE as int) + fx_mul_spec(t, 734003),
        fx_mul_spec(FX_ONE - t, FX_ONE as int) + fx_mul_spec(t, FX_ONE as int),
    )
}

/// The sky gradient for a unit direction.
pub fn sky_color(u: &Vec3) -> (r: Vec3)
    requires
        vbounded(u@, 2 * FX_ONE),
    ensures
        r@ == sky_spec(u@),
        color_ok(r@),
{
    proof {
        lemma_fx_mul_bound(u@.1 + FX_ONE, FX_HALF as int, 4 * FX_ONE, FX_HALF as int);
    }
    let t0 = fx_mul(u.y + FX_ONE, FX_HALF);
    let t: i64 = if t0 < 0 {
        0
    } else if t0 > FX_ONE {
        FX_ONE
    } else {
        t0
    };
    proof {
        lemma_fx_mul_color(FX_ONE - t, FX_ONE as int);
        lemma_fx_mul_color(t as int, FX_ONE as int);
        lemma_fx_mul_color(t as int, 524288);
        lemma_fx_mul_color(t as int, 734003);
    }
    Vec3 {
        x: fx_mul(FX_ONE - t, FX_ONE) + fx_mul(t, 524288),
        y: fx_mul(FX_ONE - t, FX_ONE) + fx_mul(t, 734003),
        z: fx_mul(FX_ONE - t, FX_ONE) + fx_mul(t, FX_ONE),
    }
}

/// Traces a ray through the scene for at most `depth` bounces, accumulating
/// a multiplicative attenuation: black once the budget is exhausted or a
/// material absorbs, the attenuated sky gradient when the ray escapes.
/// Degenerate geometry (a direction below normalization resolution, a hit
/// point outside the scene bounds) yields black, the closed-form fallback
/// for what unguarded arithmetic would turn into meaningless values.
pub fn ray_color_depth(r: &Ray, world: &World, depth: u32, rng: &mut rand::rngs::StdRng) -> (res:
    Vec3)
    requires
        world.wf(),
        r.wf(),
    ensures
        color_ok(res@),
        depth == 0 ==> res@ == (0int, 0int, 0int),
        world.spheres@.len() == 0 && depth > 0 ==> res@ == (
            if vdot(r.dir@, r.dir@) >= 2 {
                sky_spec(vunit(r.dir@))
            } else {
                (0int, 0int, 0int)
            }
        ),
{
    let mut att = Vec3::new(FX_ONE, FX_ONE, FX_ONE);
    let mut cur: Ray = *r;
    let mut d: u32 = depth;
    while d > 0
        invariant
            world.wf(),
            cur.wf(),
            color_ok(att@),
            d <= depth,
            world.spheres@.len() == 0 ==> att@ == (FX_ONE as int, FX_ONE as int, FX_ONE as int)
                && cur == *r && d == depth,
        decreases d,
    {
        proof {
            lemma_fx_mul_bound(cur.dir@.0, cur.dir@.0, 0x10000000000, 0x10000000000);
            lemma_fx_mul_bound(cur.dir@.1, cur.dir@.1, 0x10000000000, 0x10000000000);
            lemma_fx_mul_bound(cur.dir@.2, cur.dir@.2, 0x10000000000, 0x10000000000);
        }
        let dd = cur.dir.dot(&cur.dir);
        if dd < 2 {
            return Vec3::zero();
        }
        match world.hit(&cur, T_EPS, T_LIMIT) {
            Some(rec) => {
                if rec.p.x > POS_BOUND || rec.p.x < -POS_BOUND || rec.p.y > POS_BOUND || rec.p.y
                    < -POS_BOUND || rec.p.z > POS_BOUND || rec.p.z < -POS_BOUND {
                    return Vec3::zero();
                }
                let rv = match rec.mat {
                    Material::Lambertian(_) => Vec3::random_unit_vector(rng),
                    Material::Metal(_) => Vec3::random_in_unit_sphere(rng),
                    Material::Dielectric(_) => Vec3::zero(),
                };
                let rnd = rand_unit(rng);
                match rec.mat.scatter_with(&cur, &rec, &rv, rnd) {
                    Some(pair) => {
                        proof {
                            lemma_fx_mul_color(att@.0, pair.0@.0);
                            lemma_fx_mul_color(att@.1, pair.0@.1);
                            lemma_fx_mul_color(att@.2, pair.0@.2);
                        }
                        att = att.mul(&pair.0);
                        cur = pair.1;
                        d = d - 1;
                    },
                    None => {
                        return Vec3::zero();
                    },
                }
            },
            None => {
                let unit = cur.dir.normalized();
                let sky = sky_color(&unit);
                proof {
                    lemma_fx_mul_color(att@.0, sky@.0);
                    lemma_fx_mul_color(att@.1, sky@.1);
                    lemma_fx_mul_color(att@.2, sky@.2);
                }
                return att.mul(&sky);
            },
        }
    }
    Vec3::zero()
}

/// Traces a ray with the full bounce budget.
pub fn ray_color(r: &Ray, world: &World, rng: &mut rand::rngs::StdRng) -> (res: Vec3)
    requires
        world.wf(),
        r.wf(),
    ensures
        color_ok(res@),
{
    ray_color_depth(r, world, MAX_RAY_BOUNCES, rng)
}

/// Sums the integrator over `samples` jittered camera rays for pixel
/// `(i, j)`: every channel of the sum stays inside [0, samples].
pub fn render_pixel(
    cam: &Camera,
    world: &World,
    i: u32,
    j: u32,
    img_w: u32,
    img_h: u32,
    samples: u32,
    rng: &mut rand::rngs::StdRng,
) -> (res: Vec3)
    requires
        cam.wf(),
        world.wf(),
        2 <= img_w <= 0x100000,
        2 <= img_h <= 0x100000,
        i < img_w,
        j < img_h,
        1 <= samples <= 0x100000,
    ensures
        0 <= res@.0 <= samples * FX_ONE,
        0 <= res@.1 <= samples * FX_ONE,
        0 <= res@.2 <= samples * FX_ONE,
{
    let mut color = Vec3::zero();
    let mut k: u32 = 0;
    while k < samples
        invariant
            cam.wf(),
            world.wf(),
            2 <= img_w <= 0x100000,
            2 <= img_h <= 0x100000,
            i < img_w,
            j < img_h,
            1 <= samples <= 0x100000,
            k <= samples,
            0 <= color@.0 <= k * FX_ONE,
            0 <= color@.1 <= k * FX_ONE,
            0 <= color@.2 <= k * FX_ONE,
        decreases samples - k,
    {
        let ru = rand_unit(rng);
        let rv = rand_unit(rng);
        proof {
            lemma_fx_div_le_two(
                (i as int) * FX_ONE + ru,
                ((img_w - 1) as int) * FX_ONE,
            );
            lemma_fx_div_le_two(
                (j as int) * FX_ONE + rv,
                ((img_h - 1) as int) * FX_ONE,
            );
        }
        let u = fx_div((i as i64) * FX_ONE + ru, ((img_w - 1) as i64) * FX_ONE);
        let v = fx_div((j as i64) * FX_ONE + rv, ((img_h - 1) as i64) * FX_ONE);
        let rd = Vec3::random_in_unit_disk(rng);
        let ray = cam.get_ray_with(u, v, &rd);
        let c = ray_color(&ray, world, rng);
        color = color.add(&c);
        k = k + 1;
    }
    color
}

/// One gamma-corrected 8-bit channel: the summed channel is averaged over
/// the samples, square-rooted (gamma 2), clamped into [0, 0.999] and scaled
/// to [0, 255].
pub open spec fn format_channel_spec(c: int, samples: int) -> int {
    let q = if c < 0 {
        0
    } else {
        c / samples
    };
    let s = fx_sqrt_spec(q);
    let cl = if s > 1047527 {
        1047527
    } else {
        s
    };
    256 * cl / (FX_ONE as int)
}

impl Vec3 {
    /// The three gamma-corrected 8-bit channels of this summed color.
    pub fn format_color(&self, samples: u32) -> (r: (u64, u64, u64))
        requires
            1 <= samples,
        ensures
            r.0 == format_channel_spec(self@.0, samples as int),
            r.1 == format_channel_spec(self@.1, samples as int),
            r.2 == format_channel_spec(self@.2, samples as int),
            r.0 <= 255 && r.1 <= 255 && r.2 <= 255,
    {
        let ir = format_channel(self.x, samples);
        let ig = format_channel(self.y, samples);
        let ib = format_channel(self.z, samples);
        (ir, ig, ib)
    }
}

/// One gamma-corrected 8-bit channel.
pub fn format_channel(c: i64, samples: u32) -> (r: u64)
    requires
        1 <= samples,
    ensures
        r == format_channel_spec(c as int, samples as int),
        r <= 255,
{
    let mut q: i64 = 0;
    if c >= 0 {
        let cu = c as u64;
        let qq = cu / (samples as u64);
        proof {
            assert(qq <= cu) by (nonlinear_arith)
                requires
                    qq == cu / (samples as u64),
                    (samples as u64) >= 1,
            ;
        }
        q = qq as i64;
    }
    let s = fx_sqrt(q);
    let cl: i64 = if s > 1047527 {
        1047527
    } else {
        s
    };
    ((cl as u64) * 256) / (FX_ONE as u64)
}

/// Averaging a constant: when every sample contributes the same channel
/// value, the formatted pixel equals the one a single sample would give, at
/// every sample count.
pub proof fn lemma_average_of_constant(c: int, n: int)
    requires
        0 <= c,
        1 <= n,
    ensures
        format_channel_spec(n * c, n) == format_channel_spec(c, 1),
{
    assert(n * c >= 0 && n * c / n == c) by (nonlinear_arith)
        requires
            0 <= c,
            1 <= n,
    ;
    assert(c / 1 == c);
}

} // verus!
