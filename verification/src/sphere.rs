//! Spheres and their ray-intersection test.

use vstd::prelude::*;
use crate::fx::{FX_ONE, fx_mul_spec, wdiv_spec, isqrt_spec, fx_mul, fx_wdiv, isqrt_u128,
    lemma_fx_mul_bound, lemma_isqrt};
use crate::vec3::{Vec3, vsub, vneg, vdot, vbounded};
use crate::ray::{Ray, POS_BOUND, DIR_BOUND, T_LIMIT};
use crate::hit::{HitRecord, SpecHit};
use crate::material::Material;

verus! {

/// A sphere: center, radius and surface material.
#[derive(Clone, Copy, Debug, PartialEq, Eq, Structural)]
pub struct Sphere {
    pub center: Vec3,
    pub radius: i64,
    pub mat: Material,
}

impl Sphere {
    /// The sphere's geometry stays inside the bounds the hit test needs.
    pub open spec fn wf(self) -> bool {
        vbounded(self.center@, POS_BOUND as int) && 1 <= self.radius <= POS_BOUND
            && self.mat.wf()
    }

    /// Builds a sphere.
    pub fn new(center: Vec3, radius: i64, mat: Material) -> (r: Sphere)
        requires
            vbounded(center@, POS_BOUND as int),
            1 <= radius <= POS_BOUND,
            mat.wf(),
        ensures
            r.center == center,
            r.radius == radius,
            r.mat == mat,
            r.wf(),
    {
        Sphere { center, radius, mat }
    }
}

/// Discriminant (in squared fraction units) of the quadratic whose roots are
/// the ray parameters where the ray meets the sphere.
pub open spec fn sphere_disc(s: Sphere, r: Ray) -> int {
    let oc = vsub(r.orig@, s.center@);
    let a = vdot(r.dir@, r.dir@);
    let half_b = vdot(oc, r.dir@);
    let c = vdot(oc, oc) - fx_mul_spec(s.radius as int, s.radius as int);
    half_b * half_b - a * c
}

/// The hit record an accepted root yields: the hit point, the outward normal
/// oriented against the ray, and the front-face flag.  A root whose normal
/// overflows the unit-scale bound counts as a degenerate miss: it only arises
/// when truncation has broken the geometry.
pub open spec fn sphere_make_hit(s: Sphere, r: Ray, root: int) -> Option<SpecHit> {
    let p = r.at_spec(root);
    let pc = vsub(p, s.center@);
    let outward = (
        wdiv_spec(pc.0, s.radius as int),
        wdiv_spec(pc.1, s.radius as int),
        wdiv_spec(pc.2, s.radius as int),
    );
    if !vbounded(outward, 4 * FX_ONE) {
        None
    } else {
        let front = vdot(r.dir@, outward) < 0;
        Some(
            SpecHit {
                t: root,
                p,
                normal: if front {
                    outward
                } else {
                    vneg(outward)
                },
                front_face: front,
                mat: s.mat,
            },
        )
    }
}

/// The nearest intersection of the ray with the sphere inside
/// `[t_min, t_max]`: the smaller quadratic root is tried first, then the
/// larger; each is accepted only inside the interval.
pub open spec fn sphere_hit_spec(s: Sphere, r: Ray, t_min: int, t_max: int) -> Option<SpecHit> {
    let oc = vsub(r.orig@, s.center@);
    let a = vdot(r.dir@, r.dir@);
    let half_b = vdot(oc, r.dir@);
    let disc = sphere_disc(s, r);
    if disc < 0 {
        None
    } else {
        let sqrtd = isqrt_spec(disc);
        let root1 = wdiv_spec(-half_b - sqrtd, a);
        let root2 = wdiv_spec(-half_b + sqrtd, a);
        if t_min <= root1 && root1 <= t_max {
            sphere_make_hit(s, r, root1)
        } else if t_min <= root2 && root2 <= t_max {
            sphere_make_hit(s, r, root2)
        } else {
            None
        }
    }
}

/// A ray whose line passes the sphere's center farther than the radius
/// cannot hit: when the squared distance from the line to the center exceeds
/// the squared radius (stated over the quadratic's coefficients, scaled by
/// the direction's dot square), the discriminant is negative and the hit
/// test reports a miss, whatever interval it searches.
pub proof fn lemma_ray_misses_sphere(s: Sphere, r: Ray, t_min: int, t_max: int)
    requires
        ({
            let oc = vsub(r.orig@, s.center@);
            let a = vdot(r.dir@, r.dir@);
            let half_b = vdot(oc, r.dir@);
            let r2 = fx_mul_spec(s.radius as int, s.radius as int);
            vdot(oc, oc) * a - half_b * half_b > r2 * a
        }),
    ensures
        sphere_disc(s, r) < 0,
        sphere_hit_spec(s, r, t_min, t_max) is None,
{
    let oc = vsub(r.orig@, s.center@);
    let a = vdot(r.dir@, r.dir@);
    let half_b = vdot(oc, r.dir@);
    let oc2 = vdot(oc, oc);
    let r2 = fx_mul_spec(s.radius as int, s.radius as int);
    assert(half_b * half_b - a * (oc2 - r2) < 0) by (nonlinear_arith)
        requires
            oc2 * a - half_b * half_b > r2 * a,
    ;
}

impl Sphere {
    /// Nearest intersection of `r` with this sphere inside `[t_min, t_max]`.
    pub fn hit(&self, r: &Ray, t_min: i64, t_max: i64) -> (res: Option<HitRecord>)
        requires
            self.wf(),
            r.wf(),
            vdot(r.dir@, r.dir@) >= 1,
            0 <= t_min,
            t_max <= T_LIMIT,
        ensures
            match res {
                Some(rec) => sphere_hit_spec(*self, *r, t_min as int, t_max as int) == Some(
                    rec.as_spec(),
                ) && rec.wf() && t_min <= rec.t <= t_max && rec.mat == self.mat,
                None => sphere_hit_spec(*self, *r, t_min as int, t_max as int) is None,
            },
    {
        proof {
            lemma_fx_mul_bound(r.dir@.0, r.dir@.0, DIR_BOUND as int, DIR_BOUND as int);
            lemma_fx_mul_bound(r.dir@.1, r.dir@.1, DIR_BOUND as int, DIR_BOUND as int);
            lemma_fx_mul_bound(r.dir@.2, r.dir@.2, DIR_BOUND as int, DIR_BOUND as int);
        }
        let oc = r.orig.sub(&self.center);
        proof {
            lemma_fx_mul_bound(oc@.0, r.dir@.0, 0x2000000000, DIR_BOUND as int);
            lemma_fx_mul_bound(oc@.1, r.dir@.1, 0x2000000000, DIR_BOUND as int);
            lemma_fx_mul_bound(oc@.2, r.dir@.2, 0x2000000000, DIR_BOUND as int);
            lemma_fx_mul_bound(oc@.0, oc@.0, 0x2000000000, 0x2000000000);
            lemma_fx_mul_bound(oc@.1, oc@.1, 0x2000000000, 0x2000000000);
            lemma_fx_mul_bound(oc@.2, oc@.2, 0x2000000000, 0x2000000000);
            lemma_fx_mul_bound(self.radius as int, self.radius as int, POS_BOUND as int,
                POS_BOUND as int);
        }
        let a = r.dir.dot(&r.dir);
        let half_b = oc.dot(&r.dir);
        let c = oc.dot(&oc) - fx_mul(self.radius, self.radius);
        proof {
            assert(0 <= (half_b as int) * (half_b as int) < 0x400000000000000000000000000000)
                by (nonlinear_arith)
                requires
                    -0x600000000000000 <= half_b as int <= 0x600000000000000,
            ;
            assert(-0x400000000000000000000000000000 < (a as int) * (c as int)
                < 0x400000000000000000000000000000) by (nonlinear_arith)
                requires
                    -0x3000000000000000 <= a as int <= 0x3000000000000000,
                    -0x100000000000000 <= c as int <= 0x100000000000000,
            ;
        }
        let disc: i128 = (half_b as i128) * (half_b as i128) - (a as i128) * (c as i128);
        if disc < 0 {
            return None;
        }
        let sqrtd: u128 = isqrt_u128(disc as u128);
        proof {
            lemma_isqrt(disc as int);
            assert(sqrtd < 0x1000000000000000) by (nonlinear_arith)
                requires
                    sqrtd >= 0,
                    (sqrtd as int) * (sqrtd as int) <= disc as int,
                    (disc as int) < 0x800000000000000000000000000000,
            ;
        }
        let num1: i128 = -(half_b as i128) - (sqrtd as i128);
        let num2: i128 = -(half_b as i128) + (sqrtd as i128);
        let root1 = fx_wdiv(num1, a);
        let root2 = fx_wdiv(num2, a);
        let tmin_w = t_min as i128;
        let tmax_w = t_max as i128;
        let root: i64 = if tmin_w <= root1 && root1 <= tmax_w {
            root1 as i64
        } else if tmin_w <= root2 && root2 <= tmax_w {
            root2 as i64
        } else {
            return None;
        };
        let p = r.at(root);
        proof {
            lemma_fx_mul_bound(r.dir@.0, root as int, DIR_BOUND as int, T_LIMIT as int);
            lemma_fx_mul_bound(r.dir@.1, root as int, DIR_BOUND as int, T_LIMIT as int);
            lemma_fx_mul_bound(r.dir@.2, root as int, DIR_BOUND as int, T_LIMIT as int);
        }
        let pc = p.sub(&self.center);
        let ow0 = fx_wdiv(pc.x as i128, self.radius);
        let ow1 = fx_wdiv(pc.y as i128, self.radius);
        let ow2 = fx_wdiv(pc.z as i128, self.radius);
        let bound: i128 = 4 * (FX_ONE as i128);
        if ow0 > bound || ow0 < -bound || ow1 > bound || ow1 < -bound || ow2 > bound || ow2
            < -bound {
            return None;
        }
        let outward = Vec3 { x: ow0 as i64, y: ow1 as i64, z: ow2 as i64 };
        let mut rec = HitRecord {
            t: root,
            p,
            mat: self.mat,
            normal: Vec3 { x: 0, y: 0, z: 0 },
            front_face: false,
        };
        rec.set_face_normal(r, outward);
        Some(rec)
    }
}

} // verus!
