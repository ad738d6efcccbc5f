//! Surface materials and their scattering models.
//!
//! Each model is deterministic once its random inputs are drawn, so the
//! scattering logic takes those draws as arguments and carries an exact
//! specification.

use vstd::prelude::*;
use crate::fx::{FX_ONE, iabs, fx_mul_spec, fx_div_spec, fx_sqrt_spec, fx_mul, fx_div, fx_sqrt,
    lemma_fx_mul_bound, lemma_isqrt};
use crate::vec3::{Vec3, vadd, vscale, vdot, vreflect, vrefract, vbounded, vunit};
use crate::ray::Ray;
use crate::hit::HitRecord;

verus! {

/// An RGB color with every channel inside [0, 1].
pub open spec fn color_ok(c: (int, int, int)) -> bool {
    0 <= c.0 <= FX_ONE && 0 <= c.1 <= FX_ONE && 0 <= c.2 <= FX_ONE
}

/// A diffuse surface.
#[derive(Clone, Copy, Debug, PartialEq, Eq, Structural)]
pub struct Lambertian {
    pub albedo: Vec3,
}

/// A reflective surface with a fuzz perturbation.
#[derive(Clone, Copy, Debug, PartialEq, Eq, Structural)]
pub struct Metal {
    pub albedo: Vec3,
    pub fuzz: i64,
}

/// A refractive surface with a refractive index.
#[derive(Clone, Copy, Debug, PartialEq, Eq, Structural)]
pub struct Dielectric {
    pub ir: i64,
}

/// The closed set of surface materials.
#[derive(Clone, Copy, Debug, PartialEq, Eq, Structural)]
pub enum Material {
    Lambertian(Lambertian),
    Metal(Metal),
    Dielectric(Dielectric),
}

impl Lambertian {
    pub open spec fn wf(self) -> bool {
        color_ok(self.albedo@)
    }

    /// Builds a diffuse material from its albedo.
    pub fn new(a: Vec3) -> (r: Lambertian)
        requires
            color_ok(a@),
        ensures
            r.albedo == a,
            r.wf(),
    {
        Lambertian { albedo: a }
    }
}

impl Metal {
    pub open spec fn wf(self) -> bool {
        color_ok(self.albedo@) && 0 <= self.fuzz <= FX_ONE
    }

    /// Builds a reflective material; the fuzz factor lies in [0, 1].
    pub fn new(a: Vec3, fuzz: i64) -> (r: Metal)
        requires
            color_ok(a@),
            0 <= fuzz <= FX_ONE,
        ensures
            r.albedo == a,
            r.fuzz == fuzz,
            r.wf(),
    {
        Metal { albedo: a, fuzz }
    }
}

impl Dielectric {
    pub open spec fn wf(self) -> bool {
        65536 <= self.ir <= 16777216
    }

    /// Builds a refractive material; the index lies in [1/16, 16].
    pub fn new(index_of_refraction: i64) -> (r: Dielectric)
        requires
            65536 <= index_of_refraction <= 16777216,
        ensures
            r.ir == index_of_refraction,
            r.wf(),
    {
        Dielectric { ir: index_of_refraction }
    }

    /// Schlick's reflectance approximation:
    /// `r0 + (1 - r0) * (1 - cosine)^5` with `r0 = ((1 - n) / (1 + n))^2`.
    pub open spec fn reflectance_spec(cosine: int, ref_idx: int) -> int {
        let r0 = schlick_r0(ref_idx);
        let base = FX_ONE - cosine;
        let b2 = fx_mul_spec(base, base);
        let b4 = fx_mul_spec(b2, b2);
        let b5 = fx_mul_spec(b4, base);
        r0 + fx_mul_spec(FX_ONE - r0, b5)
    }

    /// Schlick reflectance.
    pub fn reflectance(cosine: i64, ref_idx: i64) -> (r: i64)
        requires
            -0x4000000 <= cosine <= FX_ONE,
            0 <= ref_idx <= 0x1000000,
        ensures
            r == Self::reflectance_spec(cosine as int, ref_idx as int),
    {
        proof {
            lemma_schlick_r0_range(ref_idx as int);
        }
        let t = fx_div(FX_ONE - ref_idx, FX_ONE + ref_idx);
        let r0 = fx_mul(t, t);
        let base = FX_ONE - cosine;
        proof {
            lemma_fx_mul_bound(base as int, base as int, 0x8000000, 0x8000000);
            let b2 = fx_mul_spec(base as int, base as int);
            lemma_fx_mul_bound(b2, b2, 0x400000000, 0x400000000);
            let b4 = fx_mul_spec(b2, b2);
            lemma_fx_mul_bound(b4, base as int, 0x1000000000000, 0x8000000);
            let b5 = fx_mul_spec(b4, base as int);
            lemma_fx_mul_bound(FX_ONE - r0, b5, 0x200000, 0x80000000000000);
        }
        let b2 = fx_mul(base, base);
        let b4 = fx_mul(b2, b2);
        let b5 = fx_mul(b4, base);
        r0 + fx_mul(FX_ONE - r0, b5)
    }
}

/// Scatter of a metal surface: the normalized incoming direction is mirrored
/// about the normal, perturbed by the fuzz-scaled ball sample, and absorbed
/// when the result leaves into the surface.  A degenerate mirror direction
/// (below the resolution of normalization) is absorbed as well.
pub open spec fn metal_scatter_spec(m: Metal, r: Ray, rec: HitRecord, rv: (int, int, int)) -> Option<
    ((int, int, int), (int, int, int)),
> {
    let unit = vunit(r.dir@);
    let refl = vreflect(unit, rec.normal@);
    if vdot(refl, refl) < 2 {
        None
    } else {
        let sdir = vadd(vunit(refl), vscale(rv, m.fuzz as int));
        if vdot(sdir, rec.normal@) > 0 {
            Some((m.albedo@, sdir))
        } else {
            None
        }
    }
}

/// A metal surface with a usable mirror direction absorbs exactly when the
/// fuzzed scattered direction does not leave the surface: its dot product
/// with the normal is not positive.
pub proof fn lemma_metal_absorbs_iff_into_surface(
    m: Metal,
    r: Ray,
    rec: HitRecord,
    rv: (int, int, int),
)
    requires
        ({
            let refl = vreflect(vunit(r.dir@), rec.normal@);
            vdot(refl, refl) >= 2
        }),
    ensures
        ({
            let refl = vreflect(vunit(r.dir@), rec.normal@);
            let sdir = vadd(vunit(refl), vscale(rv, m.fuzz as int));
            (metal_scatter_spec(m, r, rec, rv) is None) <==> vdot(sdir, rec.normal@) <= 0
        }),
{
}

/// Scatter direction of a dielectric surface: reflect on total internal
/// reflection or when the reflectance draw says so, refract otherwise.
pub open spec fn dielectric_scatter_dir(
    m: Dielectric,
    r: Ray,
    rec: HitRecord,
    rnd: int,
) -> (int, int, int) {
    let ratio = if rec.front_face {
        fx_div_spec(FX_ONE as int, m.ir as int)
    } else {
        m.ir as int
    };
    let unit = vunit(r.dir@);
    let d = vdot(unit, rec.normal@);
    let cos = if -d < FX_ONE {
        -d
    } else {
        FX_ONE as int
    };
    let k = FX_ONE - fx_mul_spec(cos, cos);
    let sin = fx_sqrt_spec(
        if k < 0 {
            0
        } else {
            k
        },
    );
    let cannot_refract = fx_mul_spec(ratio, sin) > FX_ONE;
    let will_reflect = rnd < Dielectric::reflectance_spec(cos, ratio);
    if cannot_refract || will_reflect {
        vreflect(unit, rec.normal@)
    } else {
        vrefract(unit, rec.normal@, ratio)
    }
}

/// Scatter of the whole material family, once the random draws are fixed:
/// diffuse always scatters, metal absorbs exactly when its scattered
/// direction leaves into the surface, dielectric always scatters with white
/// attenuation.
pub open spec fn material_scatter_spec(
    m: Material,
    r: Ray,
    rec: HitRecord,
    rv: (int, int, int),
    rnd: int,
) -> Option<((int, int, int), (int, int, int))> {
    match m {
        Material::Lambertian(l) => Some(
            (
                l.albedo@,
                if vadd(rec.normal@, rv) == (0int, 0int, 0int) {
                    rec.normal@
                } else {
                    vadd(rec.normal@, rv)
                },
            ),
        ),
        Material::Metal(mt) => metal_scatter_spec(mt, r, rec, rv),
        Material::Dielectric(d) => Some(
            ((FX_ONE as int, FX_ONE as int, FX_ONE as int), dielectric_scatter_dir(d, r, rec, rnd)),
        ),
    }
}

impl Material {
    /// The material's parameters are inside their documented ranges.
    pub open spec fn wf(self) -> bool {
        match self {
            Material::Lambertian(l) => l.wf(),
            Material::Metal(m) => m.wf(),
            Material::Dielectric(d) => d.wf(),
        }
    }

    /// Scatters an incoming ray at a hit, given the random draws: `rv` is a
    /// unit sphere sample (diffuse takes a unit vector, metal a ball point)
    /// and `rnd` a uniform draw in [0, 1) deciding dielectric reflection.
    pub fn scatter_with(&self, r: &Ray, rec: &HitRecord, rv: &Vec3, rnd: i64) -> (res: Option<
        (Vec3, Ray),
    >)
        requires
            self.wf(),
            rec.wf(),
            r.wf(),
            vdot(r.dir@, r.dir@) >= 2,
            vbounded(rv@, 2 * FX_ONE),
            self matches Material::Metal(_) ==> vbounded(rv@, FX_ONE as int),
            0 <= rnd < FX_ONE,
        ensures
            match res {
                Some(p) => material_scatter_spec(*self, *r, *rec, rv@, rnd as int) == Some(
                    (p.0@, p.1.dir@),
                ) && p.1.orig == rec.p && vbounded(p.1.dir@, 0x2000000000) && color_ok(p.0@),
                None => material_scatter_spec(*self, *r, *rec, rv@, rnd as int) is None,
            },
            self matches Material::Lambertian(_) ==> res is Some,
            self matches Material::Dielectric(_) ==> res matches Some(p) && p.0@ == (
                FX_ONE as int,
                FX_ONE as int,
                FX_ONE as int,
            ),
    {
        match self {
            Material::Lambertian(l) => {
                let dir = rec.normal.add(rv);
                let dir2 = if dir.near_zero() {
                    rec.normal
                } else {
                    dir
                };
                Some((l.albedo, Ray::new(rec.p, dir2)))
            },
            Material::Metal(m) => {
                let unit_in = r.dir.normalized();
                let refl = unit_in.reflect(&rec.normal);
                proof {
                    lemma_fx_mul_bound(unit_in@.0, rec.normal@.0, 0x200000, 0x400000);
                    lemma_fx_mul_bound(unit_in@.1, rec.normal@.1, 0x200000, 0x400000);
                    lemma_fx_mul_bound(unit_in@.2, rec.normal@.2, 0x200000, 0x400000);
                    lemma_fx_mul_bound(rec.normal@.0, 2 * vdot(unit_in@, rec.normal@), 0x400000,
                        0x4000000);
                    lemma_fx_mul_bound(rec.normal@.1, 2 * vdot(unit_in@, rec.normal@), 0x400000,
                        0x4000000);
                    lemma_fx_mul_bound(rec.normal@.2, 2 * vdot(unit_in@, rec.normal@), 0x400000,
                        0x4000000);
                    lemma_fx_mul_bound(refl@.0, refl@.0, 0x20000000, 0x20000000);
                    lemma_fx_mul_bound(refl@.1, refl@.1, 0x20000000, 0x20000000);
                    lemma_fx_mul_bound(refl@.2, refl@.2, 0x20000000, 0x20000000);
                }
                let rd2 = refl.dot(&refl);
                if rd2 < 2 {
                    return None;
                }
                let unit_refl = refl.normalized();
                proof {
                    lemma_fx_mul_bound(rv@.0, m.fuzz as int, FX_ONE as int, FX_ONE as int);
                    lemma_fx_mul_bound(rv@.1, m.fuzz as int, FX_ONE as int, FX_ONE as int);
                    lemma_fx_mul_bound(rv@.2, m.fuzz as int, FX_ONE as int, FX_ONE as int);
                }
                let fuzzed = rv.scale(m.fuzz);
                let sdir = unit_refl.add(&fuzzed);
                proof {
                    lemma_fx_mul_bound(sdir@.0, rec.normal@.0, 0x400000, 0x400000);
                    lemma_fx_mul_bound(sdir@.1, rec.normal@.1, 0x400000, 0x400000);
                    lemma_fx_mul_bound(sdir@.2, rec.normal@.2, 0x400000, 0x400000);
                }
                let sd = sdir.dot(&rec.normal);
                if sd > 0 {
                    Some((m.albedo, Ray::new(rec.p, sdir)))
                } else {
                    None
                }
            },
            Material::Dielectric(dm) => {
                proof {
                    assert(0 <= 1048576int * 1048576 / (dm.ir as int) <= 0x1000000)
                        by (nonlinear_arith)
                        requires
                            65536 <= dm.ir <= 16777216,
                    ;
                }
                let ratio: i64 = if rec.front_face {
                    fx_div(FX_ONE, dm.ir)
                } else {
                    dm.ir
                };
                let unit = r.dir.normalized();
                proof {
                    lemma_fx_mul_bound(unit@.0, rec.normal@.0, 0x200000, 0x400000);
                    lemma_fx_mul_bound(unit@.1, rec.normal@.1, 0x200000, 0x400000);
                    lemma_fx_mul_bound(unit@.2, rec.normal@.2, 0x200000, 0x400000);
                }
                let d = unit.dot(&rec.normal);
                let md = -d;
                let cos: i64 = if md < FX_ONE {
                    md
                } else {
                    FX_ONE
                };
                proof {
                    lemma_fx_mul_bound(cos as int, cos as int, 0x4000000, 0x4000000);
                    crate::fx::lemma_fx_sq_nonneg(cos as int);
                }
                let cc = fx_mul(cos, cos);
                let k = FX_ONE - cc;
                let kc: i64 = if k < 0 {
                    0
                } else {
                    k
                };
                let sin = fx_sqrt(kc);
                proof {
                    lemma_isqrt(kc * (FX_ONE as int));
                    assert(fx_sqrt_spec(kc as int) <= 1048576) by (nonlinear_arith)
                        requires
                            fx_sqrt_spec(kc as int) >= 0,
                            fx_sqrt_spec(kc as int) * fx_sqrt_spec(kc as int) <= kc * 1048576,
                            0 <= kc <= 1048576,
                    ;
                    lemma_fx_mul_bound(ratio as int, sin as int, 0x1000000, FX_ONE as int);
                }
                let rs = fx_mul(ratio, sin);
                let cannot_refract = rs > FX_ONE;
                let refl_prob = Dielectric::reflectance(cos, ratio);
                let will_reflect = rnd < refl_prob;
                let dirv = if cannot_refract || will_reflect {
                    unit.reflect(&rec.normal)
                } else {
                    unit.refract(&rec.normal, ratio)
                };
                proof {
                    lemma_fx_mul_bound(rec.normal@.0, 2 * vdot(unit@, rec.normal@), 0x400000,
                        0x4000000);
                    lemma_fx_mul_bound(rec.normal@.1, 2 * vdot(unit@, rec.normal@), 0x400000,
                        0x4000000);
                    lemma_fx_mul_bound(rec.normal@.2, 2 * vdot(unit@, rec.normal@), 0x400000,
                        0x4000000);
                }
                Some((Vec3::new(FX_ONE, FX_ONE, FX_ONE), Ray::new(rec.p, dirv)))
            },
        }
    }
}

/// At normal incidence (cosine exactly one) the Schlick reflectance
/// collapses to the base reflectance `r0`: the `(1 - cosine)^5` term
/// vanishes exactly.
pub proof fn lemma_reflectance_normal_incidence(ref_idx: int)
    ensures
        Dielectric::reflectance_spec(FX_ONE as int, ref_idx) == schlick_r0(ref_idx),
{
    crate::fx::lemma_fx_mul_eval(0, 0);
    crate::fx::lemma_fx_mul_zero(FX_ONE - schlick_r0(ref_idx));
}

/// `((1 - n) / (1 + n))^2`, the reflectance at normal incidence.
pub open spec fn schlick_r0(ref_idx: int) -> int {
    let t = fx_div_spec(FX_ONE - ref_idx, FX_ONE + ref_idx);
    fx_mul_spec(t, t)
}

/// The normal-incidence reflectance lies in [0, 1].
pub proof fn lemma_schlick_r0_range(ref_idx: int)
    requires
        0 <= ref_idx,
    ensures
        0 <= schlick_r0(ref_idx) <= FX_ONE,
        iabs(fx_div_spec(FX_ONE - ref_idx, FX_ONE + ref_idx)) <= FX_ONE,
        crate::fx::fx_div_fits(FX_ONE - ref_idx, FX_ONE + ref_idx),
{
    let s = FX_ONE as int;
    let num = iabs(s - ref_idx);
    let den = iabs(s + ref_idx);
    assert(num <= den && den >= 1);
    assert(num * s <= den * s) by (nonlinear_arith)
        requires
            0 <= num <= den,
            s >= 1,
    ;
    assert(num * s / den <= den * s / den) by (nonlinear_arith)
        requires
            num * s <= den * s,
            den >= 1,
    ;
    assert(den * s / den == s) by (nonlinear_arith)
        requires
            den >= 1,
            s >= 0,
    ;
    let t = fx_div_spec(s - ref_idx, s + ref_idx);
    assert(iabs(t) <= s);
    lemma_fx_mul_bound(t, t, s, s);
    crate::fx::lemma_fx_sq_nonneg(t);
}

} // verus!
