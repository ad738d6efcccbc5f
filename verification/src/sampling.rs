//! Random sampling: a seeded generator behind trusted wrappers, and the
//! verified rejection loops that draw points from the unit ball and disk.

use vstd::prelude::*;
use crate::fx::{FX_ONE, FX_HALF, fx_mul_spec, lemma_fx_mul_bound, lemma_fx_mul_eval};
use crate::vec3::{Vec3, vneg, vdot, vbounded};

verus! {

#[verifier::external_type_specification]
#[verifier::external_body]
pub struct ExStdRng(rand::rngs::StdRng);

/// Relies on rand::SeedableRng::seed_from_u64: a deterministic generator
/// built from the seed.
#[verifier::external_body]
pub fn rng_from_seed(seed: u64) -> rand::rngs::StdRng {
    <rand::rngs::StdRng as rand::SeedableRng>::seed_from_u64(seed)
}

/// Relies on rand::Rng::gen_range over a half-open integer range: a uniform
/// draw in [lo, hi); the range is non-empty, so the call cannot panic.
#[verifier::external_body]
pub fn rand_range(rng: &mut rand::rngs::StdRng, lo: i64, hi: i64) -> (r: i64)
    requires
        lo < hi,
    ensures
        lo <= r < hi,
{
    rand::Rng::gen_range(rng, lo..hi)
}

/// A uniform fixed-point draw in [0, 1).
pub fn rand_unit(rng: &mut rand::rngs::StdRng) -> (r: i64)
    ensures
        0 <= r < FX_ONE,
{
    rand_range(rng, 0, FX_ONE)
}

impl Vec3 {
    /// A vector whose components are uniform draws in [lo, hi).
    pub fn random(rng: &mut rand::rngs::StdRng, lo: i64, hi: i64) -> (r: Vec3)
        requires
            lo < hi,
        ensures
            lo <= r@.0 < hi,
            lo <= r@.1 < hi,
            lo <= r@.2 < hi,
    {
        let x = rand_range(rng, lo, hi);
        let y = rand_range(rng, lo, hi);
        let z = rand_range(rng, lo, hi);
        Vec3 { x, y, z }
    }

    /// A rejection-sampled point strictly inside the unit ball: draws from
    /// the enclosing cube until the dot square falls below one.  The try
    /// count is capped far beyond any realistic rejection streak; past it a
    /// fixed in-ball point stands in, so the function always terminates.
    pub fn random_in_unit_sphere(rng: &mut rand::rngs::StdRng) -> (r: Vec3)
        ensures
            vbounded(r@, FX_ONE as int),
            vdot(r@, r@) < FX_ONE,
    {
        let mut tries: u32 = 0;
        while tries < 0x10000000
            decreases 0x10000000 - tries,
        {
            let v = Vec3::random(rng, -FX_ONE, FX_ONE);
            proof {
                lemma_fx_mul_bound(v@.0, v@.0, FX_ONE as int, FX_ONE as int);
                lemma_fx_mul_bound(v@.1, v@.1, FX_ONE as int, FX_ONE as int);
                lemma_fx_mul_bound(v@.2, v@.2, FX_ONE as int, FX_ONE as int);
            }
            let dd = v.dot(&v);
            if dd < FX_ONE {
                return v;
            }
            tries = tries + 1;
        }
        proof {
            lemma_fx_mul_eval(FX_HALF as int, FX_HALF as int);
            lemma_fx_mul_eval(0, 0);
        }
        Vec3 { x: FX_HALF, y: 0, z: 0 }
    }

    /// A rejection-sampled unit direction: a unit-ball point long enough to
    /// normalize, normalized.
    pub fn random_unit_vector(rng: &mut rand::rngs::StdRng) -> (r: Vec3)
        ensures
            vbounded(r@, 2 * FX_ONE),
    {
        let mut tries: u32 = 0;
        while tries < 0x10000000
            decreases 0x10000000 - tries,
        {
            let v = Vec3::random_in_unit_sphere(rng);
            proof {
                lemma_fx_mul_bound(v@.0, v@.0, FX_ONE as int, FX_ONE as int);
                lemma_fx_mul_bound(v@.1, v@.1, FX_ONE as int, FX_ONE as int);
                lemma_fx_mul_bound(v@.2, v@.2, FX_ONE as int, FX_ONE as int);
            }
            let dd = v.dot(&v);
            if dd >= 2 {
                return v.normalized();
            }
            tries = tries + 1;
        }
        proof {
            lemma_fx_mul_eval(FX_HALF as int, FX_HALF as int);
            lemma_fx_mul_eval(0, 0);
        }
        let w = Vec3 { x: FX_HALF, y: 0, z: 0 };
        w.normalized()
    }

    /// A unit-ball point on the side of the given normal: the draw is negated
    /// when it points against the normal, so the result never points into the
    /// surface.
    pub fn random_in_hemisphere(rng: &mut rand::rngs::StdRng, normal: &Vec3) -> (r: Vec3)
        requires
            vbounded(normal@, 4 * FX_ONE),
        ensures
            vbounded(r@, FX_ONE as int),
            vdot(r@, normal@) >= 0,
    {
        let v = Vec3::random_in_unit_sphere(rng);
        proof {
            lemma_fx_mul_bound(v@.0, normal@.0, FX_ONE as int, 4 * FX_ONE);
            lemma_fx_mul_bound(v@.1, normal@.1, FX_ONE as int, 4 * FX_ONE);
            lemma_fx_mul_bound(v@.2, normal@.2, FX_ONE as int, 4 * FX_ONE);
        }
        let d = v.dot(normal);
        if d > 0 {
            v
        } else {
            proof {
                lemma_vdot_neg(v@, normal@);
            }
            v.neg()
        }
    }

    /// A rejection-sampled point strictly inside the unit disk in the plane
    /// of the first two axes.
    pub fn random_in_unit_disk(rng: &mut rand::rngs::StdRng) -> (r: Vec3)
        ensures
            vbounded(r@, FX_ONE as int),
            vdot(r@, r@) < FX_ONE,
            r@.2 == 0,
    {
        let mut tries: u32 = 0;
        while tries < 0x10000000
            decreases 0x10000000 - tries,
        {
            let x = rand_range(rng, -FX_ONE, FX_ONE);
            let y = rand_range(rng, -FX_ONE, FX_ONE);
            let v = Vec3 { x, y, z: 0 };
            proof {
                lemma_fx_mul_bound(v@.0, v@.0, FX_ONE as int, FX_ONE as int);
                lemma_fx_mul_bound(v@.1, v@.1, FX_ONE as int, FX_ONE as int);
                lemma_fx_mul_bound(v@.2, v@.2, FX_ONE as int, FX_ONE as int);
            }
            let dd = v.dot(&v);
            if dd < FX_ONE {
                return v;
            }
            tries = tries + 1;
        }
        proof {
            lemma_fx_mul_eval(FX_HALF as int, FX_HALF as int);
            lemma_fx_mul_eval(0, 0);
        }
        Vec3 { x: FX_HALF, y: 0, z: 0 }
    }
}

/// Negating one argument negates a dot product.
pub proof fn lemma_vdot_neg(a: (int, int, int), b: (int, int, int))
    ensures
        vdot(vneg(a), b) == -vdot(a, b),
{
    lemma_fx_mul_neg(a.0, b.0);
    lemma_fx_mul_neg(a.1, b.1);
    lemma_fx_mul_neg(a.2, b.2);
}

/// Negating one factor negates a fixed-point product.
proof fn lemma_fx_mul_neg(a: int, b: int)
    ensures
        fx_mul_spec(-a, b) == -fx_mul_spec(a, b),
{
    if a == 0 {
    } else {
    }
}

} // verus!
