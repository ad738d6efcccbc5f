//! Three-component fixed-point vectors, points and colors.

use vstd::prelude::*;
use crate::fx::{FX_ONE, iabs, fx_mul_spec, fx_div_spec, fx_sqrt_spec, fx_mul_fits, fx_div_fits,
    isqrt_spec, fx_mul, fx_div, fx_sqrt, lemma_isqrt, lemma_fx_mul_bound, lemma_fx_sq_nonneg};

verus! {

/// A point in space, a direction, or an RGB color, held as three fixed-point
/// scalars.
#[derive(Clone, Copy, Debug, PartialEq, Eq, Structural)]
pub struct Vec3 {
    pub x: i64,
    pub y: i64,
    pub z: i64,
}

impl View for Vec3 {
    type V = (int, int, int);

    open spec fn view(&self) -> (int, int, int) {
        (self.x as int, self.y as int, self.z as int)
    }
}

/// A mathematical integer fits in an i64.
pub open spec fn fits_i64(n: int) -> bool {
    i64::MIN <= n <= i64::MAX
}

/// Every component's magnitude is at most `m`.
pub open spec fn vbounded(v: (int, int, int), m: int) -> bool {
    iabs(v.0) <= m && iabs(v.1) <= m && iabs(v.2) <= m
}

/// Component-wise sum.
pub open spec fn vadd(a: (int, int, int), b: (int, int, int)) -> (int, int, int) {
    (a.0 + b.0, a.1 + b.1, a.2 + b.2)
}

/// Component-wise difference.
pub open spec fn vsub(a: (int, int, int), b: (int, int, int)) -> (int, int, int) {
    (a.0 - b.0, a.1 - b.1, a.2 - b.2)
}

/// Exact negation.
pub open spec fn vneg(a: (int, int, int)) -> (int, int, int) {
    (-a.0, -a.1, -a.2)
}

/// Component-wise fixed-point product (used for color attenuation).
pub open spec fn vmul(a: (int, int, int), b: (int, int, int)) -> (int, int, int) {
    (fx_mul_spec(a.0, b.0), fx_mul_spec(a.1, b.1), fx_mul_spec(a.2, b.2))
}

/// Fixed-point scaling of a vector by a scalar.
pub open spec fn vscale(a: (int, int, int), s: int) -> (int, int, int) {
    (fx_mul_spec(a.0, s), fx_mul_spec(a.1, s), fx_mul_spec(a.2, s))
}

/// Fixed-point dot product.
pub open spec fn vdot(a: (int, int, int), b: (int, int, int)) -> int {
    fx_mul_spec(a.0, b.0) + fx_mul_spec(a.1, b.1) + fx_mul_spec(a.2, b.2)
}

/// Fixed-point cross product.
pub open spec fn vcross(a: (int, int, int), b: (int, int, int)) -> (int, int, int) {
    (
        fx_mul_spec(a.1, b.2) - fx_mul_spec(a.2, b.1),
        fx_mul_spec(a.2, b.0) - fx_mul_spec(a.0, b.2),
        fx_mul_spec(a.0, b.1) - fx_mul_spec(a.1, b.0),
    )
}

/// Fixed-point length: rounded-down square root of the dot square.
pub open spec fn vlen(a: (int, int, int)) -> int {
    fx_sqrt_spec(vdot(a, a))
}

/// Fixed-point normalization: each component divided by the length.
pub open spec fn vunit(a: (int, int, int)) -> (int, int, int) {
    (
        fx_div_spec(a.0, vlen(a)),
        fx_div_spec(a.1, vlen(a)),
        fx_div_spec(a.2, vlen(a)),
    )
}

/// Component-wise fixed-point division by a scalar.
pub open spec fn vdiv(a: (int, int, int), s: int) -> (int, int, int) {
    (fx_div_spec(a.0, s), fx_div_spec(a.1, s), fx_div_spec(a.2, s))
}

/// Mirror reflection of `v` about the normal `n`.
pub open spec fn vreflect(v: (int, int, int), n: (int, int, int)) -> (int, int, int) {
    vsub(v, vscale(n, 2 * vdot(v, n)))
}

/// Snell refraction of the unit direction `uv` at a surface with normal `n`
/// and refraction ratio `ratio`, decomposed into perpendicular and parallel
/// parts.  The cosine is clamped to one and the radicand is taken by
/// magnitude, as guards against degenerate inputs.
pub open spec fn vrefract(uv: (int, int, int), n: (int, int, int), ratio: int) -> (int, int, int) {
    let d = vdot(uv, n);
    let cos = if -d < FX_ONE { -d } else { FX_ONE as int };
    let perp = vscale(vadd(uv, vscale(n, cos)), ratio);
    let k = FX_ONE - vdot(perp, perp);
    let spar = fx_sqrt_spec(iabs(k));
    vadd(perp, vscale(n, -spar))
}

/// A component of a vector whose dot square is at least two fixed-point units
/// divides by the vector's length into at most two units, so normalization of
/// such a vector yields bounded components.
proof fn lemma_unit_component(c: int, d: int)
    requires
        fx_mul_spec(c, c) <= d,
        d >= 2,
    ensures
        isqrt_spec(d * (FX_ONE as int)) >= 1025,
        iabs(fx_div_spec(c, isqrt_spec(d * (FX_ONE as int)))) <= 2 * FX_ONE,
        fx_div_fits(c as int, isqrt_spec(d * (FX_ONE as int))),
{
    let s = FX_ONE as int;
    let q = iabs(c) * iabs(c);
    assert(q == iabs(c * c) && q >= 0 && fx_mul_spec(c, c) == q / s) by (nonlinear_arith)
        requires
            iabs(c) >= 0,
            q == iabs(c) * iabs(c),
            fx_mul_spec(c, c) == if (c < 0) == (c < 0) {
                iabs(c) * iabs(c) / (FX_ONE as int)
            } else {
                -(iabs(c) * iabs(c) / (FX_ONE as int))
            },
            s == FX_ONE,
    ;
    assert(q < s * (q / s) + s);
    assert(q < s * (d + 1));
    lemma_isqrt(d * s);
    let len = isqrt_spec(d * s);
    assert(len * len <= d * s && d * s < (len + 1) * (len + 1) && len >= 0);
    assert((len + 1) * (len + 1) == len * len + 2 * len + 1) by (nonlinear_arith);
    if len < 1025 {
        assert((len + 1) * (len + 1) <= 1025 * 1025) by (nonlinear_arith)
            requires
                0 <= len + 1 <= 1025,
        ;
        assert(d * s >= 2 * s);
        assert(false);
    }
    assert(q < 4 * (len * len)) by (nonlinear_arith)
        requires
            q < len * len + 2 * len + 1 + s,
            len >= 1025,
            s == 1048576,
    ;
    assert(iabs(c) < 2 * len) by (nonlinear_arith)
        requires
            iabs(c) >= 0,
            len >= 0,
            q == iabs(c) * iabs(c),
            q < 4 * (len * len),
    ;
    assert(iabs(c) * s <= 2 * len * s - s) by (nonlinear_arith)
        requires
            iabs(c) <= 2 * len - 1,
            s >= 1,
    ;
    assert(iabs(c) * s / len <= (2 * len * s - s) / len) by (nonlinear_arith)
        requires
            iabs(c) * s <= 2 * len * s - s,
            len >= 1,
    ;
    assert((2 * len * s - s) / len <= 2 * s) by (nonlinear_arith)
        requires
            len >= 1,
            s >= 1,
    ;
    assert(iabs(fx_div_spec(c, len)) == iabs(c) * s / len) by (nonlinear_arith)
        requires
            iabs(c) >= 0,
            len >= 1,
            s == 1048576,
            fx_div_spec(c, len) == if (c < 0) == (len < 0) {
                iabs(c) * (FX_ONE as int) / iabs(len)
            } else {
                -(iabs(c) * (FX_ONE as int) / iabs(len))
            },
    ;
}

impl Vec3 {
    /// Builds a vector from its three components.
    pub fn new(e0: i64, e1: i64, e2: i64) -> (r: Vec3)
        ensures
            r@ == (e0 as int, e1 as int, e2 as int),
    {
        Vec3 { x: e0, y: e1, z: e2 }
    }

    /// The origin (or black, as a color).
    pub fn zero() -> (r: Vec3)
        ensures
            r@ == (0int, 0int, 0int),
    {
        Vec3 { x: 0, y: 0, z: 0 }
    }

    /// First component.
    pub fn x(&self) -> (r: i64)
        ensures
            r == self@.0,
    {
        self.x
    }

    /// Second component.
    pub fn y(&self) -> (r: i64)
        ensures
            r == self@.1,
    {
        self.y
    }

    /// Third component.
    pub fn z(&self) -> (r: i64)
        ensures
            r == self@.2,
    {
        self.z
    }

    /// Component-wise sum.
    pub fn add(&self, o: &Vec3) -> (r: Vec3)
        requires
            fits_i64(self@.0 + o@.0),
            fits_i64(self@.1 + o@.1),
            fits_i64(self@.2 + o@.2),
        ensures
            r@ == vadd(self@, o@),
    {
        Vec3 { x: self.x + o.x, y: self.y + o.y, z: self.z + o.z }
    }

    /// Component-wise difference.
    pub fn sub(&self, o: &Vec3) -> (r: Vec3)
        requires
            fits_i64(self@.0 - o@.0),
            fits_i64(self@.1 - o@.1),
            fits_i64(self@.2 - o@.2),
        ensures
            r@ == vsub(self@, o@),
    {
        Vec3 { x: self.x - o.x, y: self.y - o.y, z: self.z - o.z }
    }

    /// Exact negation.
    pub fn neg(&self) -> (r: Vec3)
        requires
            self@.0 != i64::MIN,
            self@.1 != i64::MIN,
            self@.2 != i64::MIN,
        ensures
            r@ == vneg(self@),
    {
        Vec3 { x: -self.x, y: -self.y, z: -self.z }
    }

    /// Component-wise fixed-point product.
    pub fn mul(&self, o: &Vec3) -> (r: Vec3)
        requires
            fx_mul_fits(self@.0, o@.0),
            fx_mul_fits(self@.1, o@.1),
            fx_mul_fits(self@.2, o@.2),
        ensures
            r@ == vmul(self@, o@),
    {
        Vec3 {
            x: fx_mul(self.x, o.x),
            y: fx_mul(self.y, o.y),
            z: fx_mul(self.z, o.z),
        }
    }

    /// Fixed-point scaling by a scalar.
    pub fn scale(&self, s: i64) -> (r: Vec3)
        requires
            fx_mul_fits(self@.0, s as int),
            fx_mul_fits(self@.1, s as int),
            fx_mul_fits(self@.2, s as int),
        ensures
            r@ == vscale(self@, s as int),
    {
        Vec3 {
            x: fx_mul(self.x, s),
            y: fx_mul(self.y, s),
            z: fx_mul(self.z, s),
        }
    }

    /// Fixed-point dot product.
    pub fn dot(&self, o: &Vec3) -> (r: i64)
        requires
            fx_mul_fits(self@.0, o@.0),
            fx_mul_fits(self@.1, o@.1),
            fx_mul_fits(self@.2, o@.2),
            fits_i64(vdot(self@, o@)),
        ensures
            r == vdot(self@, o@),
    {
        let a = fx_mul(self.x, o.x);
        let b = fx_mul(self.y, o.y);
        let c = fx_mul(self.z, o.z);
        let sum: i128 = a as i128 + b as i128 + c as i128;
        sum as i64
    }

    /// Fixed-point cross product.
    pub fn cross(&self, o: &Vec3) -> (r: Vec3)
        requires
            fx_mul_fits(self@.1, o@.2),
            fx_mul_fits(self@.2, o@.1),
            fx_mul_fits(self@.2, o@.0),
            fx_mul_fits(self@.0, o@.2),
            fx_mul_fits(self@.0, o@.1),
            fx_mul_fits(self@.1, o@.0),
            fits_i64(vcross(self@, o@).0),
            fits_i64(vcross(self@, o@).1),
            fits_i64(vcross(self@, o@).2),
        ensures
            r@ == vcross(self@, o@),
    {
        let c0 = fx_mul(self.y, o.z) as i128 - fx_mul(self.z, o.y) as i128;
        let c1 = fx_mul(self.z, o.x) as i128 - fx_mul(self.x, o.z) as i128;
        let c2 = fx_mul(self.x, o.y) as i128 - fx_mul(self.y, o.x) as i128;
        Vec3 { x: c0 as i64, y: c1 as i64, z: c2 as i64 }
    }

    /// Fixed-point length.
    pub fn length(&self) -> (r: i64)
        requires
            fx_mul_fits(self@.0, self@.0),
            fx_mul_fits(self@.1, self@.1),
            fx_mul_fits(self@.2, self@.2),
            fits_i64(vdot(self@, self@)),
        ensures
            r == vlen(self@),
            r >= 0,
    {
        proof {
            lemma_fx_sq_nonneg(self@.0);
            lemma_fx_sq_nonneg(self@.1);
            lemma_fx_sq_nonneg(self@.2);
        }
        let d = self.dot(self);
        fx_sqrt(d)
    }

    /// Fixed-point normalization.  The dot square must be at least two
    /// fraction units: shorter vectors have no meaningful direction at this
    /// resolution, and callers guard against them.
    pub fn normalized(&self) -> (r: Vec3)
        requires
            vbounded(self@, 0x10000000000),
            vdot(self@, self@) >= 2,
        ensures
            r@ == vunit(self@),
            vbounded(r@, 2 * FX_ONE),
    {
        proof {
            lemma_fx_mul_bound(self@.0, self@.0, 0x10000000000, 0x10000000000);
            lemma_fx_mul_bound(self@.1, self@.1, 0x10000000000, 0x10000000000);
            lemma_fx_mul_bound(self@.2, self@.2, 0x10000000000, 0x10000000000);
            lemma_fx_sq_nonneg(self@.0);
            lemma_fx_sq_nonneg(self@.1);
            lemma_fx_sq_nonneg(self@.2);
            let d = vdot(self@, self@);
            lemma_unit_component(self@.0, d);
            lemma_unit_component(self@.1, d);
            lemma_unit_component(self@.2, d);
        }
        let len = self.length();
        Vec3 {
            x: fx_div(self.x, len),
            y: fx_div(self.y, len),
            z: fx_div(self.z, len),
        }
    }

    /// Fixed-point division by a scalar.
    pub fn div(&self, s: i64) -> (r: Vec3)
        requires
            s != 0,
            fx_div_fits(self@.0, s as int),
            fx_div_fits(self@.1, s as int),
            fx_div_fits(self@.2, s as int),
        ensures
            r@ == vdiv(self@, s as int),
    {
        Vec3 {
            x: fx_div(self.x, s),
            y: fx_div(self.y, s),
            z: fx_div(self.z, s),
        }
    }

    /// True when the vector is too small to carry a direction: below the
    /// fixed-point resolution every component rounds to zero.
    pub fn near_zero(&self) -> (r: bool)
        ensures
            r == (self@ == (0int, 0int, 0int)),
    {
        self.x == 0 && self.y == 0 && self.z == 0
    }

    /// Mirror reflection about the normal `n`.
    pub fn reflect(&self, n: &Vec3) -> (r: Vec3)
        requires
            vbounded(self@, 0x100000000),
            vbounded(n@, 0x100000000),
        ensures
            r@ == vreflect(self@, n@),
    {
        proof {
            lemma_fx_mul_bound(self@.0, n@.0, 0x100000000, 0x100000000);
            lemma_fx_mul_bound(self@.1, n@.1, 0x100000000, 0x100000000);
            lemma_fx_mul_bound(self@.2, n@.2, 0x100000000, 0x100000000);
            lemma_fx_mul_bound(n@.0, 2 * vdot(self@, n@), 0x100000000, 0x800000000000);
            lemma_fx_mul_bound(n@.1, 2 * vdot(self@, n@), 0x100000000, 0x800000000000);
            lemma_fx_mul_bound(n@.2, 2 * vdot(self@, n@), 0x100000000, 0x800000000000);
        }
        let d = self.dot(n);
        let s = 2 * d;
        let scaled = n.scale(s);
        self.sub(&scaled)
    }

    /// Snell refraction of this unit direction at a surface with normal `n`
    /// and refraction ratio `ratio`.
    pub fn refract(&self, n: &Vec3, ratio: i64) -> (r: Vec3)
        requires
            vbounded(self@, 0x200000),
            vbounded(n@, 0x400000),
            0 <= ratio <= 0x1000000,
        ensures
            r@ == vrefract(self@, n@, ratio as int),
            vbounded(r@, 0x2000000000),
    {
        proof {
            lemma_fx_mul_bound(self@.0, n@.0, 0x200000, 0x400000);
            lemma_fx_mul_bound(self@.1, n@.1, 0x200000, 0x400000);
            lemma_fx_mul_bound(self@.2, n@.2, 0x200000, 0x400000);
        }
        let d = self.dot(n);
        let md = -d;
        let cos: i64 = if md < FX_ONE {
            md
        } else {
            FX_ONE
        };
        proof {
            lemma_fx_mul_bound(n@.0, cos as int, 0x400000, 0x2000000);
            lemma_fx_mul_bound(n@.1, cos as int, 0x400000, 0x2000000);
            lemma_fx_mul_bound(n@.2, cos as int, 0x400000, 0x2000000);
        }
        let scaled_n = n.scale(cos);
        let inner = self.add(&scaled_n);
        proof {
            lemma_fx_mul_bound(inner@.0, ratio as int, 0x10000000, 0x1000000);
            lemma_fx_mul_bound(inner@.1, ratio as int, 0x10000000, 0x1000000);
            lemma_fx_mul_bound(inner@.2, ratio as int, 0x10000000, 0x1000000);
        }
        let perp = inner.scale(ratio);
        proof {
            lemma_fx_mul_bound(perp@.0, perp@.0, 0x100000000, 0x100000000);
            lemma_fx_mul_bound(perp@.1, perp@.1, 0x100000000, 0x100000000);
            lemma_fx_mul_bound(perp@.2, perp@.2, 0x100000000, 0x100000000);
        }
        let d2 = perp.dot(&perp);
        let k = FX_ONE - d2;
        let ks = if k < 0 {
            -k
        } else {
            k
        };
        let spar = fx_sqrt(ks);
        proof {
            crate::fx::lemma_isqrt(ks * (FX_ONE as int));
            assert(fx_sqrt_spec(ks as int) < 0x400000000) by (nonlinear_arith)
                requires
                    fx_sqrt_spec(ks as int) >= 0,
                    fx_sqrt_spec(ks as int) * fx_sqrt_spec(ks as int) <= ks * (FX_ONE as int),
                    0 <= ks < 0x400000000000,
            ;
            lemma_fx_mul_bound(n@.0, -(spar as int), 0x400000, 0x400000000);
            lemma_fx_mul_bound(n@.1, -(spar as int), 0x400000, 0x400000000);
            lemma_fx_mul_bound(n@.2, -(spar as int), 0x400000, 0x400000000);
        }
        let par = n.scale(-spar);
        perp.add(&par)
    }
}

} // verus!
