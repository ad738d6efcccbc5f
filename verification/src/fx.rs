//! Fixed-point scalar arithmetic.
//!
//! Every scalar of this crate is a real number stored as a signed count of
//! `1 / FX_ONE` units, rounded toward zero.  All operations are exact integer
//! computations, so each has a complete functional specification.

use vstd::prelude::*;

verus! {

/// Number of fraction units that represent the real value one (2^20).
pub const FX_ONE: i64 = 1048576;

/// Fixed-point representation of one half.
pub const FX_HALF: i64 = 524288;

/// Magnitude of a mathematical integer.
pub open spec fn iabs(a: int) -> int {
    if a >= 0 {
        a
    } else {
        -a
    }
}

/// Product of two fixed-point scalars, rounded toward zero.
pub open spec fn fx_mul_spec(a: int, b: int) -> int {
    if (a < 0) == (b < 0) {
        iabs(a) * iabs(b) / (FX_ONE as int)
    } else {
        -(iabs(a) * iabs(b) / (FX_ONE as int))
    }
}

/// Quotient of two fixed-point scalars, rounded toward zero.
pub open spec fn fx_div_spec(a: int, b: int) -> int {
    if (a < 0) == (b < 0) {
        iabs(a) * (FX_ONE as int) / iabs(b)
    } else {
        -(iabs(a) * (FX_ONE as int) / iabs(b))
    }
}

/// The product of two scalars stays inside the i64 range.
pub open spec fn fx_mul_fits(a: int, b: int) -> bool {
    iabs(a) * iabs(b) / (FX_ONE as int) <= i64::MAX
}

/// The quotient of two scalars stays inside the i64 range.
pub open spec fn fx_div_fits(a: int, b: int) -> bool {
    iabs(a) * (FX_ONE as int) / iabs(b) <= i64::MAX
}

/// Integer square root (largest r with r * r <= n), by halving digits.
pub open spec fn isqrt_spec(n: int) -> int
    decreases n,
{
    if n <= 0 {
        0
    } else {
        let h = 2 * isqrt_spec(n / 4);
        if (h + 1) * (h + 1) <= n {
            h + 1
        } else {
            h
        }
    }
}

/// `isqrt_spec(n)` really is the rounded-down square root of `n`.
pub proof fn lemma_isqrt(n: int)
    requires
        n >= 0,
    ensures
        isqrt_spec(n) >= 0,
        isqrt_spec(n) * isqrt_spec(n) <= n,
        n < (isqrt_spec(n) + 1) * (isqrt_spec(n) + 1),
    decreases n,
{
    if n <= 0 {
    } else {
        let m = n / 4;
        lemma_isqrt(m);
        let r = isqrt_spec(m);
        let h = 2 * r;
        assert(4 * m <= n && n <= 4 * m + 3);
        assert(h * h <= 4 * m) by (nonlinear_arith)
            requires
                r * r <= m,
                h == 2 * r,
        ;
        assert(4 * m + 3 < (h + 2) * (h + 2)) by (nonlinear_arith)
            requires
                m < (r + 1) * (r + 1),
                h == 2 * r,
                r >= 0,
        ;
        if (h + 1) * (h + 1) <= n {
            assert(isqrt_spec(n) == h + 1);
        } else {
            assert(isqrt_spec(n) == h);
        }
    }
}

/// Executable integer square root over u128, mirroring `isqrt_spec`.
pub fn isqrt_u128(n: u128) -> (r: u128)
    requires
        n < 0x1000000000000000000000000000000,
    ensures
        r as int == isqrt_spec(n as int),
    decreases n,
{
    if n == 0 {
        0
    } else {
        proof {
            lemma_isqrt((n / 4) as int);
            let q = isqrt_spec((n / 4) as int);
            assert(q < 0x1000000000000000) by (nonlinear_arith)
                requires
                    q >= 0,
                    q * q <= n / 4,
                    n / 4 < 0x400000000000000000000000000000,
            ;
        }
        let h = 2 * isqrt_u128(n / 4);
        proof {
            assert((h + 1) * (h + 1) < 0x10000000000000000000000000000000) by (nonlinear_arith)
                requires
                    0 <= h + 1,
                    h + 1 < 0x4000000000000000,
            ;
        }
        if (h + 1) * (h + 1) <= n {
            h + 1
        } else {
            h
        }
    }
}

/// Product of two fixed-point scalars, rounded toward zero.
pub fn fx_mul(a: i64, b: i64) -> (r: i64)
    requires
        fx_mul_fits(a as int, b as int),
    ensures
        r == fx_mul_spec(a as int, b as int),
{
    let neg = (a < 0) != (b < 0);
    let ua: u128 = if a >= 0 {
        a as u128
    } else {
        (-(a as i128)) as u128
    };
    let ub: u128 = if b >= 0 {
        b as u128
    } else {
        (-(b as i128)) as u128
    };
    proof {
        assert(ua == iabs(a as int) && ub == iabs(b as int));
        assert(ua * ub <= 0x40000000000000000000000000000000) by (nonlinear_arith)
            requires
                ua < 0x8000000000000001,
                ub < 0x8000000000000001,
        ;
    }
    let p: u128 = ua * ub;
    let q: u128 = p / (FX_ONE as u128);
    if neg {
        -(q as i64)
    } else {
        q as i64
    }
}

/// Quotient of two fixed-point scalars, rounded toward zero.
pub fn fx_div(a: i64, b: i64) -> (r: i64)
    requires
        b != 0,
        fx_div_fits(a as int, b as int),
    ensures
        r == fx_div_spec(a as int, b as int),
{
    let neg = (a < 0) != (b < 0);
    let ua: u128 = if a >= 0 {
        a as u128
    } else {
        (-(a as i128)) as u128
    };
    let ub: u128 = if b >= 0 {
        b as u128
    } else {
        (-(b as i128)) as u128
    };
    proof {
        assert(ua == iabs(a as int) && ub == iabs(b as int));
        assert(ua * (FX_ONE as u128) < 0x40000000000000000000000000000000) by (nonlinear_arith)
            requires
                ua < 0x8000000000000001,
        ;
    }
    let p: u128 = ua * (FX_ONE as u128);
    let q: u128 = p / ub;
    if neg {
        -(q as i64)
    } else {
        q as i64
    }
}

/// Square root of a non-negative fixed-point scalar, rounded toward zero.
pub open spec fn fx_sqrt_spec(a: int) -> int {
    isqrt_spec(a * (FX_ONE as int))
}

/// Square root of a non-negative fixed-point scalar, rounded toward zero.
pub fn fx_sqrt(a: i64) -> (r: i64)
    requires
        a >= 0,
    ensures
        r == fx_sqrt_spec(a as int),
        r >= 0,
{
    proof {
        assert((a as u128) * (FX_ONE as u128) < 0x10000000000000000000000)
            by (nonlinear_arith)
            requires
                (a as u128) < 0x8000000000000000,
                (FX_ONE as u128) == 1048576,
        ;
    }
    let n: u128 = (a as u128) * (FX_ONE as u128);
    let s = isqrt_u128(n);
    proof {
        lemma_isqrt(n as int);
        assert(s < 0x100000000000) by (nonlinear_arith)
            requires
                s >= 0,
                s * s <= n,
                n < 0x10000000000000000000000,
        ;
    }
    s as i64
}

/// A quotient of a value by at least half of it stays inside [0, 2].
pub proof fn lemma_fx_div_le_two(a: int, b: int)
    requires
        0 <= a <= 2 * b,
        1 <= b,
    ensures
        0 <= fx_div_spec(a, b) <= 2 * FX_ONE,
        fx_div_fits(a, b),
{
    assert(a * (FX_ONE as int) <= (2 * b) * (FX_ONE as int)) by (nonlinear_arith)
        requires
            0 <= a <= 2 * b,
    ;
    assert(a * (FX_ONE as int) >= 0) by (nonlinear_arith)
        requires
            a >= 0,
    ;
    assert(a * (FX_ONE as int) / b <= (2 * b) * (FX_ONE as int) / b) by (nonlinear_arith)
        requires
            a * (FX_ONE as int) <= (2 * b) * (FX_ONE as int),
            b >= 1,
    ;
    assert((2 * b) * (FX_ONE as int) / b == 2 * FX_ONE) by (nonlinear_arith)
        requires
            b >= 1,
    ;
}

/// A product of two colors channels stays inside [0, 1] and below each
/// factor.
pub proof fn lemma_fx_mul_color(a: int, b: int)
    requires
        0 <= a <= FX_ONE,
        0 <= b <= FX_ONE,
    ensures
        0 <= fx_mul_spec(a, b) <= a,
        fx_mul_spec(a, b) <= b,
        fx_mul_spec(FX_ONE as int, b) == b,
        fx_mul_fits(a, b),
{
    assert(a * b / (FX_ONE as int) <= a && a * b / (FX_ONE as int) <= b && a * b / (
    FX_ONE as int) >= 0) by (nonlinear_arith)
        requires
            0 <= a <= 1048576,
            0 <= b <= 1048576,
    ;
    assert(1048576 * b / 1048576 == b) by (nonlinear_arith)
        requires
            b >= 0,
    ;
}

/// On non-negative factors the fixed-point product is the plain truncated
/// product.
pub proof fn lemma_fx_mul_eval(a: int, b: int)
    requires
        0 <= a,
        0 <= b,
    ensures
        fx_mul_spec(a, b) == a * b / (FX_ONE as int),
{
    assert(iabs(a) == a && iabs(b) == b);
    assert(iabs(a) * iabs(b) == a * b) by (nonlinear_arith)
        requires
            iabs(a) == a,
            iabs(b) == b,
    ;
}

/// A zero factor annihilates a fixed-point product.
pub proof fn lemma_fx_mul_zero(a: int)
    ensures
        fx_mul_spec(a, 0) == 0,
{
    assert(iabs(a) * iabs(0) == 0) by (nonlinear_arith)
        requires
            iabs(0) == 0,
    ;
}

/// A fixed-point square is never negative.
pub proof fn lemma_fx_sq_nonneg(a: int)
    ensures
        fx_mul_spec(a, a) >= 0,
{
    assert(iabs(a) * iabs(a) >= 0) by (nonlinear_arith)
        requires
            iabs(a) >= 0,
    ;
}

/// Quotient of a wide fixed-point numerator by a positive scalar, rounded
/// toward zero.
pub open spec fn wdiv_spec(num: int, den: int) -> int {
    if num >= 0 {
        num * (FX_ONE as int) / den
    } else {
        -((-num) * (FX_ONE as int) / den)
    }
}

/// Wide fixed-point division for intermediates that outgrow i64.
pub fn fx_wdiv(num: i128, den: i64) -> (r: i128)
    requires
        1 <= den,
        iabs(num as int) < 0x1000000000000000000000000,
    ensures
        r as int == wdiv_spec(num as int, den as int),
{
    if num >= 0 {
        proof {
            assert((num as u128) * (FX_ONE as u128) < 0x100000000000000000000000000000)
                by (nonlinear_arith)
                requires
                    (num as u128) < 0x1000000000000000000000000,
                    (FX_ONE as u128) == 1048576,
            ;
        }
        let p: u128 = (num as u128) * (FX_ONE as u128);
        (p / (den as u128)) as i128
    } else {
        let m: u128 = (-num) as u128;
        proof {
            assert(m * (FX_ONE as u128) < 0x100000000000000000000000000000)
                by (nonlinear_arith)
                requires
                    m < 0x1000000000000000000000000,
                    (FX_ONE as u128) == 1048576,
            ;
        }
        let p: u128 = m * (FX_ONE as u128);
        -((p / (den as u128)) as i128)
    }
}

/// Bounded magnitudes keep a fixed-point product inside the i64 range.
pub proof fn lemma_fx_mul_bound(a: int, b: int, ma: int, mb: int)
    requires
        iabs(a) <= ma,
        iabs(b) <= mb,
        0 <= ma,
        0 <= mb,
        ma * mb <= 0x400000000000000000000,
    ensures
        fx_mul_fits(a, b),
        iabs(fx_mul_spec(a, b)) <= ma * mb / (FX_ONE as int),
        iabs(fx_mul_spec(a, b)) == iabs(a) * iabs(b) / (FX_ONE as int),
{
    assert(iabs(a) * iabs(b) <= ma * mb) by (nonlinear_arith)
        requires
            0 <= iabs(a) <= ma,
            0 <= iabs(b) <= mb,
    ;
    assert(iabs(a) * iabs(b) / (FX_ONE as int) <= ma * mb / (FX_ONE as int));
    assert(iabs(a) * iabs(b) >= 0) by (nonlinear_arith)
        requires
            iabs(a) >= 0,
            iabs(b) >= 0,
    ;
}

} // verus!
