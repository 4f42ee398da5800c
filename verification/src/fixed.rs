//! Q32.32 fixed-point arithmetic: signed `i64` values with 32 fractional
//! bits. `UNIT` is 1.0. Products and quotients are computed through 128-bit
//! intermediates and truncated toward zero, matching the spec functions
//! `qmul_s` and `qdiv_s` exactly.

use vstd::arithmetic::div_mod::{
    lemma_div_pos_is_pos, lemma_fundamental_div_mod, lemma_multiply_divide_lt,
};
use vstd::arithmetic::mul::{lemma_mul_nonnegative, lemma_mul_upper_bound};
use vstd::prelude::*;

verus! {

/// One whole unit (1.0) in Q32.32.
pub const UNIT: i64 = 0x1_0000_0000;

/// Magnitude of a mathematical integer.
pub open spec fn mag(x: int) -> int {
    if x < 0 {
        -x
    } else {
        x
    }
}

/// Fixed-point product: `a * b / UNIT`, truncated toward zero.
pub open spec fn qmul_s(a: int, b: int) -> int {
    if a * b >= 0 {
        (a * b) / (UNIT as int)
    } else {
        -((-(a * b)) / (UNIT as int))
    }
}

/// Fixed-point quotient for a non-negative numerator and positive
/// denominator: `a * UNIT / b`, truncated.
pub open spec fn qdiv_s(a: int, b: int) -> int {
    (a * (UNIT as int)) / b
}

/// Clamp a value into the unit interval [0, UNIT].
pub open spec fn clamp_unit_s(x: int) -> int {
    if x < 0 {
        0
    } else if x > UNIT as int {
        UNIT as int
    } else {
        x
    }
}

/// Smooth saturating soft clip, `x / (1 + |x|)` in fixed point: odd,
/// tanh-shaped, and strictly inside (-UNIT, UNIT) for every input.
pub open spec fn clip_s(x: int) -> int {
    if x >= 0 {
        (x * (UNIT as int)) / ((UNIT as int) + x)
    } else {
        -(((-x) * (UNIT as int)) / ((UNIT as int) - x))
    }
}

/// The product of magnitudes is the magnitude of the product, and the usual
/// sign rules for multiplication.
pub proof fn lemma_mag_mul(a: int, b: int)
    ensures
        mag(a * b) == mag(a) * mag(b),
        a >= 0 && b >= 0 ==> a * b >= 0,
        a <= 0 && b <= 0 ==> a * b >= 0,
        a >= 0 && b <= 0 ==> a * b <= 0,
        a <= 0 && b >= 0 ==> a * b <= 0,
{
    if a >= 0 && b >= 0 {
        lemma_mul_nonnegative(a, b);
        assert(mag(a * b) == a * b);
    } else if a < 0 && b < 0 {
        lemma_mul_nonnegative(-a, -b);
        assert((-a) * (-b) == a * b) by (nonlinear_arith);
        assert(mag(a * b) == a * b);
        assert(mag(a) * mag(b) == (-a) * (-b));
    } else if a >= 0 && b < 0 {
        lemma_mul_nonnegative(a, -b);
        assert(a * (-b) == -(a * b)) by (nonlinear_arith);
        assert(mag(a) * mag(b) == a * (-b));
    } else {
        lemma_mul_nonnegative(-a, b);
        assert((-a) * b == -(a * b)) by (nonlinear_arith);
        assert(mag(a) * mag(b) == (-a) * b);
    }
}

/// Truncation bounds for the fixed-point product: its magnitude, scaled back
/// up by `UNIT`, never exceeds the magnitude of the exact product, and the
/// product of non-negative factors stays non-negative.
pub proof fn lemma_qmul_mag(a: int, b: int)
    ensures
        (UNIT as int) * mag(qmul_s(a, b)) <= mag(a) * mag(b),
        0 <= mag(qmul_s(a, b)),
        a >= 0 && b >= 0 ==> 0 <= qmul_s(a, b) && (UNIT as int) * qmul_s(a, b) <= a * b && a * b
            < (UNIT as int) * qmul_s(a, b) + (UNIT as int),
        a >= 0 && b <= 0 ==> qmul_s(a, b) <= 0,
        a <= 0 && b >= 0 ==> qmul_s(a, b) <= 0,
{
    let u = UNIT as int;
    lemma_mag_mul(a, b);
    let p = a * b;
    lemma_fundamental_div_mod(mag(p), u);
    lemma_div_pos_is_pos(mag(p), u);
    if p >= 0 {
        assert(qmul_s(a, b) == mag(p) / u);
        assert(mag(qmul_s(a, b)) == mag(p) / u);
    } else {
        assert(qmul_s(a, b) == -(mag(p) / u));
        assert(mag(qmul_s(a, b)) == mag(p) / u);
    }
}

/// If one factor is bounded in magnitude and the other lies in [0, UNIT],
/// the fixed-point product keeps the first factor's bound and sign.
pub proof fn lemma_qmul_unit(a: int, b: int, bound: int)
    requires
        mag(a) <= bound,
        0 <= b <= UNIT as int,
    ensures
        mag(qmul_s(a, b)) <= bound,
        a >= 0 ==> 0 <= qmul_s(a, b) <= a,
        a <= 0 ==> a <= qmul_s(a, b) <= 0,
{
    let u = UNIT as int;
    lemma_qmul_mag(a, b);
    lemma_mul_upper_bound(mag(a), bound, mag(b), u);
    assert(u * mag(qmul_s(a, b)) <= bound * u);
    assert(mag(a) * u >= mag(a) * mag(b)) by (nonlinear_arith)
        requires
            0 <= mag(a),
            0 <= mag(b) <= u,
    ;
    assert(u * mag(qmul_s(a, b)) <= mag(a) * u);
}

/// Division facts for `qdiv_s`: the result of dividing a non-negative value
/// by a positive one is non-negative and bracketed by the exact quotient.
pub proof fn lemma_qdiv_bounds(a: int, b: int)
    requires
        0 <= a,
        0 < b,
    ensures
        0 <= qdiv_s(a, b),
        b * qdiv_s(a, b) <= a * (UNIT as int),
        a * (UNIT as int) < b * qdiv_s(a, b) + b,
{
    let u = UNIT as int;
    lemma_mul_nonnegative(a, u);
    lemma_div_pos_is_pos(a * u, b);
    lemma_fundamental_div_mod(a * u, b);
}

/// Fixed-point multiply, exact with respect to `qmul_s`.
pub fn qmul(a: i64, b: i64) -> (r: i64)
    requires
        mag(a as int) * mag(b as int) < 0x8000_0000_0000_0000_0000_0000,
    ensures
        r as int == qmul_s(a as int, b as int),
{
    proof {
        lemma_mag_mul(a as int, b as int);
        lemma_qmul_mag(a as int, b as int);
    }
    let neg: bool = (a < 0) != (b < 0);
    let aa: u64 = if a < 0 {
        (-(a as i128)) as u64
    } else {
        a as u64
    };
    let bb: u64 = if b < 0 {
        (-(b as i128)) as u64
    } else {
        b as u64
    };
    assert(aa as int == mag(a as int));
    assert(bb as int == mag(b as int));
    proof {
        lemma_mul_upper_bound(aa as int, 0x8000_0000_0000_0000, bb as int, 0x8000_0000_0000_0000);
    }
    let m: u128 = ((aa as u128) * (bb as u128)) / (UNIT as u128);
    proof {
        let u = UNIT as int;
        let magp = mag((a as int) * (b as int));
        assert(m as int == magp / u);
        lemma_multiply_divide_lt(magp, u, 0x8000_0000_0000_0000);
        lemma_div_pos_is_pos(magp, u);
    }
    if neg {
        let r: i64 = m as i64;
        proof {
            let p = (a as int) * (b as int);
            if p >= 0 {
                assert(p == 0);
                assert(m == 0);
            }
        }
        -r
    } else {
        proof {
            let p = (a as int) * (b as int);
            assert(p >= 0);
        }
        m as i64
    }
}

/// Fixed-point divide for non-negative numerator and positive denominator,
/// exact with respect to `qdiv_s`.
pub fn qdiv(a: i64, b: i64) -> (r: i64)
    requires
        0 <= a,
        0 < b,
        qdiv_s(a as int, b as int) < 0x8000_0000_0000_0000,
    ensures
        r as int == qdiv_s(a as int, b as int),
        0 <= r,
{
    proof {
        lemma_mul_nonnegative(a as int, UNIT as int);
        lemma_div_pos_is_pos((a as int) * (UNIT as int), b as int);
        lemma_mul_upper_bound(a as int, 0x8000_0000_0000_0000, UNIT as int, 0x1_0000_0000);
    }
    let m: u128 = ((a as u128) * (UNIT as u128)) / (b as u128);
    assert(m as int == qdiv_s(a as int, b as int));
    m as i64
}

/// Clamp into [0, UNIT], exact with respect to `clamp_unit_s`.
pub fn clamp_unit(x: i64) -> (r: i64)
    ensures
        r as int == clamp_unit_s(x as int),
        0 <= r <= UNIT,
{
    if x < 0 {
        0
    } else if x > UNIT {
        UNIT
    } else {
        x
    }
}

/// Smooth saturating soft clip. The result is exactly `clip_s`, lies
/// strictly inside (-UNIT, UNIT), keeps the input's sign, and never exceeds
/// the input in magnitude.
pub fn soft_clip(x: i64) -> (r: i64)
    ensures
        r as int == clip_s(x as int),
        -UNIT < r < UNIT,
        x >= 0 ==> 0 <= r <= x,
        x <= 0 ==> x <= r <= 0,
{
    let neg: bool = x < 0;
    let ax: u64 = if x < 0 {
        (-(x as i128)) as u64
    } else {
        x as u64
    };
    proof {
        lemma_mul_upper_bound(ax as int, 0x8000_0000_0000_0000, UNIT as int, 0x1_0000_0000);
    }
    let v: u128 = ((ax as u128) * (UNIT as u128)) / ((UNIT as u128) + (ax as u128));
    proof {
        let u = UNIT as int;
        let axi = ax as int;
        lemma_mul_nonnegative(axi, u);
        lemma_div_pos_is_pos(axi * u, u + axi);
        assert(axi * u < (u + axi) * u) by (nonlinear_arith)
            requires
                0 <= axi,
                0 < u,
        ;
        lemma_multiply_divide_lt(axi * u, u + axi, u);
        assert(axi * u < (u + axi) * (axi + 1)) by (nonlinear_arith)
            requires
                0 <= axi,
                0 < u,
        ;
        lemma_multiply_divide_lt(axi * u, u + axi, axi + 1);
        assert(v as int <= axi);
    }
    if neg {
        let r: i64 = v as i64;
        -r
    } else {
        v as i64
    }
}

} // verus!
