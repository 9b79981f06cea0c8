//! Widening of single- to double-precision values.

use vstd::arithmetic::power2::{lemma2_to64, lemma_pow2_adds, lemma_pow2_pos, pow2};
use vstd::prelude::*;

use crate::scalar::{is_nan32, is_nan64, Float32, Float64};

verus! {

/// Whether the sign bit is set.
pub open spec fn negative32(bits: u32) -> bool {
    bits >= 0x8000_0000
}

/// Exponent field.
pub open spec fn exponent32(bits: u32) -> int {
    (bits as int / 0x80_0000) % 0x100
}

/// Fraction field.
pub open spec fn fraction32(bits: u32) -> int {
    bits as int % 0x80_0000
}

/// Whether the encoding is a number other than an infinity.
pub open spec fn is_finite32(bits: u32) -> bool {
    exponent32(bits) != 255
}

/// Absolute value of a finite encoding, in units of two to the power of -1074.
pub open spec fn units32(bits: u32) -> int {
    if exponent32(bits) == 0 {
        fraction32(bits) * pow2(925)
    } else {
        (fraction32(bits) + 0x80_0000) * pow2((exponent32(bits) + 924) as nat)
    }
}

/// Whether the sign bit is set.
pub open spec fn negative64(bits: u64) -> bool {
    bits >= 0x8000_0000_0000_0000
}

/// Exponent field.
pub open spec fn exponent64(bits: u64) -> int {
    (bits as int / 0x10_0000_0000_0000) % 0x800
}

/// Fraction field.
pub open spec fn fraction64(bits: u64) -> int {
    bits as int % 0x10_0000_0000_0000
}

/// Whether the encoding is a number other than an infinity.
pub open spec fn is_finite64(bits: u64) -> bool {
    exponent64(bits) != 2047
}

/// Absolute value of a finite encoding, in units of two to the power of -1074.
pub open spec fn units64(bits: u64) -> int {
    if exponent64(bits) == 0 {
        fraction64(bits)
    } else {
        (fraction64(bits) + 0x10_0000_0000_0000) * pow2((exponent64(bits) - 1) as nat)
    }
}

/// Whether a double is the single, widened: the same number, the same infinity,
/// or a NaN of the same sign.
pub open spec fn widens(single: u32, double: u64) -> bool {
    &&& negative32(single) == negative64(double)
    &&& is_finite32(single) == is_finite64(double)
    &&& is_finite32(single) ==> units32(single) == units64(double)
    &&& is_nan32(single) == is_nan64(double)
}

fn compose(negative: bool, exponent: u64, fraction: u64) -> (bits: u64)
    requires
        exponent < 0x800,
        fraction < 0x10_0000_0000_0000,
    ensures
        negative64(bits) == negative,
        exponent64(bits) == exponent,
        fraction64(bits) == fraction,
{
    let low: u64 = exponent * 0x10_0000_0000_0000 + fraction;
    let bits: u64 = if negative {
        low + 0x8000_0000_0000_0000
    } else {
        low
    };
    bits
}

/// Widens a single to a double. The double is the same number; a NaN stays a
/// NaN.
pub fn widen(value: Float32) -> (r: Float64)
    ensures
        widens(value.bits, r.bits),
{
    let negative: bool = value.bits >= 0x8000_0000;
    let exponent: u64 = ((value.bits / 0x80_0000) % 0x100) as u64;
    let fraction: u64 = (value.bits % 0x80_0000) as u64;
    if exponent == 255 {
        return Float64 { bits: compose(negative, 2047, fraction * 0x2000_0000) };
    }
    if exponent != 0 {
        let bits: u64 = compose(negative, exponent + 896, fraction * 0x2000_0000);
        proof {
            lemma_shift(fraction + 0x80_0000, (exponent + 895) as nat, 29);
            lemma2_to64();
        }
        return Float64 { bits };
    }
    if fraction == 0 {
        assert(0 * pow2(925) == 0) by (nonlinear_arith);
        return Float64 { bits: compose(negative, 0, 0) };
    }
    let mut m: u64 = fraction;
    let mut k: u64 = 0;
    proof {
        lemma2_to64();
        assert(fraction * pow2(0) == fraction);
    }
    while m < 0x80_0000
        invariant
            0 < m < 0x100_0000,
            k <= 23,
            0 < fraction,
            m == fraction * pow2(k as nat),
            m < 0x80_0000 ==> k < 23,
        decreases 0x100_0000 - m,
    {
        proof {
            lemma_pow2_adds(k as nat, 1);
            lemma2_to64();
            assert(fraction * pow2((k + 1) as nat) == m * 2) by (nonlinear_arith)
                requires
                    m == fraction * pow2(k as nat),
                    pow2((k + 1) as nat) == pow2(k as nat) * 2,
            ;
        }
        m = m * 2;
        k = k + 1;
        proof {
            if m < 0x80_0000 && k >= 23 {
                assert(pow2(k as nat) >= 0x80_0000) by {
                    assert(k == 23);
                }
                assert(m >= 0x80_0000) by (nonlinear_arith)
                    requires
                        m == fraction * pow2(k as nat),
                        fraction >= 1,
                        pow2(k as nat) >= 0x80_0000,
                ;
            }
        }
    }
    let bits: u64 = compose(negative, 897 - k, (m - 0x80_0000) * 0x2000_0000);
    proof {
        lemma_shift(m as int, (896 - k) as nat, 29);
        lemma_shift(fraction as int, (925 - k) as nat, k as nat);
    }
    Float64 { bits }
}

/// Shifting a factor into the power of two.
proof fn lemma_shift(x: int, e: nat, k: nat)
    ensures
        (x * pow2(k)) * pow2(e) == x * pow2(e + k),
{
    lemma_pow2_adds(e, k);
    assert((x * pow2(k)) * pow2(e) == x * (pow2(e) * pow2(k))) by (nonlinear_arith);
}

/// At most one number widens a finite single: two doubles that do are the same
/// encoding.
pub proof fn law_widening_is_unique(single: u32, a: u64, b: u64)
    requires
        is_finite32(single),
        widens(single, a),
        widens(single, b),
    ensures
        a == b,
{
    lemma_units_determine(a, b);
}

proof fn lemma_units_determine(a: u64, b: u64)
    requires
        is_finite64(a),
        is_finite64(b),
        negative64(a) == negative64(b),
        units64(a) == units64(b),
    ensures
        a == b,
{
    let (ea, fa) = (exponent64(a), fraction64(a));
    let (eb, fb) = (exponent64(b), fraction64(b));
    if ea < eb {
        lemma_units_grow(a, b);
    } else if eb < ea {
        lemma_units_grow(b, a);
    } else if ea > 0 {
        lemma_pow2_pos((ea - 1) as nat);
        let p = pow2((ea - 1) as nat) as int;
        assert(fa == fb) by (nonlinear_arith)
            requires
                (fa + 0x10_0000_0000_0000) * p == (fb + 0x10_0000_0000_0000) * p,
                p > 0,
        ;
    }
}

proof fn lemma_units_grow(a: u64, b: u64)
    requires
        exponent64(a) < exponent64(b),
    ensures
        units64(a) < units64(b),
{
    let (ea, fa) = (exponent64(a), fraction64(a));
    let (eb, fb) = (exponent64(b), fraction64(b));
    lemma2_to64();
    let q = pow2((eb - 1) as nat) as int;
    lemma_pow2_pos((eb - 1) as nat);
    assert((fb + 0x10_0000_0000_0000) * q >= 0x10_0000_0000_0000 * q) by (nonlinear_arith)
        requires
            fb >= 0,
            q > 0,
    ;
    if ea > 0 {
        let p = pow2((ea - 1) as nat) as int;
        let d = pow2((eb - ea - 1) as nat) as int;
        lemma_pow2_pos((ea - 1) as nat);
        lemma_pow2_pos((eb - ea - 1) as nat);
        lemma_pow2_adds((ea - 1) as nat, 1);
        lemma_pow2_adds(ea as nat, (eb - ea - 1) as nat);
        assert(q == (p * 2) * d);
        assert((fa + 0x10_0000_0000_0000) * p < 0x10_0000_0000_0000 * q) by (nonlinear_arith)
            requires
                0 <= fa < 0x10_0000_0000_0000,
                p > 0,
                d > 0,
                q == (p * 2) * d,
        ;
    } else {
        assert(0x10_0000_0000_0000 * q >= 0x10_0000_0000_0000) by (nonlinear_arith)
            requires
                q > 0,
        ;
    }
}

/// In the encoding, widening moves the exponent by 896, the difference of the
/// two biases, and shifts the fraction by 29 bits, the difference of their
/// lengths. The sign stays; zeros and infinities stay what they are.
pub proof fn law_widening_moves_the_fields(
    single: u32,
    double: u64,
    sign: int,
    exponent: int,
    fraction: int,
)
    requires
        0 <= sign < 2,
        0 <= exponent < 256,
        0 <= fraction < 0x80_0000,
        single == sign * 0x8000_0000 + exponent * 0x80_0000 + fraction,
        widens(single, double),
    ensures
        0 < exponent < 255 ==> double == sign * 0x8000_0000_0000_0000 + (exponent + 896)
            * 0x10_0000_0000_0000 + fraction * 0x2000_0000,
        exponent == 0 && fraction == 0 ==> double == sign * 0x8000_0000_0000_0000,
        exponent == 255 && fraction == 0 ==> double == sign * 0x8000_0000_0000_0000
            + 0x7ff0_0000_0000_0000,
        exponent == 255 && fraction != 0 ==> is_nan64(double),
{
    assert(negative32(single) == (sign == 1) && exponent32(single) == exponent && fraction32(single)
        == fraction);
    if 0 < exponent < 255 {
        let e = exponent + 896;
        let f = fraction * 0x2000_0000;
        let c = (sign * 0x8000_0000_0000_0000 + e * 0x10_0000_0000_0000 + f) as u64;
        assert(c == sign * 0x8000_0000_0000_0000 + e * 0x10_0000_0000_0000 + f);
        assert(negative64(c) == (sign == 1) && exponent64(c) == e && fraction64(c) == f);
        lemma_shift(fraction + 0x80_0000, (exponent + 895) as nat, 29);
        lemma2_to64();
        assert((fraction + 0x80_0000) * 0x2000_0000 == f + 0x10_0000_0000_0000);
        assert(units64(c) == units32(single));
        lemma_units_determine(c, double);
    } else if exponent == 0 && fraction == 0 {
        let c = (sign * 0x8000_0000_0000_0000) as u64;
        assert(0 * pow2(925) == 0) by (nonlinear_arith);
        assert(negative64(c) == (sign == 1) && exponent64(c) == 0 && fraction64(c) == 0);
        lemma_units_determine(c, double);
    } else if exponent == 255 {
        assert(exponent64(double) == 2047);
    }
}

} // verus!
