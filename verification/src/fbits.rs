//! Single-precision floating-point values held as their IEEE-754 bit patterns,
//! so that the library can compare and convert them with integer arithmetic.

use vstd::arithmetic::power2::{
    lemma2_to64, lemma_pow2_adds, lemma_pow2_pos, lemma_pow2_strictly_increases, pow2,
};
use vstd::prelude::*;

verus! {

/// The IEEE-754 bit pattern of an `f32`, as `f32::to_bits` gives it.
pub type F32Bits = u32;

/// Sign bit: 1 for negative values.
pub open spec fn f32_sign(b: u32) -> int {
    b as int / 0x8000_0000
}

/// Biased exponent field.
pub open spec fn f32_exponent(b: u32) -> int {
    (b as int / 0x80_0000) % 256
}

/// Fraction field.
pub open spec fn f32_fraction(b: u32) -> int {
    b as int % 0x80_0000
}

/// Neither infinite nor NaN.
pub open spec fn f32_is_finite(b: u32) -> bool {
    f32_exponent(b) != 255
}

/// Not a number.
pub open spec fn f32_is_nan(b: u32) -> bool {
    f32_exponent(b) == 255 && f32_fraction(b) != 0
}

/// The absolute value of a finite `f32`, times 2^149; every finite `f32` is a
/// whole multiple of 2^-149, so this is an exact integer.
pub open spec fn f32_scaled_magnitude(b: u32) -> int {
    if f32_exponent(b) == 0 {
        f32_fraction(b)
    } else {
        (f32_fraction(b) + 0x80_0000) * pow2((f32_exponent(b) - 1) as nat)
    }
}

/// The finite, non-negative `f32` `b` lies between the positive finite
/// values `lo` and `hi`, bounds included.
pub open spec fn f32_within(b: u32, lo: u32, hi: u32) -> bool {
    &&& f32_sign(b) == 0
    &&& f32_is_finite(b)
    &&& f32_scaled_magnitude(lo) <= f32_scaled_magnitude(b) <= f32_scaled_magnitude(hi)
}

proof fn lemma_scaled_bounds(a: u32)
    requires
        a < 0x7F80_0000,
    ensures
        0 <= f32_scaled_magnitude(a) < pow2((23 + f32_exponent(a)) as nat),
        f32_exponent(a) >= 1 ==> f32_scaled_magnitude(a) >= pow2((22 + f32_exponent(a)) as nat),
        0 <= f32_exponent(a) < 255,
{
    let e = f32_exponent(a);
    let f = f32_fraction(a);
    lemma2_to64();
    assert(0 <= e < 255);
    if e == 0 {
        lemma_pow2_strictly_increases(0, 23);
        assert(pow2(23) == 0x80_0000);
    } else {
        let p = pow2((e - 1) as nat);
        lemma_pow2_pos((e - 1) as nat);
        lemma_pow2_adds(24, (e - 1) as nat);
        lemma_pow2_adds(23, (e - 1) as nat);
        assert(pow2(24) == 0x100_0000);
        assert(pow2(23) == 0x80_0000);
        assert((f + 0x80_0000) * p < 0x100_0000 * p) by (nonlinear_arith)
            requires
                0 <= f < 0x80_0000,
                p > 0,
        ;
        assert((f + 0x80_0000) * p >= 0x80_0000 * p) by (nonlinear_arith)
            requires
                0 <= f,
                p > 0,
        ;
        assert((24 + (e - 1)) as nat == (23 + e) as nat);
        assert((23 + (e - 1)) as nat == (22 + e) as nat);
    }
}

/// Among finite non-negative `f32` bit patterns, a larger pattern is a larger value.
pub proof fn lemma_scaled_strictly_increases(a: u32, b: u32)
    requires
        a < b < 0x7F80_0000,
    ensures
        f32_scaled_magnitude(a) < f32_scaled_magnitude(b),
{
    lemma_scaled_bounds(a);
    lemma_scaled_bounds(b);
    let ea = f32_exponent(a);
    let eb = f32_exponent(b);
    let fa = f32_fraction(a);
    let fb = f32_fraction(b);
    assert(a == ea * 0x80_0000 + fa);
    assert(b == eb * 0x80_0000 + fb);
    if ea == eb {
        assert(fa < fb);
        if ea != 0 {
            let p = pow2((ea - 1) as nat);
            lemma_pow2_pos((ea - 1) as nat);
            assert((fa + 0x80_0000) * p < (fb + 0x80_0000) * p) by (nonlinear_arith)
                requires
                    fa < fb,
                    p > 0,
            ;
        }
    } else {
        assert(ea < eb);
        if (23 + ea) < (22 + eb) {
            lemma_pow2_strictly_increases((23 + ea) as nat, (22 + eb) as nat);
        }
    }
}

/// Tells whether the `f32` with bits `b` is finite, as `f32::is_finite` does.
pub fn f32_finite(b: F32Bits) -> (r: bool)
    ensures
        r == f32_is_finite(b),
{
    let e = (b >> 23) & 0xFF;
    assert(e == (b as int / 0x80_0000) % 256) by (bit_vector)
        requires
            e == (b >> 23) & 0xFF,
    ;
    e != 0xFF
}

/// Tells whether the `f32` with bits `b` lies in `lo..=hi`, for positive finite
/// bounds given by their bits.
pub fn f32_in_range(b: F32Bits, lo: F32Bits, hi: F32Bits) -> (r: bool)
    requires
        0 < lo <= hi < 0x7F80_0000,
    ensures
        r == f32_within(b, lo, hi),
{
    proof {
        if lo < b < 0x7F80_0000 {
            lemma_scaled_strictly_increases(lo, b);
        }
        if b < lo {
            lemma_scaled_strictly_increases(b, lo);
        }
        if b < hi {
            lemma_scaled_strictly_increases(b, hi);
        }
        if hi < b < 0x7F80_0000 {
            lemma_scaled_strictly_increases(hi, b);
        }
    }
    lo <= b && b <= hi
}

/// The magnitude of a finite `f32`, rounded toward zero to an integer.
pub open spec fn f32_truncated_magnitude(b: u32) -> int {
    f32_scaled_magnitude(b) / pow2(149) as int
}

/// What `value as i32` gives for the `f32` with bits `b`: the value rounded
/// toward zero and saturated to the `i32` range, with NaN giving 0.
pub open spec fn f32_as_i32(b: u32) -> int {
    if f32_is_nan(b) {
        0
    } else if !f32_is_finite(b) {
        if f32_sign(b) == 1 {
            i32::MIN as int
        } else {
            i32::MAX as int
        }
    } else {
        let t = if f32_sign(b) == 1 {
            -f32_truncated_magnitude(b)
        } else {
            f32_truncated_magnitude(b)
        };
        if t < i32::MIN {
            i32::MIN as int
        } else if t > i32::MAX {
            i32::MAX as int
        } else {
            t
        }
    }
}

/// Converts the `f32` with bits `b` to `i32` as `as i32` does.
pub fn f32_to_i32(b: F32Bits) -> (r: i32)
    ensures
        r == f32_as_i32(b),
{
    let sign = b / 0x8000_0000;
    let exponent = (b / 0x80_0000) % 256;
    let fraction = b % 0x80_0000;
    let magnitude_bits = b % 0x8000_0000;
    proof {
        lemma2_to64();
        assert(f32_exponent(b) == f32_exponent(magnitude_bits as u32));
        assert(f32_fraction(b) == f32_fraction(magnitude_bits as u32));
    }
    if exponent == 255 {
        if fraction != 0 {
            0
        } else if sign == 1 {
            i32::MIN
        } else {
            i32::MAX
        }
    } else if exponent < 127 {
        proof {
            lemma_scaled_bounds(magnitude_bits);
            if (23 + exponent) < 149 {
                lemma_pow2_strictly_increases((23 + exponent) as nat, 149);
            }
            vstd::arithmetic::div_mod::lemma_basic_div(
                f32_scaled_magnitude(b),
                pow2(149) as int,
            );
        }
        0
    } else if exponent >= 158 {
        proof {
            lemma_scaled_bounds(magnitude_bits);
            let s = f32_scaled_magnitude(b);
            if (22 + exponent) > 180 {
                lemma_pow2_strictly_increases(180, (22 + exponent) as nat);
            }
            lemma_pow2_adds(149, 31);
            lemma_pow2_pos(149);
            assert(pow2(31) == 0x8000_0000);
            vstd::arithmetic::div_mod::lemma_div_is_ordered(
                pow2(180) as int,
                s,
                pow2(149) as int,
            );
            vstd::arithmetic::div_mod::lemma_div_multiples_vanish(
                pow2(31) as int,
                pow2(149) as int,
            );
            assert(pow2(180) == pow2(31) * pow2(149)) by (nonlinear_arith)
                requires
                    pow2(180) == pow2(149) * pow2(31),
            ;
        }
        if sign == 1 {
            i32::MIN
        } else {
            i32::MAX
        }
    } else {
        let mantissa: u32 = fraction + 0x80_0000;
        let ghost p = pow2((exponent - 1) as nat);
        proof {
            lemma_pow2_pos((exponent - 1) as nat);
            assert(f32_scaled_magnitude(b) == mantissa * p);
        }
        let magnitude: u32 = if exponent >= 150 {
            let shift = exponent - 150;
            proof {
                assert(shift <= 7);
                if shift < 7 {
                    lemma_pow2_strictly_increases(shift as nat, 7);
                }
                assert(pow2(7) == 128);
                lemma_pow2_pos(shift as nat);
                assert(mantissa * pow2(shift as nat) < 0x8000_0000) by (nonlinear_arith)
                    requires
                        mantissa < 0x100_0000,
                        0 < pow2(shift as nat) <= 128,
                ;
                vstd::bits::lemma_u32_shl_is_mul(mantissa, shift);
                lemma_pow2_adds(149, shift as nat);
                assert((149 + shift) as nat == (exponent - 1) as nat);
                lemma_pow2_pos(149);
                assert(mantissa * p == (mantissa * pow2(shift as nat)) * pow2(149)) by (
                nonlinear_arith)
                    requires
                        p == pow2(149) * pow2(shift as nat),
                ;
                vstd::arithmetic::div_mod::lemma_div_multiples_vanish(
                    mantissa * pow2(shift as nat),
                    pow2(149) as int,
                );
            }
            let shifted = mantissa << shift;
            assert(shifted < 0x8000_0000);
            shifted
        } else {
            let shift = 150 - exponent;
            proof {
                assert(1 <= shift <= 23);
                vstd::bits::lemma_u32_shr_is_div(mantissa, shift);
                lemma_pow2_adds((exponent - 1) as nat, shift as nat);
                assert(((exponent - 1) + shift) as nat == 149);
                lemma_pow2_pos(shift as nat);
                vstd::arithmetic::div_mod::lemma_div_denominator(
                    mantissa * p,
                    p as int,
                    pow2(shift as nat) as int,
                );
                vstd::arithmetic::div_mod::lemma_div_multiples_vanish(mantissa as int, p as int);
                assert(mantissa * p == p * mantissa) by (nonlinear_arith);
                vstd::arithmetic::div_mod::lemma_div_is_ordered_by_denominator(
                    mantissa as int,
                    1,
                    pow2(shift as nat) as int,
                );
            }
            let shifted = mantissa >> shift;
            assert(shifted <= mantissa) by {
                vstd::arithmetic::div_mod::lemma_div_basics(mantissa as int);
            }
            shifted
        };
        assert(magnitude < 0x8000_0000);
        assert(magnitude == f32_truncated_magnitude(b));
        if sign == 1 {
            -(magnitude as i32)
        } else {
            magnitude as i32
        }
    }
}

} // verus!
