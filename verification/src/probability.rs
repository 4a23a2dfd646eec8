//! Probabilities held as the bit pattern of an IEEE 754 binary64 number.
//!
//! A pattern has a sign bit, an 11-bit exponent field `e` and a 52-bit
//! fraction field `f`. With `e` below 2047 it stands for the number of
//! magnitude `f * 2^-1074` (where `e` is 0) or `(2^52 + f) * 2^(e - 1075)`
//! (elsewhere); with `e` at 2047 it stands for an infinity or for no number.

use vstd::prelude::*;
use vstd::arithmetic::power2::{lemma2_to64_rest, lemma_pow2_adds, lemma_pow2_pos, lemma_pow2_strictly_increases, pow2};

verus! {

/// The pattern of `1.0`.
pub const ONE: u64 = 0x3FF0_0000_0000_0000;

/// The pattern of `-0.0`.
pub const NEGATIVE_ZERO: u64 = 0x8000_0000_0000_0000;

/// The sign bit is set.
pub open spec fn is_negative(bits: u64) -> bool {
    bits >= 0x8000_0000_0000_0000
}

/// The exponent field.
pub open spec fn exponent_field(bits: u64) -> int {
    (bits as int / 0x10_0000_0000_0000) % 2048
}

/// The fraction field.
pub open spec fn fraction_field(bits: u64) -> int {
    bits as int % 0x10_0000_0000_0000
}

/// The pattern stands for a number, and not for an infinity.
pub open spec fn is_finite(bits: u64) -> bool {
    exponent_field(bits) != 2047
}

/// The magnitude of the number that a finite pattern stands for, times
/// `2^1074`: a natural number.
pub open spec fn scaled_magnitude(bits: u64) -> nat {
    if exponent_field(bits) == 0 {
        fraction_field(bits) as nat
    } else {
        ((0x10_0000_0000_0000 + fraction_field(bits)) * pow2(
            (exponent_field(bits) - 1) as nat,
        )) as nat
    }
}

/// The pattern stands for a number in `[0, 1]`.
pub open spec fn in_unit_interval(bits: u64) -> bool {
    &&& is_finite(bits)
    &&& scaled_magnitude(bits) == 0 || (!is_negative(bits) && scaled_magnitude(bits) <= pow2(1074))
}

/// The numbers in `[0, 1]` are those whose pattern is at most that of `1.0`,
/// and negative zero.
pub proof fn lemma_unit_interval_patterns(bits: u64)
    ensures
        in_unit_interval(bits) <==> bits <= ONE || bits == NEGATIVE_ZERO,
{
    let e = exponent_field(bits);
    let f = fraction_field(bits);
    let span: int = 0x10_0000_0000_0000;
    let high = bits as int / span;
    assert(bits == high * span + f);
    assert(0 <= high < 4096);
    assert(is_negative(bits) <==> high >= 2048);
    assert(e == if high >= 2048 { high - 2048 } else { high });
    lemma2_to64_rest();
    assert(pow2(52) == span);
    assert(pow2(53) == 2 * span);
    if e == 0 {
        assert(scaled_magnitude(bits) == f);
        lemma_pow2_strictly_increases(52, 1074);
        assert(f < pow2(1074));
        if high >= 2048 {
            assert(bits == 2048 * span + f);
        } else {
            assert(bits == f);
        }
    } else {
        let k = (e - 1) as nat;
        let unit = pow2(k) as int;
        let scaled = scaled_magnitude(bits) as int;
        lemma_pow2_pos(k);
        lemma_pow2_adds(52, k);
        lemma_pow2_adds(53, k);
        assert((span + f) * unit == span * unit + f * unit) by (nonlinear_arith);
        assert(f * unit >= 0) by (nonlinear_arith)
            requires
                f >= 0,
                unit > 0,
        ;
        assert(scaled == span * unit + f * unit);
        assert(span * unit == pow2(52 + k));
        assert(scaled >= span * unit);
        assert(span * unit > 0) by (nonlinear_arith)
            requires
                span > 0,
                unit > 0,
        ;
        assert(scaled > 0);
        if e <= 1022 {
            assert(f * unit < span * unit) by (nonlinear_arith)
                requires
                    f < span,
                    unit > 0,
            ;
            assert((2 * span) * unit == span * unit + span * unit) by (nonlinear_arith);
            assert(scaled < pow2(53 + k));
            if 53 + k < 1074 {
                lemma_pow2_strictly_increases(53 + k, 1074);
            }
            assert(scaled <= pow2(1074));
            if high < 2048 {
                assert(high <= 1022);
                assert(bits < 1023 * span);
            }
        } else if e == 1023 {
            assert(52 + k == 1074);
            assert(span * unit == pow2(1074));
            if f > 0 {
                assert(f * unit > 0) by (nonlinear_arith)
                    requires
                        f > 0,
                        unit > 0,
                ;
                assert(scaled > pow2(1074));
            } else {
                assert(f * unit == 0) by (nonlinear_arith)
                    requires
                        f == 0,
                ;
                assert(scaled == pow2(1074));
            }
            if high < 2048 {
                assert(bits == 1023 * span + f);
            }
        } else {
            lemma_pow2_strictly_increases(1074, 52 + k);
            assert(scaled > pow2(1074));
            if high < 2048 {
                assert(bits >= 1024 * span);
            }
        }
    }
}

/// Whether the pattern stands for a number in `[0, 1]`.
pub fn is_probability(bits: u64) -> (r: bool)
    ensures
        r == in_unit_interval(bits),
{
    proof {
        lemma_unit_interval_patterns(bits);
    }
    bits <= ONE || bits == NEGATIVE_ZERO
}

} // verus!
