use vstd::arithmetic::power2::pow2;
use vstd::prelude::*;

use crate::errors::FilterError;

verus! {

// A sample or parameter is carried as the 64 bits of an IEEE-754 binary64
// value: 1 sign bit, an 11-bit biased exponent, a 52-bit fraction field.
// The spec functions below give such a pattern its numeric meaning, exactly,
// as integers: the magnitude of the represented value scaled by 2^1074 (the
// scale that makes the smallest subnormal equal to 1). Infinities fall in
// line as magnitudes above every finite one; only NaN stands apart.

/// The sign bit of the pattern.
pub open spec fn sign_bit(b: u64) -> bool {
    b >> 63 == 1
}

/// The 11-bit biased exponent field.
pub open spec fn biased_exp(b: u64) -> u64 {
    (b >> 52) & 0x7FF
}

/// The 52-bit fraction field.
pub open spec fn frac_field(b: u64) -> u64 {
    b & 0x000F_FFFF_FFFF_FFFF
}

/// A NaN: exponent field all ones and a nonzero fraction field.
pub open spec fn is_nan_bits(b: u64) -> bool {
    biased_exp(b) == 0x7FF && frac_field(b) != 0
}

/// Magnitude of the represented value, scaled by 2^1074: a subnormal's
/// fraction stands as it is; a normal value carries the implicit leading
/// one, weighted by its exponent.
pub open spec fn scaled_mag(b: u64) -> int {
    if biased_exp(b) == 0 {
        frac_field(b) as int
    } else {
        (0x10_0000_0000_0000 + frac_field(b)) * (pow2((biased_exp(b) - 1) as nat) as int)
    }
}

/// The represented value, scaled by 2^1074 and signed; meaningless for NaN.
pub open spec fn value_num(b: u64) -> int {
    if sign_bit(b) {
        -scaled_mag(b)
    } else {
        scaled_mag(b)
    }
}

/// The IEEE-754 `<=` on the two patterns: false as soon as either is NaN,
/// otherwise the comparison of the represented values (so the two zeros are
/// equal whatever their signs).
pub open spec fn float_le(a: u64, b: u64) -> bool {
    &&& !is_nan_bits(a)
    &&& !is_nan_bits(b)
    &&& value_num(a) <= value_num(b)
}

/// The pattern represents a value strictly below zero (so neither NaN nor
/// a negative zero).
pub open spec fn lt_zero(b: u64) -> bool {
    &&& !is_nan_bits(b)
    &&& sign_bit(b)
    &&& scaled_mag(b) != 0
}

/// Floor of the represented value, for a non-negative, non-NaN pattern:
/// zero below one, the value itself once the exponent leaves no fraction
/// bits below the point, and a right shift of the significand in between.
pub open spec fn floor_mag(b: u64) -> int {
    if biased_exp(b) < 1023 {
        0
    } else if biased_exp(b) >= 1075 {
        (0x10_0000_0000_0000 + frac_field(b)) * (pow2((biased_exp(b) - 1075) as nat) as int)
    } else {
        (0x10_0000_0000_0000 + frac_field(b)) / (pow2((1075 - biased_exp(b)) as nat) as int)
    }
}

/// The whole part the synthesizer works with: the floor for non-negative
/// values, and 0 for NaN, mirroring Rust's saturating float-to-integer cast.
pub open spec fn whole_part(b: u64) -> int {
    if is_nan_bits(b) {
        0
    } else {
        floor_mag(b)
    }
}

/// The bit pattern of the floored value: unchanged for NaN and for values
/// already whole, zero below one, and otherwise the pattern with the
/// fraction bits below the point cleared.
pub open spec fn floor_bits_spec(b: u64) -> u64 {
    if is_nan_bits(b) {
        b
    } else if biased_exp(b) < 1023 {
        0u64
    } else if biased_exp(b) >= 1075 {
        b
    } else {
        b & !((((1u64 << ((1075 - biased_exp(b)) as u64)) as int) - 1) as u64)
    }
}

/// The canonical non-negative pattern whose value is the integer `t`
/// (unique, since every value has exactly one encoding).
pub open spec fn int_bits_spec(t: int) -> u64 {
    choose|r: u64|
        !sign_bit(r) && !is_nan_bits(r) && scaled_mag(r) == t * (pow2(1074) as int)
}

/// Splits a delay, given as a binary64 bit pattern, into its whole part —
/// as an integer and as the pattern of the floored value — rejecting a
/// negative delay. A NaN delay is not below zero, so it passes, with whole
/// part 0 and a remainder that stays NaN, as the reference arithmetic has it.
/// The bound on the whole part is what a tap buffer of `2·whole + 1` slots
/// forces on this machine.
pub fn split_delay(b: u64) -> (r: Result<(usize, u64), FilterError>)
    requires
        is_nan_bits(b) || lt_zero(b) || (biased_exp(b) < 1075 && 2 * floor_mag(b) + 1
            <= usize::MAX),
    ensures
        lt_zero(b) <==> r is Err,
        r is Err ==> r->Err_0 == FilterError::InvalidParameter,
        r is Ok ==> r->Ok_0.0 == whole_part(b) && r->Ok_0.1 == floor_bits_spec(b),
        r is Ok ==> 2 * r->Ok_0.0 + 1 <= usize::MAX && r->Ok_0.0 < 0x10_0000_0000_0000,
        r is Ok && !is_nan_bits(b) ==> !sign_bit(r->Ok_0.1) && !is_nan_bits(r->Ok_0.1)
            && scaled_mag(r->Ok_0.1) == floor_mag(b) * (pow2(1074) as int),
{
    let e: u64 = (b >> 52) & 0x7FF;
    let frac: u64 = b & 0x000F_FFFF_FFFF_FFFF;
    let negative: bool = (b >> 63) == 1;
    proof {
        assert(e == biased_exp(b));
        assert(frac == frac_field(b));
        assert(negative == sign_bit(b));
    }
    if e == 0x7FF && frac != 0 {
        // NaN: not below zero, whole part 0, remainder NaN.
        Ok((0, b))
    } else if negative && !(e == 0 && frac == 0) {
        proof {
            // a negative non-NaN pattern with a nonzero field has nonzero magnitude
            if biased_exp(b) != 0 {
                vstd::arithmetic::power2::lemma_pow2_pos((biased_exp(b) - 1) as nat);
                assert((0x10_0000_0000_0000 + frac_field(b)) * (pow2(
                    (biased_exp(b) - 1) as nat,
                ) as int) > 0) by (nonlinear_arith)
                    requires
                        pow2((biased_exp(b) - 1) as nat) >= 1,
                        frac_field(b) >= 0,
                ;
            }
            assert(lt_zero(b));
        }
        Err(FilterError::InvalidParameter)
    } else if e < 1023 {
        // magnitude below one (or a zero of either sign): the floor is zero
        proof {
            assert(0u64 >> 63 == 0 && (0u64 >> 52) & 0x7FF == 0 && 0u64 & 0x000F_FFFF_FFFF_FFFF
                == 0) by (bit_vector);
        }
        Ok((0, 0))
    } else {
        proof {
            assert(!lt_zero(b) && !is_nan_bits(b));
            assert(e < 1075);
        }
        let k: u64 = 1075 - e;
        let m_full: u64 = (1u64 << 52u64) | frac;
        let fl: u64 = m_full >> k;
        proof {
            assert(b & 0x000F_FFFF_FFFF_FFFF < 0x10_0000_0000_0000u64) by (bit_vector);
            assert(1u64 << k >= 1) by (bit_vector)
                requires
                    k <= 52u64,
            ;
        }
        let mask: u64 = (1u64 << k) - 1;
        let cleared: u64 = b & !mask;
        proof {
            assert(m_full == 0x10_0000_0000_0000u64 + frac) by (bit_vector)
                requires
                    m_full == (1u64 << 52u64) | frac,
                    frac < 0x10_0000_0000_0000u64,
            ;
            vstd::bits::lemma_u64_shr_is_div(m_full, k);
            vstd::arithmetic::power2::lemma_pow2_pos(k as nat);
            assert(fl == floor_mag(b));
            assert(fl < 0x10_0000_0000_0000u64) by (bit_vector)
                requires
                    fl == m_full >> k,
                    m_full < 0x20_0000_0000_0000u64,
                    1u64 <= k && k <= 52u64,
            ;
            assert(cleared == floor_bits_spec(b));
            assert(2 * floor_mag(b) + 1 <= usize::MAX);
            // the cleared pattern means exactly the floored value: its fields
            // are those of b with the sub-point fraction bits dropped, and its
            // significand is the quotient shifted back up
            assert(cleared >> 63 == b >> 63) by (bit_vector)
                requires
                    mask == vstd::prelude::sub(1u64 << k, 1),
                    cleared == b & !mask,
                    1u64 <= k && k <= 52u64,
            ;
            assert((cleared >> 52) & 0x7FF == (b >> 52) & 0x7FF) by (bit_vector)
                requires
                    mask == vstd::prelude::sub(1u64 << k, 1),
                    cleared == b & !mask,
                    1u64 <= k && k <= 52u64,
            ;
            assert(0x10_0000_0000_0000u64 + (cleared & 0x000F_FFFF_FFFF_FFFF) == (m_full >> k)
                << k) by (bit_vector)
                requires
                    mask == vstd::prelude::sub(1u64 << k, 1),
                    cleared == b & !mask,
                    m_full == (1u64 << 52u64) | (b & 0x000F_FFFF_FFFF_FFFF),
                    1u64 <= k && k <= 52u64,
            ;
            let p = pow2(k as nat) as int;
            vstd::arithmetic::div_mod::lemma_remainder_lower(m_full as int, p);
            vstd::bits::lemma_u64_shl_is_mul(fl, k);
            vstd::arithmetic::power2::lemma_pow2_adds(k as nat, (e - 1) as nat);
            assert(k + (e - 1) == 1074);
            assert(scaled_mag(cleared) == (fl as int * p) * (pow2((e - 1) as nat) as int));
            assert((fl as int * p) * (pow2((e - 1) as nat) as int) == fl as int * (p * (pow2(
                (e - 1) as nat,
            ) as int))) by (nonlinear_arith);
            assert(scaled_mag(cleared) == floor_mag(b) * (pow2(1074) as int));
        }
        Ok((fl as usize, cleared))
    }
}

/// Clears the sign bit: the magnitude and the exponent and fraction fields
/// are untouched, so this is the absolute value of the pattern.
pub fn abs_bits(b: u64) -> (r: u64)
    ensures
        r == abs_bits_spec(b),
        !sign_bit(r),
        biased_exp(r) == biased_exp(b),
        frac_field(r) == frac_field(b),
        scaled_mag(r) == scaled_mag(b),
        is_nan_bits(r) == is_nan_bits(b),
{
    let r: u64 = b & 0x7FFF_FFFF_FFFF_FFFF;
    proof {
        assert((b & 0x7FFF_FFFF_FFFF_FFFF) >> 63 != 1u64) by (bit_vector);
        assert(((b & 0x7FFF_FFFF_FFFF_FFFF) >> 52) & 0x7FF == (b >> 52) & 0x7FF)
            by (bit_vector);
        assert((b & 0x7FFF_FFFF_FFFF_FFFF) & 0x000F_FFFF_FFFF_FFFF == b
            & 0x000F_FFFF_FFFF_FFFF) by (bit_vector);
    }
    r
}

/// The pattern with the sign bit cleared.
pub open spec fn abs_bits_spec(b: u64) -> u64 {
    b & 0x7FFF_FFFF_FFFF_FFFF
}

/// For patterns with the sign bit clear, the bit order is strictly the
/// order of the represented magnitudes: a larger pattern means a larger
/// value (infinities falling in line above all finite values).
proof fn lemma_scaled_mag_strictly_monotone(a: u64, b: u64)
    requires
        !sign_bit(a),
        !sign_bit(b),
        a < b,
    ensures
        scaled_mag(a) < scaled_mag(b),
{
    let ea = biased_exp(a);
    let fa = frac_field(a);
    let eb = biased_exp(b);
    let fb = frac_field(b);
    assert(fa < 0x10_0000_0000_0000 && fb < 0x10_0000_0000_0000) by (bit_vector)
        requires
            fa == a & 0x000F_FFFF_FFFF_FFFF,
            fb == b & 0x000F_FFFF_FFFF_FFFF,
    ;
    // with equal sign bits, the pattern order is the lexicographic order on
    // (exponent field, fraction field)
    assert(ea < eb || (ea == eb && fa < fb)) by (bit_vector)
        requires
            a < b,
            a >> 63 != 1,
            b >> 63 != 1,
            ea == (a >> 52) & 0x7FF,
            fa == a & 0x000F_FFFF_FFFF_FFFF,
            eb == (b >> 52) & 0x7FF,
            fb == b & 0x000F_FFFF_FFFF_FFFF,
    ;
    if ea == eb {
        if ea != 0 {
            let p = pow2((ea - 1) as nat) as int;
            vstd::arithmetic::power2::lemma_pow2_pos((ea - 1) as nat);
            vstd::arithmetic::mul::lemma_mul_strict_inequality(
                0x10_0000_0000_0000 + fa,
                0x10_0000_0000_0000 + fb,
                p,
            );
        }
    } else {
        let mb = 0x10_0000_0000_0000 + fb as int;
        let pb = pow2((eb - 1) as nat) as int;
        vstd::arithmetic::power2::lemma_pow2_pos((eb - 1) as nat);
        if ea == 0 {
            // a subnormal magnitude sits below every normal one
            assert(mb * pb >= 0x10_0000_0000_0000) by (nonlinear_arith)
                requires
                    mb >= 0x10_0000_0000_0000,
                    pb >= 1,
            ;
        } else {
            let ma = 0x10_0000_0000_0000 + fa as int;
            let q = pow2((ea - 1) as nat) as int;
            vstd::arithmetic::power2::lemma_pow2_pos((ea - 1) as nat);
            // the exponent gap gives pow2(eb - 1) >= 2 * pow2(ea - 1)
            vstd::arithmetic::power2::lemma_pow2_adds((ea) as nat, (eb - 1 - ea) as nat);
            vstd::arithmetic::power2::lemma_pow2_adds(1, (ea - 1) as nat);
            vstd::arithmetic::power2::lemma_pow2_pos((eb - 1 - ea) as nat);
            assert(pow2((eb - 1) as nat) >= pow2(ea as nat)) by (nonlinear_arith)
                requires
                    pow2((eb - 1) as nat) == pow2(ea as nat) * pow2((eb - 1 - ea) as nat),
                    pow2((eb - 1 - ea) as nat) >= 1,
                    pow2(ea as nat) >= 1,
            ;
            assert(pow2(1) == 2) by {
                vstd::arithmetic::power2::lemma2_to64();
            }
            assert(ma * q < mb * pb) by (nonlinear_arith)
                requires
                    ma < 0x20_0000_0000_0000,
                    mb >= 0x10_0000_0000_0000,
                    pb >= 2 * q,
                    q >= 1,
                    ma >= 0,
            ;
        }
    }
}

/// Every magnitude has at most one non-negative encoding.
proof fn lemma_scaled_mag_injective(x: u64, y: u64)
    requires
        !sign_bit(x),
        !sign_bit(y),
        scaled_mag(x) == scaled_mag(y),
    ensures
        x == y,
{
    if x < y {
        lemma_scaled_mag_strictly_monotone(x, y);
    } else if y < x {
        lemma_scaled_mag_strictly_monotone(y, x);
    }
}

/// IEEE-754 `<=` for two non-negative patterns, decided by integer
/// comparison alone: false as soon as either pattern is NaN, else the bit
/// order is the value order.
pub fn le_nonneg_bits(a: u64, b: u64) -> (r: bool)
    requires
        !sign_bit(a),
        !sign_bit(b),
    ensures
        r == float_le(a, b),
{
    let ea: u64 = (a >> 52) & 0x7FF;
    let fa: u64 = a & 0x000F_FFFF_FFFF_FFFF;
    let eb: u64 = (b >> 52) & 0x7FF;
    let fb: u64 = b & 0x000F_FFFF_FFFF_FFFF;
    if (ea == 0x7FF && fa != 0) || (eb == 0x7FF && fb != 0) {
        false
    } else {
        proof {
            if a < b {
                lemma_scaled_mag_strictly_monotone(a, b);
            } else if b < a {
                lemma_scaled_mag_strictly_monotone(b, a);
            }
        }
        a <= b
    }
}

/// The canonical non-negative pattern of a whole number below 2^53: zero
/// encodes as zero; anything else normalizes its highest set bit to the
/// implicit one at position 52, the exponent recording the shift. Such
/// numbers are exactly representable, so the pattern means `t` itself.
pub fn uint_to_bits(t: u64) -> (r: u64)
    requires
        t < 0x20_0000_0000_0000,
    ensures
        !sign_bit(r),
        !is_nan_bits(r),
        scaled_mag(r) == t * (pow2(1074) as int),
        r == int_bits_spec(t as int),
{
    let r: u64;
    if t == 0 {
        proof {
            assert(0u64 >> 63 == 0 && (0u64 >> 52) & 0x7FF == 0 && 0u64 & 0x000F_FFFF_FFFF_FFFF
                == 0) by (bit_vector);
        }
        r = 0;
    } else {
        proof {
            vstd::arithmetic::power2::lemma2_to64();
            vstd::arithmetic::power2::lemma2_to64_rest();
        }
        let mut h: u64 = 0;
        while (t >> h) > 1
            invariant
                0 < t < 0x20_0000_0000_0000,
                h <= 52,
                pow2(h as nat) <= t,
            decreases 52 - h,
        {
            proof {
                vstd::bits::lemma_u64_shr_is_div(t, h);
                let p = pow2(h as nat) as int;
                vstd::arithmetic::power2::lemma_pow2_pos(h as nat);
                vstd::arithmetic::div_mod::lemma_remainder_lower(t as int, p);
                vstd::arithmetic::mul::lemma_mul_inequality(2, t as int / p, p);
                vstd::arithmetic::power2::lemma_pow2_adds(1, h as nat);
                vstd::arithmetic::power2::lemma2_to64();
                assert(pow2((h + 1) as nat) <= t);
                if h >= 52 {
                    vstd::arithmetic::power2::lemma2_to64_rest();
                    assert(false);
                }
            }
            h += 1;
        }
        proof {
            // the scan stopped at the highest set bit: pow2(h) <= t < pow2(h + 1)
            vstd::bits::lemma_u64_shr_is_div(t, h);
            let p = pow2(h as nat) as int;
            vstd::arithmetic::power2::lemma_pow2_pos(h as nat);
            vstd::arithmetic::div_mod::lemma_remainder(t as int, p);
            vstd::arithmetic::power2::lemma_pow2_adds(1, h as nat);
            assert(t as int / p >= 1) by {
                if t as int / p < 1 {
                    assert((t as int / p) * p <= 0) by (nonlinear_arith)
                        requires
                            t as int / p <= 0,
                            p > 0,
                    ;
                    assert(t - (t as int / p) * p >= p);
                }
            }
            assert(t as int / p == 1);
            assert(t < pow2((h + 1) as nat)) by {
                vstd::arithmetic::power2::lemma2_to64();
                assert(t - (t as int / p) * p < p);
                assert(t < 2 * p) by (nonlinear_arith)
                    requires
                        t - (t as int / p) * p < p,
                        t as int / p == 1,
                ;
                assert(pow2((h + 1) as nat) == pow2(1) * pow2(h as nat));
            }
        }
        let sh: u64 = 52 - h;
        proof {
            vstd::arithmetic::power2::lemma_pow2_pos(sh as nat);
            vstd::arithmetic::power2::lemma_pow2_adds((h + 1) as nat, sh as nat);
            vstd::arithmetic::power2::lemma_pow2_adds(h as nat, sh as nat);
            vstd::arithmetic::mul::lemma_mul_strict_inequality(
                t as int,
                pow2((h + 1) as nat) as int,
                pow2(sh as nat) as int,
            );
            vstd::arithmetic::mul::lemma_mul_inequality(
                pow2(h as nat) as int,
                t as int,
                pow2(sh as nat) as int,
            );
            vstd::bits::lemma_u64_pow2_no_overflow(sh as nat);
        }
        let m_full: u64 = t << sh;
        proof {
            vstd::bits::lemma_u64_shl_is_mul(t, sh);
            assert(0x10_0000_0000_0000 <= m_full < 0x20_0000_0000_0000);
        }
        let e: u64 = 1023 + h;
        r = (e << 52) | (m_full & 0x000F_FFFF_FFFF_FFFF);
        proof {
            assert(r >> 63 == 0 && (r >> 52) & 0x7FF == e && r & 0x000F_FFFF_FFFF_FFFF == m_full
                & 0x000F_FFFF_FFFF_FFFF && 0x10_0000_0000_0000u64 + (m_full
                & 0x000F_FFFF_FFFF_FFFF) == m_full) by (bit_vector)
                requires
                    r == (e << 52) | (m_full & 0x000F_FFFF_FFFF_FFFF),
                    e == 1023 + h,
                    h <= 52u64,
                    0x10_0000_0000_0000u64 <= m_full && m_full < 0x20_0000_0000_0000u64,
            ;
            // scaled: m_full * pow2(e - 1) == (t * pow2(sh)) * pow2(1022 + h) == t * pow2(1074)
            vstd::arithmetic::power2::lemma_pow2_adds(sh as nat, (1022 + h) as nat);
            assert((t as int * (pow2(sh as nat) as int)) * (pow2((1022 + h) as nat) as int) == t
                as int * ((pow2(sh as nat) as int) * (pow2((1022 + h) as nat) as int)))
                by (nonlinear_arith);
            assert(scaled_mag(r) == t * (pow2(1074) as int));
        }
    }
    proof {
        // the result is the one canonical pattern with this magnitude
        assert(!sign_bit(r) && !is_nan_bits(r) && scaled_mag(r) == (t as int) * (pow2(
            1074,
        ) as int));
        assert(exists|c: u64|
            !sign_bit(c) && !is_nan_bits(c) && scaled_mag(c) == (t as int) * (pow2(1074) as int));
        let c = int_bits_spec(t as int);
        assert(!sign_bit(c) && !is_nan_bits(c) && scaled_mag(c) == (t as int) * (pow2(
            1074,
        ) as int));
        lemma_scaled_mag_injective(r, c);
    }
    r
}

} // verus!
