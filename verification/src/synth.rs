use vstd::prelude::*;

use crate::arith::{div_bits, div_of, mul_bits, mul_of, sub_bits, sub_of};
use crate::bits::{
    abs_bits, abs_bits_spec, biased_exp, float_le, floor_bits_spec, floor_mag, int_bits_spec,
    is_nan_bits, le_nonneg_bits, lt_zero, split_delay, uint_to_bits, whole_part,
};
use crate::errors::FilterError;

verus! {

// The coefficient synthesizer: a pure map from a fractional delay value to
// the ordered weight sequence of a windowed-sinc FIR kernel. The delay
// splits into a whole part (the kernel half-width) and a fractional
// remainder in [0, 1) that shifts the sinc off the center tap by a
// sub-sample amount. A Hamming-family window tapers the kernel's support.
//
// The two transcendental samples each tap needs — a sine for the sinc, a
// cosine for the window — cannot be computed here, so the caller hands them
// in, one pair per tap, and everything else of the derivation is verified:
// which sine is divided by what, where the singularity is patched, and how
// the window combines with the sinc.

/// The bit pattern of pi.
pub const PI_BITS: u64 = 0x400921FB54442D18;

/// The bit pattern of 1.0, the sinc value at its removable singularity.
pub const ONE_BITS: u64 = 0x3FF0000000000000;

/// The bit pattern of 0.54, the window's constant term.
pub const WINDOW_BASE_BITS: u64 = 0x3FE147AE147AE148;

/// The bit pattern of 0.46, the window's cosine swing.
pub const WINDOW_SWING_BITS: u64 = 0x3FDD70A3D70A3D71;

/// The bit pattern of 1e-8, the half-width of the band around the kernel
/// center inside which the 0/0 singularity is replaced by 1.
pub const SINGULARITY_EPS_BITS: u64 = 0x3E45798EE2308C3A;

/// Number of taps the delay pattern synthesizes to: twice the whole part
/// plus one, so always odd and at least 1.
pub open spec fn kernel_len_spec(b: u64) -> int {
    2 * whole_part(b) + 1
}

/// The fractional remainder of the delay: the delay minus its floored value.
pub open spec fn frac_bits_spec(b: u64) -> u64 {
    sub_of(b, floor_bits_spec(b))
}

/// Offset of tap `t` from the kernel's center: `(t - fractional) - center`.
pub open spec fn tap_offset(t: int, frac: u64, center: int) -> u64 {
    sub_of(sub_of(int_bits_spec(t), frac), int_bits_spec(center))
}

/// One kernel weight: the windowed sinc at tap `t`. Within 1e-8 of the
/// center the sinc is 1 (the removable singularity); elsewhere it is the
/// supplied sine over pi times the offset. The window is
/// `0.54 - 0.46 * cos(...)` with the cosine supplied per tap.
pub open spec fn weight_spec(t: int, frac: u64, center: int, sin_t: u64, cos_t: u64) -> u64 {
    let d = tap_offset(t, frac, center);
    let sinc = if float_le(abs_bits_spec(d), SINGULARITY_EPS_BITS) {
        ONE_BITS
    } else {
        div_of(sin_t, mul_of(PI_BITS, d))
    };
    let window = sub_of(WINDOW_BASE_BITS, mul_of(WINDOW_SWING_BITS, cos_t));
    mul_of(window, sinc)
}

/// How many taps — and so how many sine/cosine table entries — the delay
/// calls for; rejects a negative delay.
pub fn kernel_length(delay_bits: u64) -> (r: Result<usize, FilterError>)
    requires
        is_nan_bits(delay_bits) || lt_zero(delay_bits) || (biased_exp(delay_bits) < 1075 && 2
            * floor_mag(delay_bits) + 1 <= usize::MAX),
    ensures
        lt_zero(delay_bits) <==> r is Err,
        r is Err ==> r->Err_0 == FilterError::InvalidParameter,
        r is Ok ==> r->Ok_0 == kernel_len_spec(delay_bits) && r->Ok_0 % 2 == 1 && r->Ok_0 >= 1,
{
    match split_delay(delay_bits) {
        Err(e) => Err(e),
        Ok((whole, _)) => Ok(2 * whole + 1),
    }
}

/// Synthesizes the weight sequence for the delay given as a binary64 bit
/// pattern. Per tap `t` the caller supplies, as bit patterns,
/// `sines[t] = sin(pi * ((t - fractional) - center))` and
/// `cosines[t] = cos(2 * pi * ((t - fractional) + 1/2) / n)`; the kernel
/// derivation itself — the split of the delay, the tap offsets, the
/// singularity patch, the window and the products — is all here. A negative
/// delay is the one rejected input.
pub fn synthesize(delay_bits: u64, sines: &Vec<u64>, cosines: &Vec<u64>) -> (r: Result<
    Vec<u64>,
    FilterError,
>)
    requires
        is_nan_bits(delay_bits) || lt_zero(delay_bits) || (biased_exp(delay_bits) < 1075 && 2
            * floor_mag(delay_bits) + 1 <= usize::MAX),
        !lt_zero(delay_bits) ==> sines@.len() == kernel_len_spec(delay_bits) && cosines@.len()
            == kernel_len_spec(delay_bits),
    ensures
        lt_zero(delay_bits) <==> r is Err,
        r is Err ==> r->Err_0 == FilterError::InvalidParameter,
        r is Ok ==> r->Ok_0@.len() == kernel_len_spec(delay_bits) && 1 <= kernel_len_spec(
            delay_bits,
        ) && (forall|t: int|
            0 <= t < kernel_len_spec(delay_bits) ==> r->Ok_0@[t] == weight_spec(
                t,
                frac_bits_spec(delay_bits),
                whole_part(delay_bits),
                sines@[t],
                cosines@[t],
            )),
{
    let (whole, floor_b) = match split_delay(delay_bits) {
        Err(e) => { return Err(e) },
        Ok(p) => p,
    };
    let fractional = sub_bits(delay_bits, floor_b);
    let n: usize = 2 * whole + 1;
    let center_b = uint_to_bits(whole as u64);
    let mut weights: Vec<u64> = Vec::new();
    let mut t: usize = 0;
    while t < n
        invariant
            t <= n,
            n == kernel_len_spec(delay_bits),
            whole == whole_part(delay_bits),
            whole < 0x10_0000_0000_0000,
            n == 2 * whole + 1,
            fractional == frac_bits_spec(delay_bits),
            center_b == int_bits_spec(whole as int),
            sines@.len() == n,
            cosines@.len() == n,
            weights@.len() == t,
            forall|j: int|
                0 <= j < t ==> weights@[j] == weight_spec(
                    j,
                    frac_bits_spec(delay_bits),
                    whole_part(delay_bits),
                    sines@[j],
                    cosines@[j],
                ),
        decreases n - t,
    {
        let t_b = uint_to_bits(t as u64);
        let d = sub_bits(sub_bits(t_b, fractional), center_b);
        let ad = abs_bits(d);
        proof {
            assert(0x3E45798EE2308C3Au64 >> 63 != 1) by (bit_vector);
        }
        let sinc = if le_nonneg_bits(ad, SINGULARITY_EPS_BITS) {
            ONE_BITS
        } else {
            div_bits(sines[t], mul_bits(PI_BITS, d))
        };
        let window = sub_bits(WINDOW_BASE_BITS, mul_bits(WINDOW_SWING_BITS, cosines[t]));
        let wt = mul_bits(window, sinc);
        proof {
            assert(d == tap_offset(t as int, frac_bits_spec(delay_bits), whole as int));
            assert(wt == weight_spec(
                t as int,
                frac_bits_spec(delay_bits),
                whole_part(delay_bits),
                sines@[t as int],
                cosines@[t as int],
            ));
        }
        weights.push(wt);
        t += 1;
    }
    Ok(weights)
}

} // verus!
