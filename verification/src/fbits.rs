//! Double- and single-precision values carried as their IEEE 754 bit
//! patterns, so that the weight arithmetic of the networks can be done
//! and reasoned about without native floating point.
//!
//! Classification and comparison of such values is plain bit
//! arithmetic and is written out here; the rounding arithmetic itself
//! is delegated to the `rustc_apfloat` software implementation of
//! IEEE 754, behind trusted wrappers.

use vstd::prelude::*;

use rustc_apfloat::Float;
use rustc_apfloat::FloatConvert;
use rustc_apfloat::Round;
use rustc_apfloat::ieee::Double;
use rustc_apfloat::ieee::Single;

use crate::rng::RandGen;

verus! {

/// Bit pattern of the double-precision value 1.0.
pub const F64_ONE_BITS: u64 = 0x3FF0_0000_0000_0000;

/// Bit pattern of the double-precision value 2^52.
pub const F64_TWO_POW_52_BITS: u64 = 0x4330_0000_0000_0000;

/// Bit pattern of the single-precision value 1.0.
pub const F32_ONE_BITS: u32 = 0x3F80_0000;

/// Bit pattern of the single-precision value 0.1.
pub const F32_TENTH_BITS: u32 = 0x3DCC_CCCD;

/// Bit pattern of the single-precision value 100.0.
pub const F32_HUNDRED_BITS: u32 = 0x42C8_0000;

/// Bit pattern of the single-precision value +infinity.
pub const F32_INF_BITS: u32 = 0x7F80_0000;

/// Magnitude (sign cleared) of a double-precision bit pattern.
pub open spec fn f64_mag(w: u64) -> u64 {
    w & 0x7FFF_FFFF_FFFF_FFFF
}

/// The double behind `w` lies in the closed interval [-1.0, 1.0].
///
/// For IEEE 754 values of one sign, numeric order agrees with the
/// integer order of the magnitude bits, and every NaN or infinity has
/// magnitude bits above those of 1.0, so the bound also rules both
/// out.
pub open spec fn weight_in_range(w: u64) -> bool {
    f64_mag(w) <= F64_ONE_BITS
}

/// Magnitude (sign cleared) of a single-precision bit pattern.
pub open spec fn f32_mag(w: u32) -> u32 {
    w & 0x7FFF_FFFF
}

/// Sign bit of a single-precision bit pattern.
pub open spec fn f32_sign(w: u32) -> u32 {
    w >> 31
}

/// The single behind `w` is a NaN: exponent all ones, fraction not
/// zero, i.e. magnitude bits strictly above those of infinity.
pub open spec fn f32_is_nan(w: u32) -> bool {
    f32_mag(w) > F32_INF_BITS
}

/// The single behind `w` is finite: magnitude bits strictly below
/// those of infinity.
pub open spec fn f32_is_finite(w: u32) -> bool {
    f32_mag(w) < F32_INF_BITS
}

/// IEEE 754 `<` on single-precision bit patterns: false whenever
/// either side is NaN; the two zeros are equal; otherwise a negative
/// is below a positive, positives order as their magnitude bits, and
/// negatives order as the reverse of theirs.
pub open spec fn f32_lt(a: u32, b: u32) -> bool {
    &&& !f32_is_nan(a)
    &&& !f32_is_nan(b)
    &&& if f32_sign(a) != f32_sign(b) {
            f32_sign(a) == 1 && !(f32_mag(a) == 0 && f32_mag(b) == 0)
        } else if f32_sign(a) == 0 {
            f32_mag(a) < f32_mag(b)
        } else {
            f32_mag(a) > f32_mag(b)
        }
}

/// Executable mirror of `f32_lt`.
pub fn f32_lt_bits(a: u32, b: u32) -> (r: bool)
    ensures
        r == f32_lt(a, b),
{
    let ma: u32 = a & 0x7FFF_FFFF;
    let mb: u32 = b & 0x7FFF_FFFF;
    if ma > 0x7F80_0000 || mb > 0x7F80_0000 {
        false
    } else if (a >> 31) != (b >> 31) {
        (a >> 31) == 1 && !(ma == 0 && mb == 0)
    } else if (a >> 31) == 0 {
        ma < mb
    } else {
        ma > mb
    }
}

/// Executable mirror of `f32_is_finite`.
pub fn f32_is_finite_bits(w: u32) -> (r: bool)
    ensures
        r == f32_is_finite(w),
{
    (w & 0x7FFF_FFFF) < 0x7F80_0000
}

/// Executable mirror of `weight_in_range`.
pub fn weight_in_range_bits(w: u64) -> (r: bool)
    ensures
        r == weight_in_range(w),
{
    (w & 0x7FFF_FFFF_FFFF_FFFF) <= F64_ONE_BITS
}

/// The double-precision sum of the two operands, rounded to nearest.
pub uninterp spec fn add64_bits(a: u64, b: u64) -> u64;

/// The double-precision product of the two operands, rounded to nearest.
pub uninterp spec fn mul64_bits(a: u64, b: u64) -> u64;

/// The double built exactly from the integer, rounded to nearest.
pub uninterp spec fn from_i64_bits(m: i64) -> u64;

/// The double scaled by the given power of two, rounded to nearest.
pub uninterp spec fn scalbn64_bits(x: u64, e: i32) -> u64;

/// The single-precision quotient of the two operands, rounded to nearest.
pub uninterp spec fn div32_bits(a: u32, b: u32) -> u32;

/// The single-precision product of the two operands, rounded to nearest.
pub uninterp spec fn mul32_bits(a: u32, b: u32) -> u32;

/// The single built from the integer, rounded to nearest.
pub uninterp spec fn f32_of_u64(x: u64) -> u32;

/// The single scaled by the given power of two, rounded to nearest.
pub uninterp spec fn scalbn32_bits(x: u32, e: i32) -> u32;

/// The single truncated toward zero to a 32-bit unsigned integer;
/// NaN, negative values and overflows saturate as IEEE 754 directs.
pub uninterp spec fn trunc32_bits(x: u32) -> u32;

/// The single widened to a double; the widening is exact.
pub uninterp spec fn widen32_bits(x: u32) -> u64;

/// Relies on `rustc_apfloat::ieee::Double::add_r` with rounding to
/// nearest, ties to even: the IEEE 754 sum of the operands, a
/// function of the two bit patterns alone.
#[verifier::external_body]
pub(crate) fn apf64_add(a: u64, b: u64) -> (r: u64)
    ensures
        r == add64_bits(a, b),
{
    let x = Double::from_bits(a as u128);
    let y = Double::from_bits(b as u128);
    x.add_r(y, Round::NearestTiesToEven).value.to_bits() as u64
}

/// Relies on `rustc_apfloat::ieee::Double::mul_r` with rounding to
/// nearest, ties to even: the IEEE 754 product of the operands, a
/// function of the two bit patterns alone.
#[verifier::external_body]
pub(crate) fn apf64_mul(a: u64, b: u64) -> (r: u64)
    ensures
        r == mul64_bits(a, b),
{
    let x = Double::from_bits(a as u128);
    let y = Double::from_bits(b as u128);
    x.mul_r(y, Round::NearestTiesToEven).value.to_bits() as u64
}

/// Relies on `rustc_apfloat::ieee::Double::from_i128`: the double
/// nearest the integer. An integer of magnitude at most 2^52 is
/// represented exactly, so the result's magnitude bits stay at or
/// below those of 2^52.
#[verifier::external_body]
pub(crate) fn apf64_from_i64(m: i64) -> (r: u64)
    ensures
        r == from_i64_bits(m),
        -0x10_0000_0000_0000 <= m <= 0x10_0000_0000_0000 ==> f64_mag(r) <= F64_TWO_POW_52_BITS,
{
    Double::from_i128(m as i128).value.to_bits() as u64
}

/// Relies on `rustc_apfloat::ieee::Double::scalbn`: the double scaled
/// by 2^e. Scaling is monotone and maps 2^52 to 1.0 when `e == -52`,
/// so a magnitude at or below 2^52 lands at or below 1.0.
#[verifier::external_body]
pub(crate) fn apf64_scalbn(x: u64, e: i32) -> (r: u64)
    ensures
        r == scalbn64_bits(x, e),
        e == -52 && f64_mag(x) <= F64_TWO_POW_52_BITS ==> f64_mag(r) <= F64_ONE_BITS,
{
    Double::from_bits(x as u128).scalbn(e).to_bits() as u64
}

/// Relies on `rustc_apfloat::ieee::Single::div_r` with rounding to
/// nearest, ties to even: the IEEE 754 quotient of the operands, a
/// function of the two bit patterns alone.
#[verifier::external_body]
pub(crate) fn apf32_div(a: u32, b: u32) -> (r: u32)
    ensures
        r == div32_bits(a, b),
{
    let x = Single::from_bits(a as u128);
    let y = Single::from_bits(b as u128);
    x.div_r(y, Round::NearestTiesToEven).value.to_bits() as u32
}

/// Relies on `rustc_apfloat::ieee::Single::mul_r` with rounding to
/// nearest, ties to even: the IEEE 754 product of the operands, a
/// function of the two bit patterns alone.
#[verifier::external_body]
pub(crate) fn apf32_mul(a: u32, b: u32) -> (r: u32)
    ensures
        r == mul32_bits(a, b),
{
    let x = Single::from_bits(a as u128);
    let y = Single::from_bits(b as u128);
    x.mul_r(y, Round::NearestTiesToEven).value.to_bits() as u32
}

/// Relies on `rustc_apfloat::ieee::Single::from_u128`: the single
/// nearest the unsigned integer.
#[verifier::external_body]
pub(crate) fn apf32_from_u64(x: u64) -> (r: u32)
    ensures
        r == f32_of_u64(x),
{
    Single::from_u128(x as u128).value.to_bits() as u32
}

/// Relies on `rustc_apfloat::ieee::Single::scalbn`: the single scaled
/// by 2^e.
#[verifier::external_body]
pub(crate) fn apf32_scalbn(x: u32, e: i32) -> (r: u32)
    ensures
        r == scalbn32_bits(x, e),
{
    Single::from_bits(x as u128).scalbn(e).to_bits() as u32
}

/// Relies on `rustc_apfloat::ieee::Single::to_u128_r` with width 32
/// and rounding toward zero: truncation to an unsigned 32-bit
/// integer; NaN and negative values give 0 and values too large give
/// the largest 32-bit integer.
#[verifier::external_body]
pub(crate) fn apf32_trunc(x: u32) -> (r: u32)
    ensures
        r == trunc32_bits(x),
{
    let mut exact = false;
    Single::from_bits(x as u128).to_u128_r(32, Round::TowardZero, &mut exact).value as u32
}

/// Relies on `rustc_apfloat::FloatConvert::convert` from single to
/// double precision: the widening conversion, which is exact.
#[verifier::external_body]
pub(crate) fn apf32_widen(x: u32) -> (r: u64)
    ensures
        r == widen32_bits(x),
{
    let mut loses_info = false;
    let d: Double = Single::from_bits(x as u128).convert(&mut loses_info).value;
    d.to_bits() as u64
}

/// A fresh weight: uniform over the 2^53-point grid of spacing 2^-52
/// that spans [-1.0, 1.0), the same grid a uniform double draw over
/// that interval ranges over.
pub(crate) fn sample_unit_weight(rng: &mut RandGen) -> (r: u64)
    ensures
        weight_in_range(r),
{
    let k: u64 = rng.gen_u64_below(0x20_0000_0000_0000);
    let m: i64 = (k as i64) - 0x10_0000_0000_0000;
    let f: u64 = apf64_from_i64(m);
    apf64_scalbn(f, -52)
}

} // verus!
