//! Audio samples as IEEE 754 binary32 bit patterns.
//!
//! The engine's buffers hold samples as raw `u32` bit patterns so that every
//! structural property of the mixing graph can be verified while the
//! floating-point arithmetic itself is delegated, bit pattern in and bit
//! pattern out, to the `rustc_apfloat` software float library.
use rustc_apfloat::Float;
use vstd::prelude::*;

verus! {

/// Bit pattern of binary32 `+0.0`, the silent sample.
pub const SILENCE_BITS: u32 = 0;

/// Bit pattern of binary32 `1.0`, the unit gain.
pub const UNIT_GAIN_BITS: u32 = 0x3F80_0000;

/// The IEEE 754 binary32 sum of two bit patterns, rounding to nearest even.
pub uninterp spec fn sample_add(a: u32, b: u32) -> u32;

/// The IEEE 754 binary32 product of two bit patterns, rounding to nearest even.
pub uninterp spec fn sample_mul(a: u32, b: u32) -> u32;

/// Relies on `rustc_apfloat::ieee::Single`'s `Add` impl (`IeeeFloat::add_r`
/// with round to nearest, ties to even): the IEEE 754 binary32 sum of the two
/// bit patterns, which is a function of the bit patterns alone.
#[verifier::external_body]
pub fn add_samples(a: u32, b: u32) -> (r: u32)
    ensures
        r == sample_add(a, b),
{
    let x = rustc_apfloat::ieee::Single::from_bits(a as u128);
    let y = rustc_apfloat::ieee::Single::from_bits(b as u128);
    (x + y).value.to_bits() as u32
}

/// Relies on `rustc_apfloat::ieee::Single`'s `Mul` impl (`IeeeFloat::mul_r`
/// with round to nearest, ties to even): the IEEE 754 binary32 product of the
/// two bit patterns, which is a function of the bit patterns alone.
#[verifier::external_body]
pub fn mul_samples(a: u32, b: u32) -> (r: u32)
    ensures
        r == sample_mul(a, b),
{
    let x = rustc_apfloat::ieee::Single::from_bits(a as u128);
    let y = rustc_apfloat::ieee::Single::from_bits(b as u128);
    (x * y).value.to_bits() as u32
}

} // verus!
