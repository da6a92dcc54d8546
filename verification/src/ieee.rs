//! The IEEE 754 operations the sampler needs, on bit patterns.
//!
//! A `u64` holds a binary64 (double) bit pattern, a `u32` a binary32
//! (single) one. Each operation is carried out by `rustc_apfloat`, a
//! software implementation of IEEE 754 arithmetic that rounds to nearest,
//! ties to even. Each result is a pure function of the argument bit
//! patterns, named by one uninterpreted spec function per operation; the
//! contracts of the library are stated over these names.

use rustc_apfloat::Float;
use rustc_apfloat::FloatConvert;
use vstd::prelude::*;

verus! {

/// The bit pattern of the binary64 sum of two binary64 bit patterns.
pub uninterp spec fn dbl_add(a: u64, b: u64) -> u64;

/// The bit pattern of the binary64 difference `a - b` of two binary64 bit
/// patterns.
pub uninterp spec fn dbl_sub(a: u64, b: u64) -> u64;

/// The bit pattern of the binary64 product of two binary64 bit patterns.
pub uninterp spec fn dbl_mul(a: u64, b: u64) -> u64;

/// The bit pattern of the binary64 value nearest to the integer `i`.
pub uninterp spec fn dbl_of_int(i: i64) -> u64;

/// The binary32 bit pattern nearest to the binary64 bit pattern `a`.
pub uninterp spec fn sgl_of_dbl(a: u64) -> u32;

/// The bit pattern of the binary32 sum of two binary32 bit patterns.
pub uninterp spec fn sgl_add(a: u32, b: u32) -> u32;

/// Relies on `rustc_apfloat::ieee::Double`'s `Add`: IEEE 754 binary64
/// addition, rounding to nearest, ties to even.
#[verifier::external_body]
pub(crate) fn add_double(a: u64, b: u64) -> (r: u64)
    ensures
        r == dbl_add(a, b),
{
    let x = rustc_apfloat::ieee::Double::from_bits(a as u128);
    let y = rustc_apfloat::ieee::Double::from_bits(b as u128);
    (x + y).value.to_bits() as u64
}

/// Relies on `rustc_apfloat::ieee::Double`'s `Sub`: IEEE 754 binary64
/// subtraction, rounding to nearest, ties to even.
#[verifier::external_body]
pub(crate) fn sub_double(a: u64, b: u64) -> (r: u64)
    ensures
        r == dbl_sub(a, b),
{
    let x = rustc_apfloat::ieee::Double::from_bits(a as u128);
    let y = rustc_apfloat::ieee::Double::from_bits(b as u128);
    (x - y).value.to_bits() as u64
}

/// Relies on `rustc_apfloat::ieee::Double`'s `Mul`: IEEE 754 binary64
/// multiplication, rounding to nearest, ties to even.
#[verifier::external_body]
pub(crate) fn mul_double(a: u64, b: u64) -> (r: u64)
    ensures
        r == dbl_mul(a, b),
{
    let x = rustc_apfloat::ieee::Double::from_bits(a as u128);
    let y = rustc_apfloat::ieee::Double::from_bits(b as u128);
    (x * y).value.to_bits() as u64
}

/// Relies on `rustc_apfloat::Float::from_i128`: the binary64 value nearest
/// to a signed integer, rounding to nearest, ties to even.
#[verifier::external_body]
pub(crate) fn double_of_i64(i: i64) -> (r: u64)
    ensures
        r == dbl_of_int(i),
{
    rustc_apfloat::ieee::Double::from_i128(i as i128).value.to_bits() as u64
}

/// Relies on `rustc_apfloat::FloatConvert::convert`: conversion of a
/// binary64 value to the nearest binary32 value, rounding to nearest,
/// ties to even.
#[verifier::external_body]
pub(crate) fn single_of_double(a: u64) -> (r: u32)
    ensures
        r == sgl_of_dbl(a),
{
    let x = rustc_apfloat::ieee::Double::from_bits(a as u128);
    let mut loses_info = false;
    let y: rustc_apfloat::StatusAnd<rustc_apfloat::ieee::Single> = x.convert(&mut loses_info);
    y.value.to_bits() as u32
}

/// Relies on `rustc_apfloat::ieee::Single`'s `Add`: IEEE 754 binary32
/// addition, rounding to nearest, ties to even.
#[verifier::external_body]
pub(crate) fn add_single(a: u32, b: u32) -> (r: u32)
    ensures
        r == sgl_add(a, b),
{
    let x = rustc_apfloat::ieee::Single::from_bits(a as u128);
    let y = rustc_apfloat::ieee::Single::from_bits(b as u128);
    (x + y).value.to_bits() as u32
}

} // verus!
