use vstd::prelude::*;
use rustc_apfloat::ieee::Double;
use rustc_apfloat::{Float, Status};

verus! {

/// A 64-bit IEEE-754 value carried as its raw bit pattern. The crate never
/// computes with native floating point; everything it needs to know about a
/// value of this type is phrased over the bits, and the arithmetic itself is
/// delegated to a software implementation of the format.
#[derive(Clone, Copy, PartialEq, Eq, Structural, Debug)]
pub struct FloatBits {
    pub bits: u64,
}

impl FloatBits {
    pub fn new(bits: u64) -> (r: FloatBits)
        ensures
            r.bits == bits,
    {
        FloatBits { bits }
    }
}

/// The exponent field of a 64-bit IEEE-754 value is all ones and the
/// fraction field is not zero: the bits denote a NaN.
pub open spec fn spec_is_nan_bits(b: u64) -> bool {
    b & 0x7ff0_0000_0000_0000 == 0x7ff0_0000_0000_0000 && b & 0x000f_ffff_ffff_ffff != 0
}

pub fn is_nan_bits(b: u64) -> (r: bool)
    ensures
        r == spec_is_nan_bits(b),
{
    b & 0x7ff0_0000_0000_0000 == 0x7ff0_0000_0000_0000 && b & 0x000f_ffff_ffff_ffff != 0
}

pub uninterp spec fn float_add_bits(a: u64, b: u64) -> u64;

pub uninterp spec fn float_sub_bits(a: u64, b: u64) -> u64;

pub uninterp spec fn float_rem_bits(a: u64, b: u64) -> u64;

pub uninterp spec fn float_of_int_bits(i: i128) -> u64;

pub uninterp spec fn float_to_int_bits(b: u64) -> Option<i128>;

pub uninterp spec fn float_of_str_bits(s: Seq<char>) -> Option<u64>;

pub uninterp spec fn float_str_bits(b: u64) -> Seq<char>;

/// Relies on rustc_apfloat's `add_r` (round to nearest, ties to even): the
/// IEEE-754 sum of the two values, a function of the bits alone.
#[verifier::external_body]
pub(crate) fn apf_add(a: u64, b: u64) -> (r: u64)
    ensures
        r == float_add_bits(a, b),
{
    (Double::from_bits(a as u128) + Double::from_bits(b as u128)).value.to_bits() as u64
}

/// Relies on rustc_apfloat's `sub_r` (round to nearest, ties to even): the
/// IEEE-754 difference of the two values, a function of the bits alone.
#[verifier::external_body]
pub(crate) fn apf_sub(a: u64, b: u64) -> (r: u64)
    ensures
        r == float_sub_bits(a, b),
{
    (Double::from_bits(a as u128) - Double::from_bits(b as u128)).value.to_bits() as u64
}

/// Relies on rustc_apfloat's `c_fmod`: the C `fmod` remainder of the two
/// values, a function of the bits alone.
#[verifier::external_body]
pub(crate) fn apf_rem(a: u64, b: u64) -> (r: u64)
    ensures
        r == float_rem_bits(a, b),
{
    (Double::from_bits(a as u128) % Double::from_bits(b as u128)).value.to_bits() as u64
}

/// Relies on rustc_apfloat's `from_i128` (round to nearest, ties to even):
/// the closest IEEE-754 double to the given integer.
#[verifier::external_body]
pub(crate) fn apf_of_int(i: i128) -> (r: u64)
    ensures
        r == float_of_int_bits(i),
{
    Double::from_i128(i).value.to_bits() as u64
}

/// Relies on rustc_apfloat's `to_i128` (round toward zero): the truncated
/// integer value, or nothing when the value is a NaN or out of range, which
/// `to_i128` reports through `Status::INVALID_OP`.
#[verifier::external_body]
pub(crate) fn apf_to_int(b: u64) -> (r: Option<i128>)
    ensures
        r == float_to_int_bits(b),
{
    let out = Double::from_bits(b as u128).to_i128(128);
    if out.status.intersects(Status::INVALID_OP) { None } else { Some(out.value) }
}

/// Relies on rustc_apfloat's `from_str_r` (round to nearest, ties to even):
/// the IEEE-754 double denoted by the decimal text, or nothing when the text
/// is not a number.
#[verifier::external_body]
pub(crate) fn apf_of_str(s: &str) -> (r: Option<u64>)
    ensures
        r == float_of_str_bits(s@),
{
    match s.parse::<Double>() {
        Ok(d) => Some(d.to_bits() as u64),
        Err(_) => None,
    }
}

/// Relies on rustc_apfloat's `Display`: a decimal rendering of the value,
/// a function of the bits alone. The rendering comes from the software
/// implementation and can differ in shape from the platform's own float
/// formatting (exponent style, trailing digits), while still denoting the
/// same value and parsing back to the same bits.
#[verifier::external_body]
pub(crate) fn apf_str(b: u64) -> (r: String)
    ensures
        r@ == float_str_bits(b),
{
    format!("{}", Double::from_bits(b as u128))
}

} // verus!
