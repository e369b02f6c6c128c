//! Arithmetic on IEEE 754 single-precision values, carried as bit patterns.
//!
//! The evaluator never holds a float directly: every value is the `u32` bit
//! pattern of a single-precision number, and the host converts at the
//! boundary.  The arithmetic primitives are computed by `rustc_apfloat`'s
//! software implementation of IEEE 754 single precision, which works on bit
//! patterns and rounds to nearest even, exactly as hardware floats do.  Each
//! primitive's result is named by an uninterpreted spec function of the
//! operand bits, which is sound because these operations are functions of
//! their operands alone.  Negation and the test against zero have exact
//! bit-level definitions (IEEE 754 negation flips the sign bit and nothing
//! else; only the two signed zeros compare equal to zero), so they are
//! implemented and verified directly.

use rustc_apfloat::Float;
use rustc_apfloat::ieee::Single;
use vstd::prelude::*;

verus! {

/// Bit pattern of `1.0`, used to form the reciprocal for root operations.
pub const F32_ONE: u32 = 0x3F80_0000;

/// Bit pattern of the single-precision value closest to pi.
pub const F32_PI: u32 = 0x4049_0FDB;

/// Bit pattern of the single-precision value closest to Euler's number.
pub const F32_E: u32 = 0x402D_F854;

pub uninterp spec fn f32_add(a: u32, b: u32) -> u32;

pub uninterp spec fn f32_sub(a: u32, b: u32) -> u32;

pub uninterp spec fn f32_mul(a: u32, b: u32) -> u32;

pub uninterp spec fn f32_div(a: u32, b: u32) -> u32;

pub uninterp spec fn f32_rem(a: u32, b: u32) -> u32;

pub uninterp spec fn f32_parse(text: Seq<char>) -> u32;

/// True of the bit patterns that compare equal to zero: `0.0` and `-0.0`.
pub open spec fn spec_is_zero(bits: u32) -> bool {
    bits == 0x0000_0000u32 || bits == 0x8000_0000u32
}

/// Decides `value == 0.0` on the bit level: an IEEE 754 comparison treats
/// exactly the two signed zeros as equal to zero.
pub fn is_zero(bits: u32) -> (r: bool)
    ensures
        r == spec_is_zero(bits),
{
    bits == 0x0000_0000u32 || bits == 0x8000_0000u32
}

/// IEEE 754 negation: the sign bit flips and nothing else changes.
pub open spec fn spec_neg(bits: u32) -> u32 {
    bits ^ 0x8000_0000u32
}

/// Negates a value by flipping its sign bit, which is exactly what float
/// negation does.
pub fn neg_bits(bits: u32) -> (r: u32)
    ensures
        r == spec_neg(bits),
{
    bits ^ 0x8000_0000u32
}

/// Negating twice gives back the original value.
pub proof fn lemma_neg_involutive(bits: u32)
    ensures
        spec_neg(spec_neg(bits)) == bits,
{
    assert(bits ^ 0x8000_0000u32 ^ 0x8000_0000u32 == bits) by (bit_vector);
}

/// The shape of every number token the lexer produces: a digit first, then
/// digits with at most one decimal point.
pub open spec fn spec_decimal_text(text: Seq<char>) -> bool {
    &&& text.len() > 0
    &&& '0' <= text[0] <= '9'
    &&& forall|i: int| 0 <= i < text.len() ==> ('0' <= #[trigger] text[i] <= '9' || text[i] == '.')
    &&& forall|i: int, j: int|
        0 <= i < j < text.len() && #[trigger] text[i] == '.' ==> #[trigger] text[j] != '.'
}

/// True of a number text whose digits are all zero, which therefore
/// denotes the value zero.
pub open spec fn spec_zero_text(text: Seq<char>) -> bool {
    forall|i: int| 0 <= i < text.len() ==> (#[trigger] text[i] == '0' || text[i] == '.')
}

/// Relies on `rustc_apfloat::ieee::Single`'s `FromStr`: correctly rounded
/// decimal-to-binary conversion, a function of the text alone.  Its decimal
/// grammar accepts digits with an optional decimal point, so it accepts
/// every text of that shape; a text with no nonzero digit converts to
/// zero exactly.
#[verifier::external_body]
pub fn parse_number(s: &str) -> (r: Option<u32>)
    ensures
        r matches Some(bits) ==> bits == f32_parse(s@),
        spec_decimal_text(s@) ==> r is Some,
        spec_zero_text(s@) && r is Some ==> spec_is_zero(r.unwrap()),
{
    match s.parse::<Single>() {
        Ok(value) => Some(value.to_bits() as u32),
        Err(_) => None,
    }
}

/// Relies on `rustc_apfloat::ieee::Single` addition (`add_r`, round to
/// nearest even): IEEE 754 single-precision addition of the operand bits.
#[verifier::external_body]
pub fn add_bits(a: u32, b: u32) -> (r: u32)
    ensures
        r == f32_add(a, b),
{
    let x = Single::from_bits(a as u128);
    let y = Single::from_bits(b as u128);
    (x + y).value.to_bits() as u32
}

/// Relies on `rustc_apfloat::ieee::Single` subtraction (`sub_r`, round to
/// nearest even): IEEE 754 single-precision subtraction of the operand bits.
#[verifier::external_body]
pub fn sub_bits(a: u32, b: u32) -> (r: u32)
    ensures
        r == f32_sub(a, b),
{
    let x = Single::from_bits(a as u128);
    let y = Single::from_bits(b as u128);
    (x - y).value.to_bits() as u32
}

/// Relies on `rustc_apfloat::ieee::Single` multiplication (`mul_r`, round to
/// nearest even): IEEE 754 single-precision multiplication of the operand
/// bits.
#[verifier::external_body]
pub fn mul_bits(a: u32, b: u32) -> (r: u32)
    ensures
        r == f32_mul(a, b),
{
    let x = Single::from_bits(a as u128);
    let y = Single::from_bits(b as u128);
    (x * y).value.to_bits() as u32
}

/// Relies on `rustc_apfloat::ieee::Single` division (`div_r`, round to
/// nearest even): IEEE 754 single-precision division of the operand bits.
/// The evaluator rejects a zero divisor before calling this.
#[verifier::external_body]
pub fn div_bits(a: u32, b: u32) -> (r: u32)
    ensures
        r == f32_div(a, b),
{
    let x = Single::from_bits(a as u128);
    let y = Single::from_bits(b as u128);
    (x / y).value.to_bits() as u32
}

/// Relies on `rustc_apfloat::ieee::Single` remainder (`c_fmod`): the IEEE
/// 754 single-precision remainder with the sign of the dividend, the same
/// operation as `%` on hardware floats.  The evaluator rejects a zero
/// divisor before calling this.
#[verifier::external_body]
pub fn rem_bits(a: u32, b: u32) -> (r: u32)
    ensures
        r == f32_rem(a, b),
{
    let x = Single::from_bits(a as u128);
    let y = Single::from_bits(b as u128);
    (x % y).value.to_bits() as u32
}

} // verus!
