//! Numbers: doubles, held as the 64 bits of their IEEE 754 encoding.
//!
//! The arithmetic is that of `rustc_apfloat`, which works on such bit
//! patterns in software and rounds to nearest, ties to even. Each operation's
//! result is known here only by name: the same operands give the same result.

use vstd::prelude::*;
use rustc_apfloat::ieee::Double;
use rustc_apfloat::Float;
use crate::lexing::{is_decimal_literal, is_digit, splits_as_decimal};
use crate::opcode::OpCode;

verus! {

/// The sum of two doubles, as `rustc_apfloat` computes it.
pub uninterp spec fn sum_of(a: u64, b: u64) -> u64;

/// The difference of two doubles, as `rustc_apfloat` computes it.
pub uninterp spec fn difference_of(a: u64, b: u64) -> u64;

/// The product of two doubles, as `rustc_apfloat` computes it.
pub uninterp spec fn product_of(a: u64, b: u64) -> u64;

/// The quotient of two doubles, as `rustc_apfloat` computes it.
pub uninterp spec fn quotient_of(a: u64, b: u64) -> u64;

/// The remainder of dividing two doubles, as `rustc_apfloat` computes it.
pub uninterp spec fn remainder_of(a: u64, b: u64) -> u64;

/// The double that `rustc_apfloat` reads from a text, if it reads one.
pub uninterp spec fn decimal_value(text: Seq<char>) -> Option<u64>;

/// The sign bit of a double.
pub const SIGN_BIT: u64 = 0x8000_0000_0000_0000;

/// The double with the opposite sign.
pub open spec fn negation_of(a: u64) -> u64 {
    a ^ SIGN_BIT
}

/// What a binary instruction makes of its operands, the left one first.
/// An instruction that is not binary leaves the left operand.
pub open spec fn result_of(op: OpCode, a: u64, b: u64) -> u64 {
    match op {
        OpCode::OpAdd => sum_of(a, b),
        OpCode::OpSub => difference_of(a, b),
        OpCode::OpMult => product_of(a, b),
        OpCode::OpDiv => quotient_of(a, b),
        OpCode::OpMod => remainder_of(a, b),
        _ => a,
    }
}

/// `+` of `rustc_apfloat::ieee::Double` (`Float::add_r`, rounding to
/// nearest, ties to even), on the operands' bits. The status that comes with
/// the result is dropped. Claimed: the result depends on the operands alone.
#[verifier::external_body]
pub(crate) fn plus(a: u64, b: u64) -> (r: u64)
    ensures
        r == sum_of(a, b),
{
    (Double::from_bits(a as u128) + Double::from_bits(b as u128)).value.to_bits() as u64
}

/// `-` of `rustc_apfloat::ieee::Double` (`Float::sub_r`, rounding to
/// nearest, ties to even), on the operands' bits. Claimed: the result
/// depends on the operands alone.
#[verifier::external_body]
pub(crate) fn minus(a: u64, b: u64) -> (r: u64)
    ensures
        r == difference_of(a, b),
{
    (Double::from_bits(a as u128) - Double::from_bits(b as u128)).value.to_bits() as u64
}

/// `*` of `rustc_apfloat::ieee::Double` (`Float::mul_r`, rounding to
/// nearest, ties to even), on the operands' bits. Claimed: the result
/// depends on the operands alone.
#[verifier::external_body]
pub(crate) fn times(a: u64, b: u64) -> (r: u64)
    ensures
        r == product_of(a, b),
{
    (Double::from_bits(a as u128) * Double::from_bits(b as u128)).value.to_bits() as u64
}

/// `/` of `rustc_apfloat::ieee::Double` (`Float::div_r`, rounding to
/// nearest, ties to even), on the operands' bits. A zero divisor gives an
/// infinity or a NaN and no failure. Claimed: the result depends on the
/// operands alone.
#[verifier::external_body]
pub(crate) fn divided(a: u64, b: u64) -> (r: u64)
    ensures
        r == quotient_of(a, b),
{
    (Double::from_bits(a as u128) / Double::from_bits(b as u128)).value.to_bits() as u64
}

/// `%` of `rustc_apfloat::ieee::Double` (`Float::c_fmod`: the remainder
/// has the sign of the dividend), on the operands' bits. A zero divisor
/// gives a NaN and no failure. Claimed: the result depends on the operands
/// alone.
#[verifier::external_body]
pub(crate) fn modulo(a: u64, b: u64) -> (r: u64)
    ensures
        r == remainder_of(a, b),
{
    (Double::from_bits(a as u128) % Double::from_bits(b as u128)).value.to_bits() as u64
}

/// `str::parse` into `rustc_apfloat::ieee::Double` (`Float::from_str_r`,
/// rounding to nearest, ties to even), for a decimal literal of bounded
/// length. Claimed: the result depends on the text alone, and the text is
/// read: the crate refuses only an empty text, a text without digits, a
/// second dot and a character that is neither digit nor dot. Longer texts are
/// left out because the crate counts the digits in `i32` and multiplies
/// their number in `usize`; other texts because nothing here needs them.
#[verifier::external_body]
pub(crate) fn read_decimal(text: &Vec<char>) -> (value: Option<u64>)
    requires
        is_decimal_literal(text@),
        text@.len() <= MAX_LITERAL_LENGTH,
    ensures
        value == decimal_value(text@),
        value is Some,
{
    let text: String = text.iter().collect();
    match text.parse::<Double>() {
        Ok(number) => Some(number.to_bits() as u64),
        Err(_) => None,
    }
}

/// The longest literal that is read, in characters. It keeps the digit
/// counts of `rustc_apfloat` far from the limits of `i32` and, multiplied as
/// they are there, of a `usize` of 32 bits.
pub const MAX_LITERAL_LENGTH: usize = 0x10_0000;

/// The double that a text denotes as a literal: that which `rustc_apfloat`
/// reads from it, where the text is a decimal literal of no more than
/// `MAX_LITERAL_LENGTH` characters; no other text denotes one.
pub open spec fn literal_of(text: Seq<char>) -> Option<u64> {
    if is_decimal_literal(text) && text.len() <= MAX_LITERAL_LENGTH {
        decimal_value(text)
    } else {
        None
    }
}

/// A text splits as a decimal only behind its leading digits.
pub proof fn lemma_decimal_splits_once(text: Seq<char>, whole: int, digits: int)
    requires
        splits_as_decimal(text, whole),
        0 <= digits <= text.len(),
        forall|i: int| 0 <= i < digits ==> is_digit(#[trigger] text[i]),
        digits < text.len() ==> !is_digit(text[digits]),
    ensures
        whole == digits,
{
    if whole < digits {
        assert(is_digit(text[whole]));
    } else if whole > digits {
        assert(is_digit(text[digits]));
    }
}

/// Tells whether a text is a decimal literal: digits, and optionally a dot
/// with more digits behind it.
pub fn is_decimal(text: &Vec<char>) -> (yes: bool)
    ensures
        yes == is_decimal_literal(text@),
{
    let length = text.len();
    let mut whole: usize = 0;
    while whole < length && '0' <= text[whole] && text[whole] <= '9'
        invariant
            whole <= length == text@.len(),
            forall|i: int| 0 <= i < whole ==> is_digit(#[trigger] text@[i]),
        decreases length - whole,
    {
        whole += 1;
    }
    proof {
        assert forall|other: int| splits_as_decimal(text@, other) implies other == whole by {
            lemma_decimal_splits_once(text@, other, whole as int);
        }
    }
    if whole == 0 {
        return false;
    }
    if whole == length {
        proof {
            assert(splits_as_decimal(text@, whole as int));
        }
        return true;
    }
    if text[whole] != '.' || whole + 1 >= length {
        return false;
    }
    let mut index: usize = whole + 1;
    while index < length && '0' <= text[index] && text[index] <= '9'
        invariant
            whole < index <= length == text@.len(),
            forall|i: int| whole < i < index ==> is_digit(#[trigger] text@[i]),
        decreases length - index,
    {
        index += 1;
    }
    if index == length {
        proof {
            assert(splits_as_decimal(text@, whole as int));
        }
        return true;
    }
    proof {
        assert(!is_digit(text@[index as int]));
    }
    false
}

/// Reads a literal: the double that the text denotes, if it denotes one.
pub fn literal_value(text: &Vec<char>) -> (value: Option<u64>)
    ensures
        value == literal_of(text@),
        is_decimal_literal(text@) && text@.len() <= MAX_LITERAL_LENGTH ==> value is Some,
{
    if text.len() > MAX_LITERAL_LENGTH || !is_decimal(text) {
        return None;
    }
    read_decimal(text)
}

/// Flips the sign, as negating a double does.
pub fn negate(a: u64) -> (r: u64)
    ensures
        r == negation_of(a),
{
    a ^ SIGN_BIT
}

/// Applies a binary instruction to its operands, the left one first.
pub fn binary_result(op: OpCode, a: u64, b: u64) -> (r: u64)
    ensures
        r == result_of(op, a, b),
{
    match op {
        OpCode::OpAdd => plus(a, b),
        OpCode::OpSub => minus(a, b),
        OpCode::OpMult => times(a, b),
        OpCode::OpDiv => divided(a, b),
        OpCode::OpMod => modulo(a, b),
        _ => a,
    }
}

} // verus!
