use vstd::prelude::*;

use crate::values::value_variant::{apply_compound, CompoundOp, JSValueVariant, ValueModel};

use rustc_apfloat::ieee::Double;
use rustc_apfloat::{Float, Round};

verus! {

// Names for what the IEEE-754 binary64 routines of rustc_apfloat return.
// Every routine below is a pure function of the bit patterns it is given,
// so each result carries a name that the callers' contracts build on.
pub uninterp spec fn float_add(a: u64, b: u64) -> u64;

pub uninterp spec fn float_sub(a: u64, b: u64) -> u64;

pub uninterp spec fn float_mul(a: u64, b: u64) -> u64;

pub uninterp spec fn float_div(a: u64, b: u64) -> u64;

/// The binary64 value nearest to the unsigned integer `n`, as bits.
pub uninterp spec fn float_of_int(n: u64) -> u64;

/// What parsing decimal literal text yields: the bits of the nearest
/// binary64 value, or `None` where the text is not a numeric literal.
pub uninterp spec fn float_parse(s: Seq<char>) -> Option<u64>;

/// The decimal textual form of the binary64 value with the given bits.
pub uninterp spec fn float_text(bits: u64) -> Seq<char>;

pub open spec fn is_digit(c: char) -> bool {
    48 <= c as u32 && c as u32 <= 57
}

pub open spec fn all_digits(s: Seq<char>) -> bool {
    forall|i: int| 0 <= i < s.len() ==> is_digit(#[trigger] s[i])
}

/// Digits with at most one dot after the first digit: `d+` or `d+ . d*`.
pub open spec fn is_mantissa(s: Seq<char>) -> bool {
    ||| (s.len() > 0 && all_digits(s))
    ||| (exists|k: int|
        0 < k < s.len() && #[trigger] s[k] == '.' && all_digits(s.subrange(0, k)) && all_digits(
            s.subrange(k + 1, s.len() as int),
        ))
}

/// `e` or `E`, an optional sign, then at least one digit.
pub open spec fn is_exponent(s: Seq<char>) -> bool {
    s.len() >= 2 && (s[0] == 'e' || s[0] == 'E') && {
        let t = if s[1] == '+' || s[1] == '-' {
            s.subrange(2, s.len() as int)
        } else {
            s.subrange(1, s.len() as int)
        };
        t.len() > 0 && all_digits(t)
    }
}

/// The texts the lexer recognises as numeric literals:
/// `d+ ( . d* )? ( (e|E) (+|-)? d+ )?`.
pub open spec fn is_numeric_literal(s: Seq<char>) -> bool {
    ||| is_mantissa(s)
    ||| (exists|k: int|
        0 < k < s.len() && is_mantissa(#[trigger] s.subrange(0, k)) && is_exponent(
            s.subrange(k, s.len() as int),
        ))
}

/// Relies on rustc_apfloat's `Double::add_r` (round to nearest, ties to
/// even): IEEE-754 binary64 addition on the given bit patterns.
#[verifier::external_body]
pub(crate) fn num_add(a: u64, b: u64) -> (r: u64)
    ensures
        r == float_add(a, b),
{
    let x = Double::from_bits(a as u128);
    let y = Double::from_bits(b as u128);
    x.add_r(y, Round::NearestTiesToEven).value.to_bits() as u64
}

/// Relies on rustc_apfloat's `Double::sub_r` (round to nearest, ties to
/// even): IEEE-754 binary64 subtraction on the given bit patterns.
#[verifier::external_body]
pub(crate) fn num_sub(a: u64, b: u64) -> (r: u64)
    ensures
        r == float_sub(a, b),
{
    let x = Double::from_bits(a as u128);
    let y = Double::from_bits(b as u128);
    x.sub_r(y, Round::NearestTiesToEven).value.to_bits() as u64
}

/// Relies on rustc_apfloat's `Double::mul_r` (round to nearest, ties to
/// even): IEEE-754 binary64 multiplication on the given bit patterns.
#[verifier::external_body]
pub(crate) fn num_mul(a: u64, b: u64) -> (r: u64)
    ensures
        r == float_mul(a, b),
{
    let x = Double::from_bits(a as u128);
    let y = Double::from_bits(b as u128);
    x.mul_r(y, Round::NearestTiesToEven).value.to_bits() as u64
}

/// Relies on rustc_apfloat's `Double::div_r` (round to nearest, ties to
/// even): IEEE-754 binary64 division on the given bit patterns.
#[verifier::external_body]
pub(crate) fn num_div(a: u64, b: u64) -> (r: u64)
    ensures
        r == float_div(a, b),
{
    let x = Double::from_bits(a as u128);
    let y = Double::from_bits(b as u128);
    x.div_r(y, Round::NearestTiesToEven).value.to_bits() as u64
}

/// Relies on rustc_apfloat's `Double::from_u128` (round to nearest, ties to
/// even): the binary64 value nearest to the given unsigned integer.
#[verifier::external_body]
pub(crate) fn num_from_u64(n: u64) -> (r: u64)
    ensures
        r == float_of_int(n),
{
    Double::from_u128(n as u128).value.to_bits() as u64
}

/// Relies on rustc_apfloat's `Double::from_str_r`, whose decimal form
/// accepts exactly: an optional sign, digits with at most one dot, and an
/// optional `e`/`E` exponent with an optional sign and at least one digit.
/// Every text of `is_numeric_literal` is of that shape, so it parses.
#[verifier::external_body]
pub(crate) fn num_parse(s: &str) -> (r: Option<u64>)
    ensures
        r == float_parse(s@),
        is_numeric_literal(s@) ==> r is Some,
{
    match Double::from_str_r(s, Round::NearestTiesToEven) {
        Ok(x) => Some(x.value.to_bits() as u64),
        Err(_) => None,
    }
}

/// Relies on rustc_apfloat's `Display` for `Double`: the decimal textual
/// form of the value, a function of the bit pattern alone.
#[verifier::external_body]
pub(crate) fn num_text(bits: u64) -> (r: String)
    ensures
        r@ == float_text(bits),
{
    Double::from_bits(bits as u128).to_string()
}

/// A runtime number: a binary64 value carried as its bit pattern.
#[derive(Debug, Clone, Copy, PartialEq, Eq)]
pub struct JSNumber {
    pub bits: u64,
}

impl JSNumber {
    /// The bit pattern of the carried binary64 value.
    pub fn number_value(&self) -> (r: u64)
        ensures
            r == self.bits,
    {
        self.bits
    }

    pub fn new(bits: u64) -> (r: JSNumber)
        ensures
            r.bits == bits,
    {
        JSNumber { bits }
    }

    /// The number `n` as a runtime number value.
    pub fn from_int(n: u64) -> (r: JSNumber)
        ensures
            r.bits == float_of_int(n),
    {
        JSNumber { bits: num_from_u64(n) }
    }

    /// The compound-assignment capability of numbers: arithmetic with a
    /// number operand, a no-op with any other operand.
    pub fn compound_assignment(&mut self, op: CompoundOp, value: &JSValueVariant)
        ensures
            ValueModel::Num(final(self).bits) == apply_compound(
                ValueModel::Num(old(self).bits),
                op,
                value@,
            ),
    {
        match value {
            JSValueVariant::JSNumber(n) => {
                let b = match op {
                    CompoundOp::Add => num_add(self.bits, n.bits),
                    CompoundOp::Sub => num_sub(self.bits, n.bits),
                    CompoundOp::Mul => num_mul(self.bits, n.bits),
                    CompoundOp::Div => num_div(self.bits, n.bits),
                };
                self.bits = b;
            },
            _ => {},
        }
    }

    /// Addition assignment: the compound-assignment capability under `+=`.
    pub fn addition_assignment(&mut self, value: &JSValueVariant)
        ensures
            ValueModel::Num(final(self).bits) == apply_compound(
                ValueModel::Num(old(self).bits),
                CompoundOp::Add,
                value@,
            ),
    {
        self.compound_assignment(CompoundOp::Add, value);
    }
}

} // verus!
