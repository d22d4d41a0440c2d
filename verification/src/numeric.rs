use vstd::prelude::*;
use crate::bindings::FunctionBindings;
use crate::text::Characters;

verus! {

/// The contract of a value kind: the numeric type that expressions compute
/// with. Every operation is a function of its operands: the executable method
/// returns what the specification function of the same name gives.
pub trait NumericType: FunctionBindings + Copy {
    /// The value of this kind nearest to the double-precision number whose
    /// IEEE 754 bit pattern is `bits`.
    spec fn spec_from_double_bits(bits: u64) -> Self;

    fn from_double_bits(bits: u64) -> (r: Self)
        ensures
            r == Self::spec_from_double_bits(bits),
    ;

    /// The value that the literal `text` denotes, if it denotes one.
    spec fn spec_parse_literal(text: Characters) -> Option<Self>;

    fn parse_literal(text: &str) -> (r: Option<Self>)
        ensures
            r == Self::spec_parse_literal(text@),
    ;

    /// The negation of `self`.
    spec fn spec_neg(self) -> Self;

    fn neg(self) -> (r: Self)
        ensures
            r == self.spec_neg(),
    ;

    /// The square root.
    spec fn spec_sqrt(self) -> Self;

    fn sqrt(self) -> (r: Self)
        ensures
            r == self.spec_sqrt(),
    ;

    /// The sine.
    spec fn spec_sin(self) -> Self;

    fn sin(self) -> (r: Self)
        ensures
            r == self.spec_sin(),
    ;

    /// The cosine.
    spec fn spec_cos(self) -> Self;

    fn cos(self) -> (r: Self)
        ensures
            r == self.spec_cos(),
    ;

    /// The tangent.
    spec fn spec_tan(self) -> Self;

    fn tan(self) -> (r: Self)
        ensures
            r == self.spec_tan(),
    ;

    /// The inverse sine.
    spec fn spec_asin(self) -> Self;

    fn asin(self) -> (r: Self)
        ensures
            r == self.spec_asin(),
    ;

    /// The inverse cosine.
    spec fn spec_acos(self) -> Self;

    fn acos(self) -> (r: Self)
        ensures
            r == self.spec_acos(),
    ;

    /// The inverse tangent.
    spec fn spec_atan(self) -> Self;

    fn atan(self) -> (r: Self)
        ensures
            r == self.spec_atan(),
    ;

    /// The hyperbolic sine.
    spec fn spec_sinh(self) -> Self;

    fn sinh(self) -> (r: Self)
        ensures
            r == self.spec_sinh(),
    ;

    /// The hyperbolic cosine.
    spec fn spec_cosh(self) -> Self;

    fn cosh(self) -> (r: Self)
        ensures
            r == self.spec_cosh(),
    ;

    /// The hyperbolic tangent.
    spec fn spec_tanh(self) -> Self;

    fn tanh(self) -> (r: Self)
        ensures
            r == self.spec_tanh(),
    ;

    /// The inverse hyperbolic sine.
    spec fn spec_asinh(self) -> Self;

    fn asinh(self) -> (r: Self)
        ensures
            r == self.spec_asinh(),
    ;

    /// The inverse hyperbolic cosine.
    spec fn spec_acosh(self) -> Self;

    fn acosh(self) -> (r: Self)
        ensures
            r == self.spec_acosh(),
    ;

    /// The inverse hyperbolic tangent.
    spec fn spec_atanh(self) -> Self;

    fn atanh(self) -> (r: Self)
        ensures
            r == self.spec_atanh(),
    ;

    /// The natural logarithm.
    spec fn spec_ln(self) -> Self;

    fn ln(self) -> (r: Self)
        ensures
            r == self.spec_ln(),
    ;

    /// The logarithm to base ten.
    spec fn spec_log10(self) -> Self;

    fn log10(self) -> (r: Self)
        ensures
            r == self.spec_log10(),
    ;

    /// The absolute value.
    spec fn spec_abs(self) -> Self;

    fn abs(self) -> (r: Self)
        ensures
            r == self.spec_abs(),
    ;

    /// The least integral value not below `self`.
    spec fn spec_ceil(self) -> Self;

    fn ceil(self) -> (r: Self)
        ensures
            r == self.spec_ceil(),
    ;

    /// The greatest integral value not above `self`.
    spec fn spec_floor(self) -> Self;

    fn floor(self) -> (r: Self)
        ensures
            r == self.spec_floor(),
    ;

    /// The nearest integral value, halves away from zero.
    spec fn spec_round(self) -> Self;

    fn round(self) -> (r: Self)
        ensures
            r == self.spec_round(),
    ;

    /// The sum `self + rhs`.
    spec fn spec_plus(self, rhs: Self) -> Self;

    fn plus(self, rhs: Self) -> (r: Self)
        ensures
            r == self.spec_plus(rhs),
    ;

    /// The difference `self - rhs`.
    spec fn spec_minus(self, rhs: Self) -> Self;

    fn minus(self, rhs: Self) -> (r: Self)
        ensures
            r == self.spec_minus(rhs),
    ;

    /// The product `self * rhs`.
    spec fn spec_times(self, rhs: Self) -> Self;

    fn times(self, rhs: Self) -> (r: Self)
        ensures
            r == self.spec_times(rhs),
    ;

    /// The quotient `self / rhs`.
    spec fn spec_over(self, rhs: Self) -> Self;

    fn over(self, rhs: Self) -> (r: Self)
        ensures
            r == self.spec_over(rhs),
    ;

    /// The remainder of `self / rhs`.
    spec fn spec_modulo(self, rhs: Self) -> Self;

    fn modulo(self, rhs: Self) -> (r: Self)
        ensures
            r == self.spec_modulo(rhs),
    ;

    /// `self` raised to the power `rhs`.
    spec fn spec_powf(self, rhs: Self) -> Self;

    fn powf(self, rhs: Self) -> (r: Self)
        ensures
            r == self.spec_powf(rhs),
    ;

    /// The lesser of the two.
    spec fn spec_min(self, rhs: Self) -> Self;

    fn min(self, rhs: Self) -> (r: Self)
        ensures
            r == self.spec_min(rhs),
    ;

    /// The greater of the two.
    spec fn spec_max(self, rhs: Self) -> Self;

    fn max(self, rhs: Self) -> (r: Self)
        ensures
            r == self.spec_max(rhs),
    ;
}

/// The bit pattern of the double-precision number nearest to pi.
pub const PI_BITS: u64 = 0x400921FB54442D18;

/// The bit pattern of the double-precision number nearest to Euler's number.
pub const EULER_BITS: u64 = 0x4005BF0A8B145769;

/// The bit pattern of the double-precision number zero.
pub const ZERO_BITS: u64 = 0;

/// The bit pattern of the double-precision number minus one.
pub const MINUS_ONE_BITS: u64 = 0xBFF0000000000000;

} // verus!
