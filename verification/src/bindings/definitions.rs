use vstd::prelude::*;
use crate::error::{Error, Outcome};
use crate::numeric::{NumericType, EULER_BITS, MINUS_ONE_BITS, PI_BITS};

verus! {

/// The reciprocal of `x`, computed as `x` raised to the power minus one.
pub open spec fn spec_reciprocal<T: NumericType>(x: T) -> T {
    x.spec_powf(T::spec_from_double_bits(MINUS_ONE_BITS))
}

/// The constant pi; takes no argument.
pub fn pi<T: NumericType>(_args: &[T]) -> (r: Outcome<T>)
    ensures
        r == Ok::<T, Error>(T::spec_from_double_bits(PI_BITS)),
{
    Ok(T::from_double_bits(PI_BITS))
}

/// Euler's number; takes no argument.
pub fn euler<T: NumericType>(_args: &[T]) -> (r: Outcome<T>)
    ensures
        r == Ok::<T, Error>(T::spec_from_double_bits(EULER_BITS)),
{
    Ok(T::from_double_bits(EULER_BITS))
}

/// `plus` of the first two arguments.
pub fn add<T: NumericType>(args: &[T]) -> (r: Outcome<T>)
    requires
        args@.len() >= 2,
    ensures
        r == Ok::<T, Error>(args@[0].spec_plus(args@[1])),
{
    Ok(args[0].plus(args[1]))
}

/// `minus` of the first two arguments.
pub fn subtract<T: NumericType>(args: &[T]) -> (r: Outcome<T>)
    requires
        args@.len() >= 2,
    ensures
        r == Ok::<T, Error>(args@[0].spec_minus(args@[1])),
{
    Ok(args[0].minus(args[1]))
}

/// `times` of the first two arguments.
pub fn multiply<T: NumericType>(args: &[T]) -> (r: Outcome<T>)
    requires
        args@.len() >= 2,
    ensures
        r == Ok::<T, Error>(args@[0].spec_times(args@[1])),
{
    Ok(args[0].times(args[1]))
}

/// `over` of the first two arguments.
pub fn divide<T: NumericType>(args: &[T]) -> (r: Outcome<T>)
    requires
        args@.len() >= 2,
    ensures
        r == Ok::<T, Error>(args@[0].spec_over(args@[1])),
{
    Ok(args[0].over(args[1]))
}

/// `powf` of the first two arguments.
pub fn exponent<T: NumericType>(args: &[T]) -> (r: Outcome<T>)
    requires
        args@.len() >= 2,
    ensures
        r == Ok::<T, Error>(args@[0].spec_powf(args@[1])),
{
    Ok(args[0].powf(args[1]))
}

/// `modulo` of the first two arguments.
pub fn modulo<T: NumericType>(args: &[T]) -> (r: Outcome<T>)
    requires
        args@.len() >= 2,
    ensures
        r == Ok::<T, Error>(args@[0].spec_modulo(args@[1])),
{
    Ok(args[0].modulo(args[1]))
}

/// `min` of the first two arguments.
pub fn min<T: NumericType>(args: &[T]) -> (r: Outcome<T>)
    requires
        args@.len() >= 2,
    ensures
        r == Ok::<T, Error>(args@[0].spec_min(args@[1])),
{
    Ok(args[0].min(args[1]))
}

/// `max` of the first two arguments.
pub fn max<T: NumericType>(args: &[T]) -> (r: Outcome<T>)
    requires
        args@.len() >= 2,
    ensures
        r == Ok::<T, Error>(args@[0].spec_max(args@[1])),
{
    Ok(args[0].max(args[1]))
}

/// `neg` of the first argument.
pub fn negate<T: NumericType>(args: &[T]) -> (r: Outcome<T>)
    requires
        args@.len() >= 1,
    ensures
        r == Ok::<T, Error>(args@[0].spec_neg()),
{
    Ok(args[0].neg())
}

/// `sqrt` of the first argument.
pub fn sqrt<T: NumericType>(args: &[T]) -> (r: Outcome<T>)
    requires
        args@.len() >= 1,
    ensures
        r == Ok::<T, Error>(args@[0].spec_sqrt()),
{
    Ok(args[0].sqrt())
}

/// `sin` of the first argument.
pub fn sine<T: NumericType>(args: &[T]) -> (r: Outcome<T>)
    requires
        args@.len() >= 1,
    ensures
        r == Ok::<T, Error>(args@[0].spec_sin()),
{
    Ok(args[0].sin())
}

/// `cos` of the first argument.
pub fn cosine<T: NumericType>(args: &[T]) -> (r: Outcome<T>)
    requires
        args@.len() >= 1,
    ensures
        r == Ok::<T, Error>(args@[0].spec_cos()),
{
    Ok(args[0].cos())
}

/// `tan` of the first argument.
pub fn tangent<T: NumericType>(args: &[T]) -> (r: Outcome<T>)
    requires
        args@.len() >= 1,
    ensures
        r == Ok::<T, Error>(args@[0].spec_tan()),
{
    Ok(args[0].tan())
}

/// `asin` of the first argument.
pub fn inverse_sine<T: NumericType>(args: &[T]) -> (r: Outcome<T>)
    requires
        args@.len() >= 1,
    ensures
        r == Ok::<T, Error>(args@[0].spec_asin()),
{
    Ok(args[0].asin())
}

/// `acos` of the first argument.
pub fn inverse_cosine<T: NumericType>(args: &[T]) -> (r: Outcome<T>)
    requires
        args@.len() >= 1,
    ensures
        r == Ok::<T, Error>(args@[0].spec_acos()),
{
    Ok(args[0].acos())
}

/// `atan` of the first argument.
pub fn inverse_tangent<T: NumericType>(args: &[T]) -> (r: Outcome<T>)
    requires
        args@.len() >= 1,
    ensures
        r == Ok::<T, Error>(args@[0].spec_atan()),
{
    Ok(args[0].atan())
}

/// `sinh` of the first argument.
pub fn hyperbolic_sine<T: NumericType>(args: &[T]) -> (r: Outcome<T>)
    requires
        args@.len() >= 1,
    ensures
        r == Ok::<T, Error>(args@[0].spec_sinh()),
{
    Ok(args[0].sinh())
}

/// `cosh` of the first argument.
pub fn hyperbolic_cosine<T: NumericType>(args: &[T]) -> (r: Outcome<T>)
    requires
        args@.len() >= 1,
    ensures
        r == Ok::<T, Error>(args@[0].spec_cosh()),
{
    Ok(args[0].cosh())
}

/// `tanh` of the first argument.
pub fn hyperbolic_tangent<T: NumericType>(args: &[T]) -> (r: Outcome<T>)
    requires
        args@.len() >= 1,
    ensures
        r == Ok::<T, Error>(args@[0].spec_tanh()),
{
    Ok(args[0].tanh())
}

/// `asinh` of the first argument.
pub fn inverse_hyperbolic_sine<T: NumericType>(args: &[T]) -> (r: Outcome<T>)
    requires
        args@.len() >= 1,
    ensures
        r == Ok::<T, Error>(args@[0].spec_asinh()),
{
    Ok(args[0].asinh())
}

/// `acosh` of the first argument.
pub fn inverse_hyperbolic_cosine<T: NumericType>(args: &[T]) -> (r: Outcome<T>)
    requires
        args@.len() >= 1,
    ensures
        r == Ok::<T, Error>(args@[0].spec_acosh()),
{
    Ok(args[0].acosh())
}

/// `atanh` of the first argument.
pub fn inverse_hyperbolic_tangent<T: NumericType>(args: &[T]) -> (r: Outcome<T>)
    requires
        args@.len() >= 1,
    ensures
        r == Ok::<T, Error>(args@[0].spec_atanh()),
{
    Ok(args[0].atanh())
}

/// `ln` of the first argument.
pub fn log<T: NumericType>(args: &[T]) -> (r: Outcome<T>)
    requires
        args@.len() >= 1,
    ensures
        r == Ok::<T, Error>(args@[0].spec_ln()),
{
    Ok(args[0].ln())
}

/// `log10` of the first argument.
pub fn log10<T: NumericType>(args: &[T]) -> (r: Outcome<T>)
    requires
        args@.len() >= 1,
    ensures
        r == Ok::<T, Error>(args@[0].spec_log10()),
{
    Ok(args[0].log10())
}

/// `abs` of the first argument.
pub fn abs<T: NumericType>(args: &[T]) -> (r: Outcome<T>)
    requires
        args@.len() >= 1,
    ensures
        r == Ok::<T, Error>(args@[0].spec_abs()),
{
    Ok(args[0].abs())
}

/// `ceil` of the first argument.
pub fn ceiling<T: NumericType>(args: &[T]) -> (r: Outcome<T>)
    requires
        args@.len() >= 1,
    ensures
        r == Ok::<T, Error>(args@[0].spec_ceil()),
{
    Ok(args[0].ceil())
}

/// `floor` of the first argument.
pub fn floor<T: NumericType>(args: &[T]) -> (r: Outcome<T>)
    requires
        args@.len() >= 1,
    ensures
        r == Ok::<T, Error>(args@[0].spec_floor()),
{
    Ok(args[0].floor())
}

/// `round` of the first argument.
pub fn round<T: NumericType>(args: &[T]) -> (r: Outcome<T>)
    requires
        args@.len() >= 1,
    ensures
        r == Ok::<T, Error>(args@[0].spec_round()),
{
    Ok(args[0].round())
}

/// The reciprocal of `sin` of the first argument.
pub fn cosecant<T: NumericType>(args: &[T]) -> (r: Outcome<T>)
    requires
        args@.len() >= 1,
    ensures
        r == Ok::<T, Error>(spec_reciprocal(args@[0].spec_sin())),
{
    Ok(args[0].sin().powf(T::from_double_bits(MINUS_ONE_BITS)))
}

/// The reciprocal of `cos` of the first argument.
pub fn secant<T: NumericType>(args: &[T]) -> (r: Outcome<T>)
    requires
        args@.len() >= 1,
    ensures
        r == Ok::<T, Error>(spec_reciprocal(args@[0].spec_cos())),
{
    Ok(args[0].cos().powf(T::from_double_bits(MINUS_ONE_BITS)))
}

/// The reciprocal of `tan` of the first argument.
pub fn cotangent<T: NumericType>(args: &[T]) -> (r: Outcome<T>)
    requires
        args@.len() >= 1,
    ensures
        r == Ok::<T, Error>(spec_reciprocal(args@[0].spec_tan())),
{
    Ok(args[0].tan().powf(T::from_double_bits(MINUS_ONE_BITS)))
}

} // verus!
