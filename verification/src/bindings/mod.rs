use vstd::prelude::*;
use crate::bindings::definitions::spec_reciprocal;
use crate::error::{agrees, Error, ErrorType, Failure, Outcome};
use crate::numeric::{NumericType, EULER_BITS, PI_BITS};

pub mod builtin;
pub mod definitions;
pub mod registry;

pub use builtin::{get_bindings, register_bindings};
pub use registry::BindingMap;

verus! {

/// The arguments of a call, as specifications speak of them.
pub type Arguments<T> = Seq<T>;

/// The functions that a host supplies for a value kind beside the built-in
/// ones. Each is known by a code of the host's choosing and is a function of
/// its arguments: `invoke` returns what `spec_invoke` gives.
pub trait FunctionBindings: Sized {
    spec fn spec_invoke(code: u32, args: Arguments<Self>) -> Outcome<Self>;

    fn invoke(code: u32, args: &[Self]) -> (r: Outcome<Self>)
        ensures
            r == Self::spec_invoke(code, args@),
    ;
}

/// The function behind a binding: one of the built-in definitions, or a
/// function of the host, by its code.
#[derive(Clone, Copy, Debug, PartialEq, Eq, Structural)]
pub enum FunctionPointer {
    Pi,
    Euler,
    Add,
    Subtract,
    Multiply,
    Divide,
    Exponent,
    Modulus,
    Negate,
    SquareRoot,
    Sine,
    Cosine,
    Tangent,
    Arcsine,
    Arccosine,
    Arctangent,
    HypSine,
    HypCosine,
    HypTangent,
    InvHypSine,
    InvHypCosine,
    InvHypTangent,
    Cosecant,
    Secant,
    Cotangent,
    LogBaseE,
    LogBase10,
    Abs,
    Ceiling,
    Floor,
    Round,
    Min,
    Max,
    Custom(u32),
}

impl FunctionPointer {
    /// How many arguments the function reads at least.
    pub open spec fn spec_min_inputs(self) -> nat {
        match self {
            FunctionPointer::Pi
            | FunctionPointer::Euler => 0,
            FunctionPointer::Add
            | FunctionPointer::Subtract
            | FunctionPointer::Multiply
            | FunctionPointer::Divide
            | FunctionPointer::Exponent
            | FunctionPointer::Modulus
            | FunctionPointer::Min
            | FunctionPointer::Max => 2,
            FunctionPointer::Custom(_) => 0,
            _ => 1,
        }
    }

    pub fn min_inputs(self) -> (n: usize)
        ensures
            n == self.spec_min_inputs(),
    {
        match self {
            FunctionPointer::Pi
            | FunctionPointer::Euler => 0,
            FunctionPointer::Add
            | FunctionPointer::Subtract
            | FunctionPointer::Multiply
            | FunctionPointer::Divide
            | FunctionPointer::Exponent
            | FunctionPointer::Modulus
            | FunctionPointer::Min
            | FunctionPointer::Max => 2,
            FunctionPointer::Custom(_) => 0,
            _ => 1,
        }
    }

    /// What the function returns on `args`: an internal error where it is
    /// given fewer arguments than it reads, else the value of its definition,
    /// or whatever the host's function returns.
    pub open spec fn spec_call<T: NumericType>(self, args: Seq<T>) -> Result<T, Failure> {
        if args.len() < self.spec_min_inputs() {
            Err(Failure::Reported(ErrorType::InternalError, "Function called with too few arguments"@))
        } else {
            match self {
                FunctionPointer::Pi => Ok(T::spec_from_double_bits(PI_BITS)),
                FunctionPointer::Euler => Ok(T::spec_from_double_bits(EULER_BITS)),
                FunctionPointer::Add => Ok(args[0].spec_plus(args[1])),
                FunctionPointer::Subtract => Ok(args[0].spec_minus(args[1])),
                FunctionPointer::Multiply => Ok(args[0].spec_times(args[1])),
                FunctionPointer::Divide => Ok(args[0].spec_over(args[1])),
                FunctionPointer::Exponent => Ok(args[0].spec_powf(args[1])),
                FunctionPointer::Modulus => Ok(args[0].spec_modulo(args[1])),
                FunctionPointer::Negate => Ok(args[0].spec_neg()),
                FunctionPointer::SquareRoot => Ok(args[0].spec_sqrt()),
                FunctionPointer::Sine => Ok(args[0].spec_sin()),
                FunctionPointer::Cosine => Ok(args[0].spec_cos()),
                FunctionPointer::Tangent => Ok(args[0].spec_tan()),
                FunctionPointer::Arcsine => Ok(args[0].spec_asin()),
                FunctionPointer::Arccosine => Ok(args[0].spec_acos()),
                FunctionPointer::Arctangent => Ok(args[0].spec_atan()),
                FunctionPointer::HypSine => Ok(args[0].spec_sinh()),
                FunctionPointer::HypCosine => Ok(args[0].spec_cosh()),
                FunctionPointer::HypTangent => Ok(args[0].spec_tanh()),
                FunctionPointer::InvHypSine => Ok(args[0].spec_asinh()),
                FunctionPointer::InvHypCosine => Ok(args[0].spec_acosh()),
                FunctionPointer::InvHypTangent => Ok(args[0].spec_atanh()),
                FunctionPointer::Cosecant => Ok(spec_reciprocal(args[0].spec_sin())),
                FunctionPointer::Secant => Ok(spec_reciprocal(args[0].spec_cos())),
                FunctionPointer::Cotangent => Ok(spec_reciprocal(args[0].spec_tan())),
                FunctionPointer::LogBaseE => Ok(args[0].spec_ln()),
                FunctionPointer::LogBase10 => Ok(args[0].spec_log10()),
                FunctionPointer::Abs => Ok(args[0].spec_abs()),
                FunctionPointer::Ceiling => Ok(args[0].spec_ceil()),
                FunctionPointer::Floor => Ok(args[0].spec_floor()),
                FunctionPointer::Round => Ok(args[0].spec_round()),
                FunctionPointer::Min => Ok(args[0].spec_min(args[1])),
                FunctionPointer::Max => Ok(args[0].spec_max(args[1])),
                FunctionPointer::Custom(code) => match T::spec_invoke(code, args) {
                    Ok(v) => Ok(v),
                    Err(e) => Err(Failure::Raised(e)),
                },
            }
        }
    }

    /// Calls the function on `args`.
    pub fn call<T: NumericType>(self, args: &[T]) -> (r: Outcome<T>)
        ensures
            agrees(r, self.spec_call(args@)),
    {
        if args.len() < self.min_inputs() {
            return Err(
                Error::new(ErrorType::InternalError, "Function called with too few arguments"),
            );
        }
        match self {
            FunctionPointer::Pi => crate::bindings::definitions::pi(args),
            FunctionPointer::Euler => crate::bindings::definitions::euler(args),
            FunctionPointer::Add => crate::bindings::definitions::add(args),
            FunctionPointer::Subtract => crate::bindings::definitions::subtract(args),
            FunctionPointer::Multiply => crate::bindings::definitions::multiply(args),
            FunctionPointer::Divide => crate::bindings::definitions::divide(args),
            FunctionPointer::Exponent => crate::bindings::definitions::exponent(args),
            FunctionPointer::Modulus => crate::bindings::definitions::modulo(args),
            FunctionPointer::Negate => crate::bindings::definitions::negate(args),
            FunctionPointer::SquareRoot => crate::bindings::definitions::sqrt(args),
            FunctionPointer::Sine => crate::bindings::definitions::sine(args),
            FunctionPointer::Cosine => crate::bindings::definitions::cosine(args),
            FunctionPointer::Tangent => crate::bindings::definitions::tangent(args),
            FunctionPointer::Arcsine => crate::bindings::definitions::inverse_sine(args),
            FunctionPointer::Arccosine => crate::bindings::definitions::inverse_cosine(args),
            FunctionPointer::Arctangent => crate::bindings::definitions::inverse_tangent(args),
            FunctionPointer::HypSine => crate::bindings::definitions::hyperbolic_sine(args),
            FunctionPointer::HypCosine => crate::bindings::definitions::hyperbolic_cosine(args),
            FunctionPointer::HypTangent => crate::bindings::definitions::hyperbolic_tangent(args),
            FunctionPointer::InvHypSine => crate::bindings::definitions::inverse_hyperbolic_sine(args),
            FunctionPointer::InvHypCosine => crate::bindings::definitions::inverse_hyperbolic_cosine(args),
            FunctionPointer::InvHypTangent => crate::bindings::definitions::inverse_hyperbolic_tangent(args),
            FunctionPointer::Cosecant => crate::bindings::definitions::cosecant(args),
            FunctionPointer::Secant => crate::bindings::definitions::secant(args),
            FunctionPointer::Cotangent => crate::bindings::definitions::cotangent(args),
            FunctionPointer::LogBaseE => crate::bindings::definitions::log(args),
            FunctionPointer::LogBase10 => crate::bindings::definitions::log10(args),
            FunctionPointer::Abs => crate::bindings::definitions::abs(args),
            FunctionPointer::Ceiling => crate::bindings::definitions::ceiling(args),
            FunctionPointer::Floor => crate::bindings::definitions::floor(args),
            FunctionPointer::Round => crate::bindings::definitions::round(args),
            FunctionPointer::Min => crate::bindings::definitions::min(args),
            FunctionPointer::Max => crate::bindings::definitions::max(args),
            FunctionPointer::Custom(code) => T::invoke(code, args),
        }
    }
}

} // verus!
