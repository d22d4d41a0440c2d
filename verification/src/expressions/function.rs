use vstd::prelude::*;
use vstd::string::StringExecFns;
use crate::bindings::FunctionPointer;
use crate::error::{agrees, Error, ErrorType, Failure, Outcome};
use crate::numeric::NumericType;

verus! {

/// A binding: a labelled function with a fixed number of inputs.
#[derive(Clone, Debug)]
pub struct Function {
    pub label: String,
    pub function: FunctionPointer,
    pub num_inputs: usize,
}

/// A binding as contracts speak of it.
pub struct FunctionView {
    pub label: Seq<char>,
    pub function: FunctionPointer,
    pub num_inputs: usize,
}

impl View for Function {
    type V = FunctionView;

    open spec fn view(&self) -> FunctionView {
        FunctionView { label: self.label@, function: self.function, num_inputs: self.num_inputs }
    }
}

impl FunctionView {
    /// What the binding yields on `values`: an internal error unless it is
    /// given exactly `num_inputs` values, else what its function returns.
    pub open spec fn spec_evaluate<T: NumericType>(self, values: Seq<T>) -> Result<T, Failure> {
        if values.len() != self.num_inputs {
            Err(
                Failure::Reported(
                    ErrorType::InternalError,
                    "Tried to call a function with a different number of arguments than expected"@,
                ),
            )
        } else {
            self.function.spec_call(values)
        }
    }
}

impl Function {
    pub fn new(label: &str, function: FunctionPointer, num_inputs: usize) -> (f: Function)
        ensures
            f@ == (FunctionView { label: label@, function, num_inputs }),
    {
        Function { label: String::from_str(label), function, num_inputs }
    }

    /// A copy of this binding.
    pub fn duplicate(&self) -> (f: Function)
        ensures
            f@ == self@,
    {
        Function { label: self.label.clone(), function: self.function, num_inputs: self.num_inputs }
    }

    /// Applies the binding to `values`.
    pub fn evaluate<T: NumericType>(&self, values: &[T]) -> (r: Outcome<T>)
        ensures
            agrees(r, self@.spec_evaluate(values@)),
    {
        if values.len() != self.num_inputs {
            return Err(
                Error::new(
                    ErrorType::InternalError,
                    "Tried to call a function with a different number of arguments than expected",
                ),
            );
        }
        self.function.call(values)
    }

    pub fn num_inputs(&self) -> (n: usize)
        ensures
            n == self.num_inputs,
    {
        self.num_inputs
    }
}

} // verus!
