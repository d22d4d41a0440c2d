use vstd::prelude::*;
use crate::numeric::NumericType;

verus! {

/// A leaf that holds the value of a named constant, computed once when the
/// expression is compiled.
#[derive(Clone, Copy, Debug)]
pub struct Constant<T: NumericType> {
    pub value: T,
}

impl<T: NumericType> Constant<T> {
    pub fn new(value: T) -> (c: Constant<T>)
        ensures
            c.value == value,
    {
        Constant { value }
    }

    pub fn value(&self) -> (v: &T)
        ensures
            *v == self.value,
    {
        &self.value
    }
}

} // verus!
