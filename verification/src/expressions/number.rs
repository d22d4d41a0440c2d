use vstd::prelude::*;
use crate::numeric::NumericType;

verus! {

/// A leaf that holds the value of a number literal.
#[derive(Clone, Copy, Debug)]
pub struct Number<T: NumericType> {
    pub value: T,
}

impl<T: NumericType> Number<T> {
    pub fn new(value: T) -> (n: Number<T>)
        ensures
            n.value == value,
    {
        Number { value }
    }

    pub fn value(&self) -> (v: &T)
        ensures
            *v == self.value,
    {
        &self.value
    }
}

} // verus!
