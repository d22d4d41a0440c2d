use vstd::prelude::*;
use vstd::string::StringExecFns;

verus! {

/// A leaf that reads a variable cell: the variable's name and the place of
/// its cell among the cells of the expression.
#[derive(Clone, Debug)]
pub struct Variable {
    pub label: String,
    pub cell: usize,
}

impl Variable {
    pub fn new(label: &str, cell: usize) -> (v: Variable)
        ensures
            v.label@ == label@,
            v.cell == cell,
    {
        Variable { label: String::from_str(label), cell }
    }
}

} // verus!
