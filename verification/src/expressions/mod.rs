use vstd::prelude::*;
use crate::error::{agrees, Error, ErrorType, Failure, Outcome};
use crate::expressions::constant::Constant;
use crate::expressions::function::{Function, FunctionView};
use crate::expressions::number::Number;
use crate::expressions::variable::Variable;
use crate::numeric::NumericType;

pub mod constant;
pub mod function;
pub mod number;
pub mod variable;

verus! {

/// An atom of a postfix program: a leaf, or a function to apply to the values
/// computed last.
#[derive(Debug)]
pub enum Expression<T: NumericType> {
    Number(Number<T>),
    Constant(Constant<T>),
    Variable(Variable),
    Function(Function),
}

/// An atom as contracts speak of it.
pub enum ExpressionView<T> {
    Number(T),
    Constant(T),
    Variable { label: Seq<char>, cell: usize },
    Function(FunctionView),
}

impl<T: NumericType> View for Expression<T> {
    type V = ExpressionView<T>;

    open spec fn view(&self) -> ExpressionView<T> {
        match *self {
            Expression::Number(n) => ExpressionView::Number(n.value),
            Expression::Constant(c) => ExpressionView::Constant(c.value),
            Expression::Variable(v) => ExpressionView::Variable { label: v.label@, cell: v.cell },
            Expression::Function(f) => ExpressionView::Function(f@),
        }
    }
}

impl<T: NumericType> ExpressionView<T> {
    /// How many values the atom takes: none for a leaf, its arity for a function.
    pub open spec fn spec_num_inputs(self) -> nat {
        match self {
            ExpressionView::Function(f) => f.num_inputs as nat,
            _ => 0,
        }
    }

    /// What the atom yields on the input `values`, with the variable cells
    /// holding `cells`.
    pub open spec fn spec_evaluate(self, values: Seq<T>, cells: Seq<T>) -> Result<T, Failure> {
        match self {
            ExpressionView::Number(v) => Ok(v),
            ExpressionView::Constant(v) => Ok(v),
            ExpressionView::Variable { label, cell } => if cell < cells.len() {
                Ok(cells[cell as int])
            } else {
                Err(Failure::Reported(ErrorType::InternalError, "No cell for variable "@ + label))
            },
            ExpressionView::Function(f) => f.spec_evaluate(values),
        }
    }
}

/// The views of the atoms of a program, in order.
pub open spec fn program_view<T: NumericType>(program: Seq<Expression<T>>) -> Seq<ExpressionView<T>> {
    Seq::new(program.len(), |i: int| program[i]@)
}

impl<T: NumericType> Expression<T> {

    pub fn num_inputs(&self) -> (n: usize)
        ensures
            n == self@.spec_num_inputs(),
    {
        match self {
            Expression::Function(f) => f.num_inputs,
            _ => 0,
        }
    }

    pub fn evaluate(&self, values: &[T], cells: &[T]) -> (r: Outcome<T>)
        ensures
            agrees(r, self@.spec_evaluate(values@, cells@)),
    {
        match self {
            Expression::Number(n) => Ok(n.value),
            Expression::Constant(c) => Ok(c.value),
            Expression::Variable(v) => if v.cell < cells.len() {
                Ok(cells[v.cell])
            } else {
                Err(Error::with_detail(ErrorType::InternalError, "No cell for variable ", v.label.as_str()))
            },
            Expression::Function(f) => f.evaluate(values),
        }
    }
}

} // verus!
