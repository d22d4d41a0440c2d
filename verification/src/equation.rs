use vstd::prelude::*;
use vstd::string::StringExecFns;
use crate::error::{agrees, Error, ErrorType, Failure, Outcome};
use crate::expressions::function::FunctionView;
use crate::expressions::{program_view, Expression, ExpressionView};
use crate::numeric::{NumericType, ZERO_BITS};
use crate::text::{decimal, same_text, spec_decimal};

verus! {

/// The label of an atom: that of its binding for a function, its name for a
/// variable, nothing for a number.
pub open spec fn spec_label<T>(e: ExpressionView<T>) -> Seq<char> {
    match e {
        ExpressionView::Function(f) => f.label,
        ExpressionView::Variable { label, cell } => label,
        _ => Seq::empty(),
    }
}

/// What is reported where an atom finds too few values on the stack.
pub open spec fn spec_starved_message(label: Seq<char>, needs: nat, holds: nat) -> Seq<char> {
    "Function "@ + label + " requires "@ + spec_decimal(needs) + " inputs but the output stack contains "@
        + spec_decimal(holds)
}

/// The stack after the atom `e` has run on `stack`: a syntax error where the
/// stack holds fewer values than `e` takes; else the values that `e` takes
/// leave the top of the stack, first pushed first, and what `e` yields on
/// them is pushed.
pub open spec fn spec_step<T: NumericType>(e: ExpressionView<T>, cells: Seq<T>, stack: Seq<T>) -> Result<
    Seq<T>,
    Failure,
> {
    let k = e.spec_num_inputs();
    if k > stack.len() {
        Err(Failure::Reported(ErrorType::SyntaxError, spec_starved_message(spec_label(e), k, stack.len())))
    } else {
        match e.spec_evaluate(stack.skip(stack.len() - k), cells) {
            Ok(v) => Ok(stack.take(stack.len() - k).push(v)),
            Err(f) => Err(f),
        }
    }
}

/// The outcome of running `program` from left to right on `stack`: the first
/// failure of a step, else the one value left on the stack, and a syntax
/// error where more or fewer than one are left.
pub open spec fn spec_run<T: NumericType>(program: Seq<ExpressionView<T>>, cells: Seq<T>, stack: Seq<T>) -> Result<
    T,
    Failure,
>
    decreases program.len(),
{
    if program.len() == 0 {
        if stack.len() == 1 {
            Ok(stack[0])
        } else {
            Err(Failure::Reported(ErrorType::SyntaxError, "Equation does not evaluate to a single value"@))
        }
    } else {
        match spec_step(program[0], cells, stack) {
            Ok(next) => spec_run(program.drop_first(), cells, next),
            Err(f) => Err(f),
        }
    }
}

/// The outcome of evaluating `program`: an empty one was never initialised.
pub open spec fn spec_evaluate_program<T: NumericType>(program: Seq<ExpressionView<T>>, cells: Seq<T>) -> Result<
    T,
    Failure,
> {
    if program.len() == 0 {
        Err(Failure::Reported(ErrorType::NotInitialisedError, "Equation is empty"@))
    } else {
        spec_run(program, cells, Seq::empty())
    }
}

/// Whether an outcome is a syntax error, reported by the evaluator or raised
/// by a binding.
pub open spec fn is_syntax_failure<T>(outcome: Result<T, Failure>) -> bool {
    match outcome {
        Err(failure) => failure.kind() == ErrorType::SyntaxError,
        Ok(_) => false,
    }
}

/// Whether no name occurs twice in `names`.
pub open spec fn names_distinct(names: Seq<Seq<char>>) -> bool {
    forall|i: int, j: int| 0 <= i < j < names.len() ==> #[trigger] names[i] != #[trigger] names[j]
}

/// The views of `names`, in order.
pub open spec fn name_views(names: Seq<String>) -> Seq<Seq<char>> {
    Seq::new(names.len(), |i: int| names[i]@)
}

/// The place of `label` in `names`, if it is there.
pub open spec fn spec_position(names: Seq<Seq<char>>, label: Seq<char>) -> Option<int> {
    if exists|i: int| 0 <= i < names.len() && names[i] == label {
        Some(choose|i: int| 0 <= i < names.len() && names[i] == label)
    } else {
        None
    }
}

/// Whether each variable atom of `program` reads one of `names.len()` cells,
/// the one that belongs to its name.
pub open spec fn cells_resolved<T: NumericType>(program: Seq<ExpressionView<T>>, names: Seq<Seq<char>>) -> bool {
    forall|i: int|
        0 <= i < program.len() ==> (#[trigger] program[i] matches ExpressionView::Variable { label, cell } ==> cell
            < names.len() && names[cell as int] == label)
}

/// The message for an atom that finds too few values on the stack.
fn starved_message<T: NumericType>(expression: &Expression<T>, needs: usize, holds: usize) -> (m: String)
    ensures
        m@ == spec_starved_message(spec_label(expression@), needs as nat, holds as nat),
{
    let label = match expression {
        Expression::Function(f) => f.label.as_str(),
        Expression::Variable(v) => v.label.as_str(),
        _ => "",
    };
    proof {
        reveal_strlit("");
        assert(""@ =~= Seq::<char>::empty());
    }
    String::from_str("Function ").concat(label).concat(" requires ").concat(decimal(needs).as_str()).concat(
        " inputs but the output stack contains ",
    ).concat(decimal(holds).as_str())
}

/// A compiled expression: a postfix program and the variable cells it reads.
#[derive(Debug)]
pub struct Equation<T: NumericType> {
    pub data: Vec<Expression<T>>,
    pub variable_names: Vec<String>,
    pub variables: Vec<T>,
}

impl<T: NumericType> Equation<T> {
    /// Each variable has one cell, no name occurs twice, and every variable
    /// atom reads the cell of its name.
    pub open spec fn wf(&self) -> bool {
        &&& self.variable_names@.len() == self.variables@.len()
        &&& names_distinct(self.spec_variables())
        &&& cells_resolved(self.program(), self.spec_variables())
    }

    /// The postfix program.
    pub open spec fn program(&self) -> Seq<ExpressionView<T>> {
        program_view(self.data@)
    }

    /// The names of the variables, in the order of their cells.
    pub open spec fn spec_variables(&self) -> Seq<Seq<char>> {
        name_views(self.variable_names@)
    }

    /// The outcome of evaluating the expression with the present cell contents.
    pub open spec fn spec_evaluate(&self) -> Result<T, Failure> {
        spec_evaluate_program(self.program(), self.variables@)
    }

    /// The place of the cell of the variable `label`, if there is one.
    pub open spec fn spec_cell(&self, label: Seq<char>) -> Option<int> {
        spec_position(self.spec_variables(), label)
    }

    /// An expression over `data` whose variables, named `variable_names`, are all zero.
    pub fn new(data: Vec<Expression<T>>, variable_names: Vec<String>) -> (e: Equation<T>)
        requires
            names_distinct(name_views(variable_names@)),
            cells_resolved(program_view(data@), name_views(variable_names@)),
        ensures
            e.wf(),
            e.data == data,
            e.variable_names == variable_names,
            forall|i: int| 0 <= i < e.variables@.len() ==> e.variables@[i] == T::spec_from_double_bits(ZERO_BITS),
    {
        let mut variables: Vec<T> = Vec::new();
        let zero = T::from_double_bits(ZERO_BITS);
        let mut i: usize = 0;
        while i < variable_names.len()
            invariant
                i <= variable_names@.len(),
                variables@.len() == i,
                zero == T::spec_from_double_bits(ZERO_BITS),
                forall|j: int| 0 <= j < i ==> variables@[j] == zero,
            decreases variable_names@.len() - i,
        {
            variables.push(zero);
            i += 1;
        }
        Equation { data, variable_names, variables }
    }

    /// Evaluates the expression with the present cell contents.
    pub fn evaluate(&self) -> (r: Outcome<T>)
        ensures
            agrees(r, self.spec_evaluate()),
    {
        if self.data.len() == 0 {
            return Err(Error::new(ErrorType::NotInitialisedError, "Equation is empty"));
        }
        let mut stack: Vec<T> = Vec::new();
        let mut i: usize = 0;
        let ghost program = self.program();
        assert(program.skip(0) =~= program);
        while i < self.data.len()
            invariant
                i <= self.data@.len(),
                program == self.program(),
                spec_run(program, self.variables@, Seq::empty()) == spec_run(
                    program.skip(i as int),
                    self.variables@,
                    stack@,
                ),
            decreases self.data@.len() - i,
        {
            let expression = &self.data[i];
            let k = expression.num_inputs();
            let ghost rest = program.skip(i as int);
            assert(rest[0] == self.data@[i as int]@);
            assert(rest.drop_first() =~= program.skip(i + 1));
            if k > stack.len() {
                return Err(Error { error_type: ErrorType::SyntaxError, message: starved_message(expression, k, stack.len()) });
            }
            let ghost before = stack@;
            let inputs = stack.split_off(stack.len() - k);
            assert(inputs@ =~= before.skip(before.len() - k));
            assert(stack@ =~= before.take(before.len() - k));
            let value = expression.evaluate(inputs.as_slice(), self.variables.as_slice())?;
            stack.push(value);
            i += 1;
        }
        assert(program.skip(i as int).len() == 0);
        if stack.len() != 1 {
            return Err(
                Error::new(ErrorType::SyntaxError, "Equation does not evaluate to a single value"),
            );
        }
        Ok(stack[0])
    }

    /// The cell of the variable `label`, to read or to assign. An unknown name
    /// is a `VariableAccessError`, and leaves the expression as it was.
    pub fn variable(&mut self, label: &str) -> (r: Result<&mut T, Error>)
        requires
            old(self).wf(),
        ensures
            final(self).wf(),
            final(self).data == old(self).data,
            final(self).variable_names == old(self).variable_names,
            match r {
                Ok(cell) => old(self).spec_cell(label@) matches Some(i) && *cell == old(self).variables@[i]
                    && final(self).variables@ == old(self).variables@.update(i, *final(cell)),
                Err(e) => old(self).spec_cell(label@).is_none() && e.error_type
                    == ErrorType::VariableAccessError && e.message@ == "Equation does not contain variable "@
                    + label@ && final(self).variables == old(self).variables,
            },
    {
        let mut i: usize = 0;
        while i < self.variable_names.len()
            invariant
                i <= self.variable_names@.len(),
                self.wf(),
                *self == *old(self),
                forall|j: int| 0 <= j < i ==> (#[trigger] self.variable_names@[j])@ != label@,
            decreases self.variable_names@.len() - i,
        {
            if same_text(self.variable_names[i].as_str(), label) {
                assert(old(self).spec_cell(label@) == Some(i as int)) by {
                    let names = self.spec_variables();
                    assert(names[i as int] == label@);
                    let c = choose|c: int| 0 <= c < names.len() && names[c] == label@;
                    if c < i {
                        assert(names[c] == self.variable_names@[c]@);
                    } else if c > i {
                        assert(names[i as int] != names[c]);
                    }
                }
                return Ok(&mut self.variables[i]);
            }
            i += 1;
        }
        Err(Error::with_detail(ErrorType::VariableAccessError, "Equation does not contain variable ", label))
    }

    /// The names of the variables, in the order in which the expression text
    /// first mentions them.
    pub fn variables(&self) -> (names: &[String])
        ensures
            names@ == self.variable_names@,
            name_views(names@) == self.spec_variables(),
    {
        self.variable_names.as_slice()
    }
}

/// Whether two results are the same outcome: the same value, or failures of
/// the same kind.
pub open spec fn same_outcome<T>(a: Outcome<T>, b: Outcome<T>) -> bool {
    match (a, b) {
        (Ok(x), Ok(y)) => x == y,
        (Err(e), Err(f)) => e.error_type == f.error_type,
        _ => false,
    }
}

/// Evaluation is deterministic: two expressions with the same program and
/// the same cell contents evaluate to the same outcome, and so do two
/// evaluations of one expression whose cells were not assigned in between.
pub proof fn evaluation_is_deterministic<T: NumericType>(
    first: Equation<T>,
    second: Equation<T>,
    first_result: Outcome<T>,
    second_result: Outcome<T>,
)
    requires
        first.program() == second.program(),
        first.variables@ == second.variables@,
        agrees(first_result, first.spec_evaluate()),
        agrees(second_result, second.spec_evaluate()),
    ensures
        same_outcome(first_result, second_result),
{
}

/// A function atom of arity `k` takes exactly `k` values from the stack and
/// leaves exactly one: where the stack holds fewer than `k` values the step
/// is a syntax error; where the step succeeds, the values below the topmost
/// `k` stay as they were, and one value stands on them.
pub proof fn function_atom_arity<T: NumericType>(function: FunctionView, cells: Seq<T>, stack: Seq<T>)
    ensures
        stack.len() < function.num_inputs ==> (spec_step(ExpressionView::Function(function), cells, stack) matches Err(
            failure,
        ) && failure.kind() == ErrorType::SyntaxError),
        spec_step(ExpressionView::Function(function), cells, stack) matches Ok(next) ==> {
            &&& stack.len() >= function.num_inputs
            &&& next.len() == stack.len() - function.num_inputs + 1
            &&& next.take(stack.len() - function.num_inputs) == stack.take(stack.len() - function.num_inputs)
            &&& function.spec_evaluate(stack.skip(stack.len() - function.num_inputs)) == Ok::<T, Failure>(
                next.last(),
            )
        },
{
    let e = ExpressionView::<T>::Function(function);
    if let Ok(next) = spec_step(e, cells, stack) {
        let k = function.num_inputs as int;
        assert(next.take(stack.len() - k) =~= stack.take(stack.len() - k));
    }
}

/// The list of variable names is stable: whatever two calls of `variables`
/// return for one expression holds the same names in the same order.
pub proof fn variables_are_stable<T: NumericType>(equation: Equation<T>, first: &[String], second: &[String])
    requires
        first@ == equation.variable_names@,
        second@ == equation.variable_names@,
    ensures
        first@ == second@,
        name_views(first@) == equation.spec_variables(),
{
}

} // verus!
