use whetstone::bindings::{self, definitions, Arguments, FunctionBindings, FunctionPointer};
use whetstone::expressions::Expression;
use whetstone::expressions::function::Function;
use whetstone::expressions::number::Number;
use whetstone::expressions::variable::Variable;
use whetstone::text::{self, Characters};
use whetstone::{Equation, Error, ErrorType, NumericType, Outcome};

/// The value kind of the tests: `f32`.
#[derive(Clone, Copy, Debug, PartialEq)]
pub struct Single(pub f32);

impl FunctionBindings for Single {
    fn spec_invoke(_: u32, _: Arguments<Self>) -> Outcome<Self> {
        unreachable!()
    }

    fn invoke(code: u32, args: &[Self]) -> Outcome<Self> {
        match code {
            0 if !args.is_empty() => Ok(Single(args[0].0 + 1.0 / args[0].0)),
            1 => Err(Error { error_type: ErrorType::InternalError, message: "division by zero".to_string() }),
            _ => Err(Error { error_type: ErrorType::SyntaxError, message: format!("no host function {}", code) }),
        }
    }
}

impl NumericType for Single {
    fn spec_from_double_bits(_: u64) -> Self {
        unreachable!()
    }

    fn from_double_bits(bits: u64) -> Self {
        Single(f64::from_bits(bits) as f32)
    }

    fn spec_parse_literal(_: Characters) -> Option<Self> {
        unreachable!()
    }

    fn parse_literal(text: &str) -> Option<Self> {
        text.parse::<f32>().ok().map(Single)
    }

    fn spec_neg(self) -> Self {
        unreachable!()
    }

    fn neg(self) -> Self {
        Single(-self.0)
    }

    fn spec_sqrt(self) -> Self {
        unreachable!()
    }

    fn sqrt(self) -> Self {
        Single(self.0.sqrt())
    }

    fn spec_sin(self) -> Self {
        unreachable!()
    }

    fn sin(self) -> Self {
        Single(self.0.sin())
    }

    fn spec_cos(self) -> Self {
        unreachable!()
    }

    fn cos(self) -> Self {
        Single(self.0.cos())
    }

    fn spec_tan(self) -> Self {
        unreachable!()
    }

    fn tan(self) -> Self {
        Single(self.0.tan())
    }

    fn spec_asin(self) -> Self {
        unreachable!()
    }

    fn asin(self) -> Self {
        Single(self.0.asin())
    }

    fn spec_acos(self) -> Self {
        unreachable!()
    }

    fn acos(self) -> Self {
        Single(self.0.acos())
    }

    fn spec_atan(self) -> Self {
        unreachable!()
    }

    fn atan(self) -> Self {
        Single(self.0.atan())
    }

    fn spec_sinh(self) -> Self {
        unreachable!()
    }

    fn sinh(self) -> Self {
        Single(self.0.sinh())
    }

    fn spec_cosh(self) -> Self {
        unreachable!()
    }

    fn cosh(self) -> Self {
        Single(self.0.cosh())
    }

    fn spec_tanh(self) -> Self {
        unreachable!()
    }

    fn tanh(self) -> Self {
        Single(self.0.tanh())
    }

    fn spec_asinh(self) -> Self {
        unreachable!()
    }

    fn asinh(self) -> Self {
        Single(self.0.asinh())
    }

    fn spec_acosh(self) -> Self {
        unreachable!()
    }

    fn acosh(self) -> Self {
        Single(self.0.acosh())
    }

    fn spec_atanh(self) -> Self {
        unreachable!()
    }

    fn atanh(self) -> Self {
        Single(self.0.atanh())
    }

    fn spec_ln(self) -> Self {
        unreachable!()
    }

    fn ln(self) -> Self {
        Single(self.0.ln())
    }

    fn spec_log10(self) -> Self {
        unreachable!()
    }

    fn log10(self) -> Self {
        Single(self.0.log10())
    }

    fn spec_abs(self) -> Self {
        unreachable!()
    }

    fn abs(self) -> Self {
        Single(self.0.abs())
    }

    fn spec_ceil(self) -> Self {
        unreachable!()
    }

    fn ceil(self) -> Self {
        Single(self.0.ceil())
    }

    fn spec_floor(self) -> Self {
        unreachable!()
    }

    fn floor(self) -> Self {
        Single(self.0.floor())
    }

    fn spec_round(self) -> Self {
        unreachable!()
    }

    fn round(self) -> Self {
        Single(self.0.round())
    }

    fn spec_plus(self, _: Self) -> Self {
        unreachable!()
    }

    fn plus(self, rhs: Self) -> Self {
        Single(self.0 + rhs.0)
    }

    fn spec_minus(self, _: Self) -> Self {
        unreachable!()
    }

    fn minus(self, rhs: Self) -> Self {
        Single(self.0 - rhs.0)
    }

    fn spec_times(self, _: Self) -> Self {
        unreachable!()
    }

    fn times(self, rhs: Self) -> Self {
        Single(self.0 * rhs.0)
    }

    fn spec_over(self, _: Self) -> Self {
        unreachable!()
    }

    fn over(self, rhs: Self) -> Self {
        Single(self.0 / rhs.0)
    }

    fn spec_modulo(self, _: Self) -> Self {
        unreachable!()
    }

    fn modulo(self, rhs: Self) -> Self {
        Single(self.0 % rhs.0)
    }

    fn spec_powf(self, _: Self) -> Self {
        unreachable!()
    }

    fn powf(self, rhs: Self) -> Self {
        Single(self.0.powf(rhs.0))
    }

    fn spec_min(self, _: Self) -> Self {
        unreachable!()
    }

    fn min(self, rhs: Self) -> Self {
        Single(self.0.min(rhs.0))
    }

    fn spec_max(self, _: Self) -> Self {
        unreachable!()
    }

    fn max(self, rhs: Self) -> Self {
        Single(self.0.max(rhs.0))
    }
}

/// The value kind of the tests: `f64`.
#[derive(Clone, Copy, Debug, PartialEq)]
pub struct Double(pub f64);

impl FunctionBindings for Double {
    fn spec_invoke(_: u32, _: Arguments<Self>) -> Outcome<Self> {
        unreachable!()
    }

    fn invoke(code: u32, args: &[Self]) -> Outcome<Self> {
        match code {
            0 if !args.is_empty() => Ok(Double(args[0].0 + 1.0 / args[0].0)),
            1 => Err(Error { error_type: ErrorType::InternalError, message: "division by zero".to_string() }),
            _ => Err(Error { error_type: ErrorType::SyntaxError, message: format!("no host function {}", code) }),
        }
    }
}

impl NumericType for Double {
    fn spec_from_double_bits(_: u64) -> Self {
        unreachable!()
    }

    fn from_double_bits(bits: u64) -> Self {
        Double(f64::from_bits(bits) as f64)
    }

    fn spec_parse_literal(_: Characters) -> Option<Self> {
        unreachable!()
    }

    fn parse_literal(text: &str) -> Option<Self> {
        text.parse::<f64>().ok().map(Double)
    }

    fn spec_neg(self) -> Self {
        unreachable!()
    }

    fn neg(self) -> Self {
        Double(-self.0)
    }

    fn spec_sqrt(self) -> Self {
        unreachable!()
    }

    fn sqrt(self) -> Self {
        Double(self.0.sqrt())
    }

    fn spec_sin(self) -> Self {
        unreachable!()
    }

    fn sin(self) -> Self {
        Double(self.0.sin())
    }

    fn spec_cos(self) -> Self {
        unreachable!()
    }

    fn cos(self) -> Self {
        Double(self.0.cos())
    }

    fn spec_tan(self) -> Self {
        unreachable!()
    }

    fn tan(self) -> Self {
        Double(self.0.tan())
    }

    fn spec_asin(self) -> Self {
        unreachable!()
    }

    fn asin(self) -> Self {
        Double(self.0.asin())
    }

    fn spec_acos(self) -> Self {
        unreachable!()
    }

    fn acos(self) -> Self {
        Double(self.0.acos())
    }

    fn spec_atan(self) -> Self {
        unreachable!()
    }

    fn atan(self) -> Self {
        Double(self.0.atan())
    }

    fn spec_sinh(self) -> Self {
        unreachable!()
    }

    fn sinh(self) -> Self {
        Double(self.0.sinh())
    }

    fn spec_cosh(self) -> Self {
        unreachable!()
    }

    fn cosh(self) -> Self {
        Double(self.0.cosh())
    }

    fn spec_tanh(self) -> Self {
        unreachable!()
    }

    fn tanh(self) -> Self {
        Double(self.0.tanh())
    }

    fn spec_asinh(self) -> Self {
        unreachable!()
    }

    fn asinh(self) -> Self {
        Double(self.0.asinh())
    }

    fn spec_acosh(self) -> Self {
        unreachable!()
    }

    fn acosh(self) -> Self {
        Double(self.0.acosh())
    }

    fn spec_atanh(self) -> Self {
        unreachable!()
    }

    fn atanh(self) -> Self {
        Double(self.0.atanh())
    }

    fn spec_ln(self) -> Self {
        unreachable!()
    }

    fn ln(self) -> Self {
        Double(self.0.ln())
    }

    fn spec_log10(self) -> Self {
        unreachable!()
    }

    fn log10(self) -> Self {
        Double(self.0.log10())
    }

    fn spec_abs(self) -> Self {
        unreachable!()
    }

    fn abs(self) -> Self {
        Double(self.0.abs())
    }

    fn spec_ceil(self) -> Self {
        unreachable!()
    }

    fn ceil(self) -> Self {
        Double(self.0.ceil())
    }

    fn spec_floor(self) -> Self {
        unreachable!()
    }

    fn floor(self) -> Self {
        Double(self.0.floor())
    }

    fn spec_round(self) -> Self {
        unreachable!()
    }

    fn round(self) -> Self {
        Double(self.0.round())
    }

    fn spec_plus(self, _: Self) -> Self {
        unreachable!()
    }

    fn plus(self, rhs: Self) -> Self {
        Double(self.0 + rhs.0)
    }

    fn spec_minus(self, _: Self) -> Self {
        unreachable!()
    }

    fn minus(self, rhs: Self) -> Self {
        Double(self.0 - rhs.0)
    }

    fn spec_times(self, _: Self) -> Self {
        unreachable!()
    }

    fn times(self, rhs: Self) -> Self {
        Double(self.0 * rhs.0)
    }

    fn spec_over(self, _: Self) -> Self {
        unreachable!()
    }

    fn over(self, rhs: Self) -> Self {
        Double(self.0 / rhs.0)
    }

    fn spec_modulo(self, _: Self) -> Self {
        unreachable!()
    }

    fn modulo(self, rhs: Self) -> Self {
        Double(self.0 % rhs.0)
    }

    fn spec_powf(self, _: Self) -> Self {
        unreachable!()
    }

    fn powf(self, rhs: Self) -> Self {
        Double(self.0.powf(rhs.0))
    }

    fn spec_min(self, _: Self) -> Self {
        unreachable!()
    }

    fn min(self, rhs: Self) -> Self {
        Double(self.0.min(rhs.0))
    }

    fn spec_max(self, _: Self) -> Self {
        unreachable!()
    }

    fn max(self, rhs: Self) -> Self {
        Double(self.0.max(rhs.0))
    }
}

fn number(value: f32) -> Expression<Single> {
    Expression::Number(Number::new(Single(value)))
}

fn function(label: &str, pointer: FunctionPointer, inputs: usize) -> Expression<Single> {
    Expression::Function(Function::new(label, pointer, inputs))
}

fn kind<T>(result: Result<T, Error>) -> ErrorType {
    match result {
        Ok(_) => panic!("an error was expected"),
        Err(e) => e.error_type,
    }
}

#[test]
fn evaluate_runs_a_postfix_program() {
    let data = vec![
        Expression::Variable(Variable::new("x", 0)),
        number(1.0),
        function("Add", FunctionPointer::Add, 2),
    ];
    let mut eq = Equation::new(data, vec!["x".to_string()]);
    assert_eq!(Single(1.0), eq.evaluate().unwrap());
    *eq.variable("x").unwrap() = Single(2.5);
    assert_eq!(Single(3.5), eq.evaluate().unwrap());
    assert_eq!(vec!["x".to_string()], eq.variables().to_vec());
}

#[test]
fn evaluate_takes_arguments_in_the_order_pushed() {
    let data = vec![number(7.0), number(2.0), function("Subtract", FunctionPointer::Subtract, 2)];
    let eq = Equation::new(data, vec![]);
    assert_eq!(Single(5.0), eq.evaluate().unwrap());
    let data = vec![number(2.0), number(3.0), function("Exponent", FunctionPointer::Exponent, 2)];
    let eq = Equation::new(data, vec![]);
    assert_eq!(Single(8.0), eq.evaluate().unwrap());
}

#[test]
fn evaluate_is_deterministic() {
    let data = vec![
        Expression::Variable(Variable::new("x", 0)),
        function("Sine", FunctionPointer::Sine, 1),
        Expression::Variable(Variable::new("y", 1)),
        function("Multiply", FunctionPointer::Multiply, 2),
    ];
    let mut eq = Equation::new(data, vec!["x".to_string(), "y".to_string()]);
    *eq.variable("x").unwrap() = Single(0.3);
    *eq.variable("y").unwrap() = Single(4.0);
    let first = eq.evaluate().unwrap();
    let second = eq.evaluate().unwrap();
    assert_eq!(first, second);
    assert_eq!(Single(0.3f32.sin() * 4.0), first);
}

#[test]
fn empty_program_is_not_initialised() {
    let eq: Equation<Single> = Equation::new(vec![], vec![]);
    assert_eq!(ErrorType::NotInitialisedError, kind(eq.evaluate()));
}

#[test]
fn function_with_too_few_inputs_is_a_syntax_error() {
    let eq = Equation::new(vec![number(1.0), function("Add", FunctionPointer::Add, 2)], vec![]);
    let error = eq.evaluate().unwrap_err();
    assert_eq!(ErrorType::SyntaxError, error.error_type);
    assert_eq!("Function Add requires 2 inputs but the output stack contains 1", error.message);
}

#[test]
fn function_atom_takes_its_arity_and_leaves_one_value() {
    // three values, then a function of two: two values are left, so a second function of two ends in one
    let data = vec![
        number(1.0),
        number(2.0),
        number(3.0),
        function("Add", FunctionPointer::Add, 2),
        function("Multiply", FunctionPointer::Multiply, 2),
    ];
    assert_eq!(Single(5.0), Equation::new(data, vec![]).evaluate().unwrap());
}

#[test]
fn more_than_one_value_left_is_a_syntax_error() {
    let eq = Equation::new(vec![number(1.0), number(2.0)], vec![]);
    let error = eq.evaluate().unwrap_err();
    assert_eq!(ErrorType::SyntaxError, error.error_type);
    assert_eq!("Equation does not evaluate to a single value", error.message);
}

#[test]
fn binding_with_wrong_argument_count_is_an_internal_error() {
    let add = Function::new("Add", FunctionPointer::Add, 2);
    assert_eq!(ErrorType::InternalError, kind(add.evaluate(&[Single(1.0)])));
    assert_eq!(Single(3.0), add.evaluate(&[Single(1.0), Single(2.0)]).unwrap());
    // a binding registered with fewer inputs than its function reads
    let short = Function::new("Short", FunctionPointer::Add, 1);
    assert_eq!(ErrorType::InternalError, kind(short.evaluate(&[Single(1.0)])));
}

#[test]
fn host_function_errors_come_back_unchanged() {
    let failing = Function::new("Fails", FunctionPointer::Custom(1), 0);
    let error = failing.evaluate::<Single>(&[]).unwrap_err();
    assert_eq!(ErrorType::InternalError, error.error_type);
    assert_eq!("division by zero", error.message);
    let eq = Equation::new(vec![Expression::<Single>::Function(failing)], vec![]);
    assert_eq!("division by zero", eq.evaluate().unwrap_err().message);
}

#[test]
fn unknown_variable_is_a_variable_access_error() {
    let mut eq = Equation::new(vec![Expression::<Single>::Variable(Variable::new("x", 0))], vec!["x".to_string()]);
    assert_eq!(ErrorType::VariableAccessError, kind(eq.variable("y").map(|_| ())));
    assert!(eq.variable("x").is_ok());
}

#[test]
fn built_in_definitions_compute_their_formulas() {
    let a = Single(7.5);
    let b = Single(2.0);
    assert_eq!(Single(9.5), definitions::add(&[a, b]).unwrap());
    assert_eq!(Single(5.5), definitions::subtract(&[a, b]).unwrap());
    assert_eq!(Single(15.0), definitions::multiply(&[a, b]).unwrap());
    assert_eq!(Single(3.75), definitions::divide(&[a, b]).unwrap());
    assert_eq!(Single(56.25), definitions::exponent(&[a, b]).unwrap());
    assert_eq!(Single(1.5), definitions::modulo(&[a, b]).unwrap());
    assert_eq!(Single(2.0), definitions::min(&[a, b]).unwrap());
    assert_eq!(Single(7.5), definitions::max(&[a, b]).unwrap());
    assert_eq!(Single(-7.5), definitions::negate(&[a]).unwrap());
    assert_eq!(Single(3.0), definitions::sqrt(&[Single(9.0)]).unwrap());
    assert_eq!(Single(7.5), definitions::abs(&[Single(-7.5)]).unwrap());
    assert_eq!(Single(8.0), definitions::ceiling(&[a]).unwrap());
    assert_eq!(Single(7.0), definitions::floor(&[a]).unwrap());
    assert_eq!(Single(8.0), definitions::round(&[a]).unwrap());
    assert_eq!(Single(3.0), definitions::log10(&[Single(1000.0)]).unwrap());
    assert_eq!(Single(0.0), definitions::log(&[Single(1.0)]).unwrap());
    assert_eq!(Single(std::f32::consts::PI), definitions::pi::<Single>(&[]).unwrap());
    assert_eq!(Single(std::f32::consts::E), definitions::euler::<Single>(&[]).unwrap());
    assert_eq!(Double(std::f64::consts::PI), definitions::pi::<Double>(&[]).unwrap());
}

#[test]
fn trigonometric_definitions_compute_their_formulas() {
    let x = Double(0.4);
    assert_eq!(Double(0.4f64.sin()), definitions::sine(&[x]).unwrap());
    assert_eq!(Double(0.4f64.cos()), definitions::cosine(&[x]).unwrap());
    assert_eq!(Double(0.4f64.tan()), definitions::tangent(&[x]).unwrap());
    assert_eq!(Double(0.4f64.asin()), definitions::inverse_sine(&[x]).unwrap());
    assert_eq!(Double(0.4f64.acos()), definitions::inverse_cosine(&[x]).unwrap());
    assert_eq!(Double(0.4f64.atan()), definitions::inverse_tangent(&[x]).unwrap());
    assert_eq!(Double(0.4f64.sinh()), definitions::hyperbolic_sine(&[x]).unwrap());
    assert_eq!(Double(0.4f64.cosh()), definitions::hyperbolic_cosine(&[x]).unwrap());
    assert_eq!(Double(0.4f64.tanh()), definitions::hyperbolic_tangent(&[x]).unwrap());
    assert_eq!(Double(0.4f64.asinh()), definitions::inverse_hyperbolic_sine(&[x]).unwrap());
    assert_eq!(Double(1.4f64.acosh()), definitions::inverse_hyperbolic_cosine(&[Double(1.4)]).unwrap());
    assert_eq!(Double(0.4f64.atanh()), definitions::inverse_hyperbolic_tangent(&[x]).unwrap());
    assert_eq!(Double(0.4f64.sin().powf(-1.0)), definitions::cosecant(&[x]).unwrap());
    assert_eq!(Double(0.4f64.cos().powf(-1.0)), definitions::secant(&[x]).unwrap());
    assert_eq!(Double(0.4f64.tan().powf(-1.0)), definitions::cotangent(&[x]).unwrap());
}

#[test]
fn function_pointer_calls_its_definition() {
    assert_eq!(Single(6.0), FunctionPointer::Multiply.call(&[Single(2.0), Single(3.0)]).unwrap());
    assert_eq!(ErrorType::InternalError, kind(FunctionPointer::Multiply.call(&[Single(2.0)])));
    assert_eq!(Single(2.5), FunctionPointer::Custom(0).call(&[Single(2.0)]).unwrap());
    assert_eq!(2, FunctionPointer::Max.min_inputs());
    assert_eq!(0, FunctionPointer::Pi.min_inputs());
    assert_eq!(1, FunctionPointer::Sine.min_inputs());
}

#[test]
fn built_in_registry_holds_the_standard_set() {
    let registry = bindings::get_bindings();
    assert_eq!(33, registry.len());
    for (label, arity) in [
        ("Pi", 0),
        ("Euler", 0),
        ("Add", 2),
        ("Subtract", 2),
        ("Multiply", 2),
        ("Divide", 2),
        ("Exponent", 2),
        ("Modulus", 2),
        ("Negate", 1),
        ("SquareRoot", 1),
        ("Sine", 1),
        ("Cosine", 1),
        ("Tangent", 1),
        ("Arcsine", 1),
        ("Arccosine", 1),
        ("Arctangent", 1),
        ("HypSine", 1),
        ("HypCosine", 1),
        ("HypTangent", 1),
        ("InvHypSine", 1),
        ("InvHypCosine", 1),
        ("InvHypTangent", 1),
        ("Cosecant", 1),
        ("Secant", 1),
        ("Cotangent", 1),
        ("LogBaseE", 1),
        ("LogBase10", 1),
        ("Abs", 1),
        ("Ceiling", 1),
        ("Floor", 1),
        ("Round", 1),
        ("Min", 2),
        ("Max", 2),
    ] {
        let binding = registry.get_binding(label).unwrap();
        assert_eq!(label, binding.label);
        assert_eq!(arity, binding.num_inputs());
    }
    assert!(registry.get_binding("add").is_none());
    assert_eq!(FunctionPointer::Modulus, registry.get_binding("Modulus").unwrap().function);
}

#[test]
fn registering_a_label_twice_is_a_binding_error() {
    let mut registry = bindings::get_bindings();
    let first: &[(&str, FunctionPointer, usize)] = &[("Mine", FunctionPointer::Custom(0), 1)];
    bindings::register_bindings(&mut registry, first).unwrap();
    assert_eq!(34, registry.len());
    assert_eq!(ErrorType::BindingError, kind(bindings::register_bindings(&mut registry, first)));
    assert_eq!(34, registry.len());
    // a built-in label is taken too
    let builtin: &[(&str, FunctionPointer, usize)] = &[("Add", FunctionPointer::Custom(0), 2)];
    assert_eq!(ErrorType::BindingError, kind(registry.register_bindings(builtin)));
    // the requests before the refused one stay, those after it are not looked at
    let mixed: &[(&str, FunctionPointer, usize)] = &[
        ("One", FunctionPointer::Custom(0), 1),
        ("Mine", FunctionPointer::Custom(0), 1),
        ("Two", FunctionPointer::Custom(0), 1),
    ];
    assert_eq!(ErrorType::BindingError, kind(registry.register_bindings(mixed)));
    assert!(registry.contains_key("One"));
    assert!(!registry.contains_key("Two"));
    assert_eq!(35, registry.len());
}

#[test]
fn decimal_writes_numerals() {
    assert_eq!("0", text::decimal(0));
    assert_eq!("7", text::decimal(7));
    assert_eq!("10", text::decimal(10));
    assert_eq!("4096", text::decimal(4096));
    assert!(text::same_text("abc", "abc"));
    assert!(!text::same_text("abc", "abd"));
}
