use whetstone::bindings::{self, Arguments, FunctionBindings, FunctionPointer};
use whetstone::syntax::{self, Category, RuleDefinition, Syntax};
use whetstone::text::Characters;
use whetstone::{Equation, Error, ErrorType, NumericType, Outcome, Parser};

/// The value kind of the tests: `f32`.
#[derive(Clone, Copy, Debug, PartialEq)]
pub struct Single(pub f32);

impl FunctionBindings for Single {
    fn spec_invoke(_: u32, _: Arguments<Self>) -> Outcome<Self> {
        unreachable!()
    }

    fn invoke(code: u32, args: &[Self]) -> Outcome<Self> {
        match code {
            0 if !args.is_empty() => Ok(Single(args[0].0 + 1.0 / args[0].0)),
            1 => Err(Error { error_type: ErrorType::InternalError, message: "division by zero".to_string() }),
            _ => Err(Error { error_type: ErrorType::SyntaxError, message: format!("no host function {}", code) }),
        }
    }
}

impl NumericType for Single {
    fn spec_from_double_bits(_: u64) -> Self {
        unreachable!()
    }

    fn from_double_bits(bits: u64) -> Self {
        Single(f64::from_bits(bits) as f32)
    }

    fn spec_parse_literal(_: Characters) -> Option<Self> {
        unreachable!()
    }

    fn parse_literal(text: &str) -> Option<Self> {
        text.parse::<f32>().ok().map(Single)
    }

    fn spec_neg(self) -> Self {
        unreachable!()
    }

    fn neg(self) -> Self {
        Single(-self.0)
    }

    fn spec_sqrt(self) -> Self {
        unreachable!()
    }

    fn sqrt(self) -> Self {
        Single(self.0.sqrt())
    }

    fn spec_sin(self) -> Self {
        unreachable!()
    }

    fn sin(self) -> Self {
        Single(self.0.sin())
    }

    fn spec_cos(self) -> Self {
        unreachable!()
    }

    fn cos(self) -> Self {
        Single(self.0.cos())
    }

    fn spec_tan(self) -> Self {
        unreachable!()
    }

    fn tan(self) -> Self {
        Single(self.0.tan())
    }

    fn spec_asin(self) -> Self {
        unreachable!()
    }

    fn asin(self) -> Self {
        Single(self.0.asin())
    }

    fn spec_acos(self) -> Self {
        unreachable!()
    }

    fn acos(self) -> Self {
        Single(self.0.acos())
    }

    fn spec_atan(self) -> Self {
        unreachable!()
    }

    fn atan(self) -> Self {
        Single(self.0.atan())
    }

    fn spec_sinh(self) -> Self {
        unreachable!()
    }

    fn sinh(self) -> Self {
        Single(self.0.sinh())
    }

    fn spec_cosh(self) -> Self {
        unreachable!()
    }

    fn cosh(self) -> Self {
        Single(self.0.cosh())
    }

    fn spec_tanh(self) -> Self {
        unreachable!()
    }

    fn tanh(self) -> Self {
        Single(self.0.tanh())
    }

    fn spec_asinh(self) -> Self {
        unreachable!()
    }

    fn asinh(self) -> Self {
        Single(self.0.asinh())
    }

    fn spec_acosh(self) -> Self {
        unreachable!()
    }

    fn acosh(self) -> Self {
        Single(self.0.acosh())
    }

    fn spec_atanh(self) -> Self {
        unreachable!()
    }

    fn atanh(self) -> Self {
        Single(self.0.atanh())
    }

    fn spec_ln(self) -> Self {
        unreachable!()
    }

    fn ln(self) -> Self {
        Single(self.0.ln())
    }

    fn spec_log10(self) -> Self {
        unreachable!()
    }

    fn log10(self) -> Self {
        Single(self.0.log10())
    }

    fn spec_abs(self) -> Self {
        unreachable!()
    }

    fn abs(self) -> Self {
        Single(self.0.abs())
    }

    fn spec_ceil(self) -> Self {
        unreachable!()
    }

    fn ceil(self) -> Self {
        Single(self.0.ceil())
    }

    fn spec_floor(self) -> Self {
        unreachable!()
    }

    fn floor(self) -> Self {
        Single(self.0.floor())
    }

    fn spec_round(self) -> Self {
        unreachable!()
    }

    fn round(self) -> Self {
        Single(self.0.round())
    }

    fn spec_plus(self, _: Self) -> Self {
        unreachable!()
    }

    fn plus(self, rhs: Self) -> Self {
        Single(self.0 + rhs.0)
    }

    fn spec_minus(self, _: Self) -> Self {
        unreachable!()
    }

    fn minus(self, rhs: Self) -> Self {
        Single(self.0 - rhs.0)
    }

    fn spec_times(self, _: Self) -> Self {
        unreachable!()
    }

    fn times(self, rhs: Self) -> Self {
        Single(self.0 * rhs.0)
    }

    fn spec_over(self, _: Self) -> Self {
        unreachable!()
    }

    fn over(self, rhs: Self) -> Self {
        Single(self.0 / rhs.0)
    }

    fn spec_modulo(self, _: Self) -> Self {
        unreachable!()
    }

    fn modulo(self, rhs: Self) -> Self {
        Single(self.0 % rhs.0)
    }

    fn spec_powf(self, _: Self) -> Self {
        unreachable!()
    }

    fn powf(self, rhs: Self) -> Self {
        Single(self.0.powf(rhs.0))
    }

    fn spec_min(self, _: Self) -> Self {
        unreachable!()
    }

    fn min(self, rhs: Self) -> Self {
        Single(self.0.min(rhs.0))
    }

    fn spec_max(self, _: Self) -> Self {
        unreachable!()
    }

    fn max(self, rhs: Self) -> Self {
        Single(self.0.max(rhs.0))
    }
}

/// The value kind of the tests: `f64`.
#[derive(Clone, Copy, Debug, PartialEq)]
pub struct Double(pub f64);

impl FunctionBindings for Double {
    fn spec_invoke(_: u32, _: Arguments<Self>) -> Outcome<Self> {
        unreachable!()
    }

    fn invoke(code: u32, args: &[Self]) -> Outcome<Self> {
        match code {
            0 if !args.is_empty() => Ok(Double(args[0].0 + 1.0 / args[0].0)),
            1 => Err(Error { error_type: ErrorType::InternalError, message: "division by zero".to_string() }),
            _ => Err(Error { error_type: ErrorType::SyntaxError, message: format!("no host function {}", code) }),
        }
    }
}

impl NumericType for Double {
    fn spec_from_double_bits(_: u64) -> Self {
        unreachable!()
    }

    fn from_double_bits(bits: u64) -> Self {
        Double(f64::from_bits(bits) as f64)
    }

    fn spec_parse_literal(_: Characters) -> Option<Self> {
        unreachable!()
    }

    fn parse_literal(text: &str) -> Option<Self> {
        text.parse::<f64>().ok().map(Double)
    }

    fn spec_neg(self) -> Self {
        unreachable!()
    }

    fn neg(self) -> Self {
        Double(-self.0)
    }

    fn spec_sqrt(self) -> Self {
        unreachable!()
    }

    fn sqrt(self) -> Self {
        Double(self.0.sqrt())
    }

    fn spec_sin(self) -> Self {
        unreachable!()
    }

    fn sin(self) -> Self {
        Double(self.0.sin())
    }

    fn spec_cos(self) -> Self {
        unreachable!()
    }

    fn cos(self) -> Self {
        Double(self.0.cos())
    }

    fn spec_tan(self) -> Self {
        unreachable!()
    }

    fn tan(self) -> Self {
        Double(self.0.tan())
    }

    fn spec_asin(self) -> Self {
        unreachable!()
    }

    fn asin(self) -> Self {
        Double(self.0.asin())
    }

    fn spec_acos(self) -> Self {
        unreachable!()
    }

    fn acos(self) -> Self {
        Double(self.0.acos())
    }

    fn spec_atan(self) -> Self {
        unreachable!()
    }

    fn atan(self) -> Self {
        Double(self.0.atan())
    }

    fn spec_sinh(self) -> Self {
        unreachable!()
    }

    fn sinh(self) -> Self {
        Double(self.0.sinh())
    }

    fn spec_cosh(self) -> Self {
        unreachable!()
    }

    fn cosh(self) -> Self {
        Double(self.0.cosh())
    }

    fn spec_tanh(self) -> Self {
        unreachable!()
    }

    fn tanh(self) -> Self {
        Double(self.0.tanh())
    }

    fn spec_asinh(self) -> Self {
        unreachable!()
    }

    fn asinh(self) -> Self {
        Double(self.0.asinh())
    }

    fn spec_acosh(self) -> Self {
        unreachable!()
    }

    fn acosh(self) -> Self {
        Double(self.0.acosh())
    }

    fn spec_atanh(self) -> Self {
        unreachable!()
    }

    fn atanh(self) -> Self {
        Double(self.0.atanh())
    }

    fn spec_ln(self) -> Self {
        unreachable!()
    }

    fn ln(self) -> Self {
        Double(self.0.ln())
    }

    fn spec_log10(self) -> Self {
        unreachable!()
    }

    fn log10(self) -> Self {
        Double(self.0.log10())
    }

    fn spec_abs(self) -> Self {
        unreachable!()
    }

    fn abs(self) -> Self {
        Double(self.0.abs())
    }

    fn spec_ceil(self) -> Self {
        unreachable!()
    }

    fn ceil(self) -> Self {
        Double(self.0.ceil())
    }

    fn spec_floor(self) -> Self {
        unreachable!()
    }

    fn floor(self) -> Self {
        Double(self.0.floor())
    }

    fn spec_round(self) -> Self {
        unreachable!()
    }

    fn round(self) -> Self {
        Double(self.0.round())
    }

    fn spec_plus(self, _: Self) -> Self {
        unreachable!()
    }

    fn plus(self, rhs: Self) -> Self {
        Double(self.0 + rhs.0)
    }

    fn spec_minus(self, _: Self) -> Self {
        unreachable!()
    }

    fn minus(self, rhs: Self) -> Self {
        Double(self.0 - rhs.0)
    }

    fn spec_times(self, _: Self) -> Self {
        unreachable!()
    }

    fn times(self, rhs: Self) -> Self {
        Double(self.0 * rhs.0)
    }

    fn spec_over(self, _: Self) -> Self {
        unreachable!()
    }

    fn over(self, rhs: Self) -> Self {
        Double(self.0 / rhs.0)
    }

    fn spec_modulo(self, _: Self) -> Self {
        unreachable!()
    }

    fn modulo(self, rhs: Self) -> Self {
        Double(self.0 % rhs.0)
    }

    fn spec_powf(self, _: Self) -> Self {
        unreachable!()
    }

    fn powf(self, rhs: Self) -> Self {
        Double(self.0.powf(rhs.0))
    }

    fn spec_min(self, _: Self) -> Self {
        unreachable!()
    }

    fn min(self, rhs: Self) -> Self {
        Double(self.0.min(rhs.0))
    }

    fn spec_max(self, _: Self) -> Self {
        unreachable!()
    }

    fn max(self, rhs: Self) -> Self {
        Double(self.0.max(rhs.0))
    }
}

fn assert_near(left: f64, right: f64) {
    if (left - right).abs() > 0.00001 {
        panic!("{} and {} not similar", left, right);
    }
}

fn single(eq: &Equation<Single>) -> f64 {
    eq.evaluate().unwrap().0 as f64
}

fn double(eq: &Equation<Double>) -> f64 {
    eq.evaluate().unwrap().0
}

#[test]
fn test_standard_syntax() {
    let factory = Parser::<Single>::new(Syntax::Standard).unwrap();

    assert_eq!(Single(1.0), factory.parse("x+1").unwrap().evaluate().unwrap());

    let mut eq = factory.parse("x/x+x*x-x^x").unwrap();
    assert_eq!(1, eq.variables().len());
    *eq.variable("x").unwrap() = Single(2.0);
    assert_eq!(Single(1.0), eq.evaluate().unwrap());

    let eq = factory.parse("pi^(e+-2)").unwrap();
    assert_eq!(0, eq.variables().len());
    assert_near(2.275588444, single(&eq));

    let mut eq = factory.parse("   max(3*x, 3*y) %min(x,y) ").unwrap();
    assert_eq!(2, eq.variables().len());
    *eq.variable("x").unwrap() = Single(2.0);
    *eq.variable("y").unwrap() = Single(3.0);
    assert_eq!(Single(9.0 % 2.0), eq.evaluate().unwrap());

    let mut eq = factory
        .parse("sin x + cos(x) + tan(x)+asin(x)+(acos x+atan(x))+sec(x)+csc(x)+cot(x)")
        .unwrap();
    *eq.variable("x").unwrap() = Single(0.9);
    assert_near(8.64759, single(&eq));

    let eq = factory.parse("sinh cosh tanh( arsinh(arcosh(artanh 0.9 )) )").unwrap();
    assert_near(1.58882938089, single(&eq));

    let mut eq = factory
        .parse("sqrt{sinewave} + ln sinewave / log [10.0^sinewave] - ln(e)")
        .unwrap();
    assert_eq!(1, eq.variables().len());
    *eq.variable("sinewave").unwrap() = Single(2.0);
    assert_near(0.7607871527, single(&eq));

    let mut eq = factory
        .parse("mod(4, abs(-3)) + round(x) + floor(x) + ceil(x-0.5)")
        .unwrap();
    assert_eq!(1, eq.variables().len());
    *eq.variable("x").unwrap() = Single(1.7);
    assert_near(6.0, single(&eq));

    let mut eq = factory.parse("2x+pi y").unwrap();
    assert_eq!(2, eq.variables().len());
    *eq.variable("x").unwrap() = Single(2.0);
    *eq.variable("y").unwrap() = Single(1.0);
    assert_near(7.14159265, single(&eq));
}

#[test]
fn test_latex_syntax() {
    let factory = Parser::<Double>::new(Syntax::LaTeX).unwrap();

    assert_eq!(Double(1.0), factory.parse("x+1").unwrap().evaluate().unwrap());

    let mut eq = factory.parse("x/x+x*x-x^x").unwrap();
    assert_eq!(1, eq.variables().len());
    *eq.variable("x").unwrap() = Double(2.0);
    assert_eq!(Double(1.0), eq.evaluate().unwrap());

    let mut eq = factory
        .parse("x\\times x \\ast x \\cdot x \\cdotp x \\centerdot x")
        .unwrap();
    assert_eq!(1, eq.variables().len());
    *eq.variable("x").unwrap() = Double(2.0);
    assert_eq!(Double(2.0f64.powf(6.0)), eq.evaluate().unwrap());

    let mut eq = factory
        .parse("1 \\div \\left( 1 \\over \\phi \\right)")
        .unwrap();
    assert_eq!(1, eq.variables().len());
    *eq.variable("\\phi").unwrap() = Double(10.0);
    assert_eq!(Double(10.0), eq.evaluate().unwrap());

    let mut eq = factory
        .parse("\\Bigg(\\bigg(\\Big(\\alpha \\mod \\beta\\Big) \\bmod \\gamma\\bigg) \\pmod 2.0\\Bigg)")
        .unwrap();
    assert_eq!(3, eq.variables().len());
    *eq.variable("\\alpha").unwrap() = Double(24.0);
    *eq.variable("\\beta").unwrap() = Double(13.0);
    *eq.variable("\\gamma").unwrap() = Double(6.0);
    assert_eq!(Double(1.0), eq.evaluate().unwrap());

    let eq = factory.parse("\\pi^(e+-2)").unwrap();
    assert_eq!(0, eq.variables().len());
    assert_near(2.275588444, double(&eq));

    let mut eq = factory.parse("   \\max\\{3x, 3y\\} + \\min{x,y} ").unwrap();
    assert_eq!(2, eq.variables().len());
    *eq.variable("x").unwrap() = Double(2.0);
    *eq.variable("y").unwrap() = Double(3.0);
    assert_eq!(Double(11.0), eq.evaluate().unwrap());

    let mut eq = factory
        .parse("\\sin x + \\cos[x] + \\tan\\lang x\\rang+\\arcsin\\big( x\\big)+\\left(\\arccos\\big[x\\big]+\\arctan\\Big[x\\Big]\\right)+\\sec\\bigg[x\\bigg]+\\csc\\Bigg[x\\Bigg]+\\cot\\left[ x\\right]")
        .unwrap();
    *eq.variable("x").unwrap() = Double(0.9);
    assert_near(8.64759, double(&eq));

    let eq = factory
        .parse("\\sinh \\cosh \\tanh\\left{ \\operatorname{arsinh}(\\operatorname*{arcosh}(\\operatorname{artanh} 0.9 )) \\right}")
        .unwrap();
    assert_near(1.58882938089, double(&eq));

    let mut eq = factory
        .parse("\\sqrt{ \\sinewave }\\, + \\log\\, \\sinewave / \\log_10 [10.0^\\sinewave] - \\ln(e)")
        .unwrap();
    assert_eq!(1, eq.variables().len());
    *eq.variable("\\sinewave").unwrap() = Double(2.0);
    assert_near(0.7607871527, double(&eq));

    let mut eq = factory
        .parse("\\operatorname{round}(x) + \\operatorname{floor}(x) + \\operatorname{ceil}(x-0.5)")
        .unwrap();
    assert_eq!(1, eq.variables().len());
    *eq.variable("x").unwrap() = Double(1.7);
    assert_near(5.0, double(&eq));
}

#[test]
fn test_order_of_operations() {
    let factory = Parser::<Single>::new(Syntax::Standard).unwrap();

    assert_eq!(Single(8.0), factory.parse("2*(2+2)").unwrap().evaluate().unwrap());
    assert_eq!(Single(21.0), factory.parse("(1+2)*(3+4)").unwrap().evaluate().unwrap());
    assert_eq!(Single(6.0), factory.parse("16-5*2").unwrap().evaluate().unwrap());
    assert_eq!(Single(1.0), factory.parse("10-3^2").unwrap().evaluate().unwrap());
    assert_eq!(Single(23.0), factory.parse("40/2+3").unwrap().evaluate().unwrap());
    assert_eq!(Single(21.0), factory.parse("(8-1)*3").unwrap().evaluate().unwrap());
    assert_eq!(Single(24.0), factory.parse("16+4*2").unwrap().evaluate().unwrap());
    assert_eq!(Single(16.0), factory.parse("10+3*2").unwrap().evaluate().unwrap());
    assert_eq!(Single(7.0), factory.parse("8/2+12/4").unwrap().evaluate().unwrap());
    assert_eq!(Single(5.0), factory.parse("3*10/5-1").unwrap().evaluate().unwrap());
    assert_eq!(Single(8.0), factory.parse("6+6/3").unwrap().evaluate().unwrap());
    assert_eq!(Single(20.0), factory.parse("8+3(5-1)").unwrap().evaluate().unwrap());
    assert_eq!(Single(28.0), factory.parse("9*2+20/2").unwrap().evaluate().unwrap());
    assert_eq!(Single(52.0), factory.parse("6*(7+3)-8").unwrap().evaluate().unwrap());
    assert_eq!(Single(42.0), factory.parse("(4+3)*(7-1)").unwrap().evaluate().unwrap());
    assert_eq!(Single(6.0), factory.parse("(7+9-4)/2").unwrap().evaluate().unwrap());
    assert_eq!(Single(41.0), factory.parse("5+4*(2+7)").unwrap().evaluate().unwrap());
    assert_eq!(Single(49.0), factory.parse("(2+5)^2").unwrap().evaluate().unwrap());
    assert_eq!(Single(0.0), factory.parse("10-2*5").unwrap().evaluate().unwrap());
    assert_eq!(Single(1.0), factory.parse("sqrt(10+6)-(1+2)").unwrap().evaluate().unwrap());
    assert_eq!(Single(3.0), factory.parse("sqrt 4 + 1").unwrap().evaluate().unwrap());
}

#[test]
fn test_bracket_matching() {
    let factory = Parser::<Single>::new(Syntax::Standard).unwrap();

    assert_eq!(Single(2.0), factory.parse("(2)").unwrap().evaluate().unwrap());
    assert_eq!(Single(6.0), factory.parse("(2)[3]").unwrap().evaluate().unwrap());

    factory.parse("(2").expect_err("Mistmatched bracket not detected");
    factory.parse("2}").expect_err("Mistmatched bracket not detected");
    factory.parse(")+2").expect_err("Mistmatched bracket not detected");
    factory.parse("(2[)]").expect_err("Invalid use of brackets not detected");
    factory.parse("{2(}2)").expect_err("Invalid use of brackets not detected");
}

#[test]
fn test_bad_syntax() {
    let factory = Parser::<Single>::new(Syntax::Standard).unwrap();

    factory.parse("").expect_err("Should return error for empty equation");
    factory.parse("+").expect_err("Should return error for invalid operator usage");
    factory.parse("2+-").expect_err("Should return error for invalid operator usage");
    factory.parse("sin").expect_err("Should return error for argumentless function");
    factory.parse("2 2 2").expect_err("Should return error for meaningless drivel");
}

#[test]
fn test_modify_syntax() {
    let mut modified_standard: syntax::RuleCollectionDefinition =
        syntax::get_definitions(Syntax::Standard).unwrap();
    let var_rule = &mut modified_standard
        .get_mut(&Category::Variables)
        .unwrap()
        .rules[0];
    var_rule.pattern = Some("x".to_string());
    var_rule.pattern_is_regex = Some(false);

    let factory = Parser::<Single>::from_definitions(modified_standard).unwrap();

    let eq = factory.parse("x+1").unwrap();
    assert_eq!(Single(1.0), eq.evaluate().unwrap());

    factory
        .parse("y+1")
        .expect_err("y should not be considered a valid variable in our modified syntax");
}

#[test]
fn test_new_syntax() {
    const JSON: &str = "{
            \"Operators\": {
                \"may_follow\": [\"Literals\", \"Variables\"],
                \"rules\": [
                    {
                        \"pattern\": \"+\",
                        \"binding\": \"Add\",
                        \"precedence\": 1
                    }
                ]
            },
            \"Literals\": {
                \"may_follow\": [\"Operators\"],
                \"rules\": [
                    {
                        \"pattern\": \"[0-9]+\",
                        \"pattern_is_regex\": true
                    }
                ]
            },
            \"Variables\": {
                \"may_follow\": [\"Operators\"],
                \"rules\": [
                    {
                        \"pattern\": \"x\"
                    }
                ]
            }
        }";
    println!("{}", JSON);
    let factory = Parser::<Single>::from_json(JSON).unwrap();

    let mut eq = factory.parse("2 + x").unwrap();
    *eq.variable("x").unwrap() = Single(3.0);
    assert_eq!(Single(5.0), eq.evaluate().unwrap());

    factory.parse("y").expect_err("y is not a valid variable");
    factory.parse("2*3").expect_err("* operator not defined");
    factory.parse("2.0").expect_err("only integer literals defined");
}

const MY_FUNCTIONS: &[(&str, FunctionPointer, usize)] = &[("CustomFunc", FunctionPointer::Custom(0), 1)];

#[test]
fn test_add_bindings() {
    // register the host function of code 0 under a label of its own
    let mut registry = bindings::get_bindings();
    let _ = bindings::register_bindings(&mut registry, MY_FUNCTIONS).unwrap();

    // modify ruleset to add a function using this binding
    let mut modified_standard: syntax::RuleCollectionDefinition =
        syntax::get_definitions(Syntax::Standard).unwrap();
    let func_rules = &mut modified_standard.get_mut(&Category::Functions).unwrap();
    func_rules.rules.push(RuleDefinition {
        pattern: Some("self_plus_half_self".to_string()),
        pattern_is_regex: Some(false),
        precedence: Some(1),
        associativity: Some(syntax::Associativity::LeftToRight),
        binding: Some("CustomFunc".to_string()),
        may_follow: None,
        context: None,
    });

    // create parser using modified ruleset
    let factory = Parser::<Single>::with_bindings(modified_standard, &registry).unwrap();

    // parse equation using new binding
    let eq = factory.parse("self_plus_half_self(2)").unwrap();
    assert_eq!(Single(2.5), eq.evaluate().unwrap());
}
