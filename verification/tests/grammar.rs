use whetstone::bindings::{self, Arguments, FunctionBindings, FunctionPointer};
use whetstone::syntax::decode;
use whetstone::syntax::json::{self, JsonValue};
use whetstone::syntax::members;
use whetstone::syntax::ruleset::Ruleset;
use whetstone::syntax::{
    self, Associativity, Category, RuleCategoryDefinition, RuleCollectionDefinition, RuleDefinition, Syntax,
};
use whetstone::text::Characters;
use whetstone::tokenizer;
use whetstone::{Error, ErrorType, NumericType, Outcome, Parser};

/// The value kind of the tests: `f64`.
#[derive(Clone, Copy, Debug, PartialEq)]
pub struct Double(pub f64);

impl FunctionBindings for Double {
    fn spec_invoke(_: u32, _: Arguments<Self>) -> Outcome<Self> {
        unreachable!()
    }

    fn invoke(code: u32, args: &[Self]) -> Outcome<Self> {
        match code {
            0 if !args.is_empty() => Ok(Double(args[0].0 + 1.0 / args[0].0)),
            1 => Err(Error { error_type: ErrorType::InternalError, message: "division by zero".to_string() }),
            _ => Err(Error { error_type: ErrorType::SyntaxError, message: format!("no host function {}", code) }),
        }
    }
}

impl NumericType for Double {
    fn spec_from_double_bits(_: u64) -> Self {
        unreachable!()
    }

    fn from_double_bits(bits: u64) -> Self {
        Double(f64::from_bits(bits) as f64)
    }

    fn spec_parse_literal(_: Characters) -> Option<Self> {
        unreachable!()
    }

    fn parse_literal(text: &str) -> Option<Self> {
        text.parse::<f64>().ok().map(Double)
    }

    fn spec_neg(self) -> Self {
        unreachable!()
    }

    fn neg(self) -> Self {
        Double(-self.0)
    }

    fn spec_sqrt(self) -> Self {
        unreachable!()
    }

    fn sqrt(self) -> Self {
        Double(self.0.sqrt())
    }

    fn spec_sin(self) -> Self {
        unreachable!()
    }

    fn sin(self) -> Self {
        Double(self.0.sin())
    }

    fn spec_cos(self) -> Self {
        unreachable!()
    }

    fn cos(self) -> Self {
        Double(self.0.cos())
    }

    fn spec_tan(self) -> Self {
        unreachable!()
    }

    fn tan(self) -> Self {
        Double(self.0.tan())
    }

    fn spec_asin(self) -> Self {
        unreachable!()
    }

    fn asin(self) -> Self {
        Double(self.0.asin())
    }

    fn spec_acos(self) -> Self {
        unreachable!()
    }

    fn acos(self) -> Self {
        Double(self.0.acos())
    }

    fn spec_atan(self) -> Self {
        unreachable!()
    }

    fn atan(self) -> Self {
        Double(self.0.atan())
    }

    fn spec_sinh(self) -> Self {
        unreachable!()
    }

    fn sinh(self) -> Self {
        Double(self.0.sinh())
    }

    fn spec_cosh(self) -> Self {
        unreachable!()
    }

    fn cosh(self) -> Self {
        Double(self.0.cosh())
    }

    fn spec_tanh(self) -> Self {
        unreachable!()
    }

    fn tanh(self) -> Self {
        Double(self.0.tanh())
    }

    fn spec_asinh(self) -> Self {
        unreachable!()
    }

    fn asinh(self) -> Self {
        Double(self.0.asinh())
    }

    fn spec_acosh(self) -> Self {
        unreachable!()
    }

    fn acosh(self) -> Self {
        Double(self.0.acosh())
    }

    fn spec_atanh(self) -> Self {
        unreachable!()
    }

    fn atanh(self) -> Self {
        Double(self.0.atanh())
    }

    fn spec_ln(self) -> Self {
        unreachable!()
    }

    fn ln(self) -> Self {
        Double(self.0.ln())
    }

    fn spec_log10(self) -> Self {
        unreachable!()
    }

    fn log10(self) -> Self {
        Double(self.0.log10())
    }

    fn spec_abs(self) -> Self {
        unreachable!()
    }

    fn abs(self) -> Self {
        Double(self.0.abs())
    }

    fn spec_ceil(self) -> Self {
        unreachable!()
    }

    fn ceil(self) -> Self {
        Double(self.0.ceil())
    }

    fn spec_floor(self) -> Self {
        unreachable!()
    }

    fn floor(self) -> Self {
        Double(self.0.floor())
    }

    fn spec_round(self) -> Self {
        unreachable!()
    }

    fn round(self) -> Self {
        Double(self.0.round())
    }

    fn spec_plus(self, _: Self) -> Self {
        unreachable!()
    }

    fn plus(self, rhs: Self) -> Self {
        Double(self.0 + rhs.0)
    }

    fn spec_minus(self, _: Self) -> Self {
        unreachable!()
    }

    fn minus(self, rhs: Self) -> Self {
        Double(self.0 - rhs.0)
    }

    fn spec_times(self, _: Self) -> Self {
        unreachable!()
    }

    fn times(self, rhs: Self) -> Self {
        Double(self.0 * rhs.0)
    }

    fn spec_over(self, _: Self) -> Self {
        unreachable!()
    }

    fn over(self, rhs: Self) -> Self {
        Double(self.0 / rhs.0)
    }

    fn spec_modulo(self, _: Self) -> Self {
        unreachable!()
    }

    fn modulo(self, rhs: Self) -> Self {
        Double(self.0 % rhs.0)
    }

    fn spec_powf(self, _: Self) -> Self {
        unreachable!()
    }

    fn powf(self, rhs: Self) -> Self {
        Double(self.0.powf(rhs.0))
    }

    fn spec_min(self, _: Self) -> Self {
        unreachable!()
    }

    fn min(self, rhs: Self) -> Self {
        Double(self.0.min(rhs.0))
    }

    fn spec_max(self, _: Self) -> Self {
        unreachable!()
    }

    fn max(self, rhs: Self) -> Self {
        Double(self.0.max(rhs.0))
    }
}

fn kind<T>(result: Result<T, Error>) -> ErrorType {
    match result {
        Ok(_) => panic!("an error was expected"),
        Err(e) => e.error_type,
    }
}

fn rule(pattern: Option<&str>) -> RuleDefinition {
    RuleDefinition {
        pattern: pattern.map(|p| p.to_string()),
        pattern_is_regex: None,
        precedence: None,
        associativity: None,
        binding: None,
        may_follow: None,
        context: None,
    }
}

fn one_category(category: Category, rule: RuleDefinition) -> RuleCollectionDefinition {
    let mut definitions = RuleCollectionDefinition::new();
    let rules = RuleCategoryDefinition {
        default_associativity: None,
        default_precedence: None,
        may_follow: vec![],
        rules: vec![rule],
    };
    assert!(definitions.insert(category, rules).is_none());
    definitions
}

fn compile(definitions: RuleCollectionDefinition) -> Result<Ruleset, Error> {
    Ruleset::create(&definitions, &bindings::get_bindings())
}

fn evaluate(parser: &Parser<Double>, text: &str, values: &[(&str, f64)]) -> f64 {
    let mut equation = parser.parse(text).unwrap();
    for (name, value) in values {
        *equation.variable(name).unwrap() = Double(*value);
    }
    equation.evaluate().unwrap().0
}

#[test]
fn category_properties() {
    let all = [
        (Category::Constants, true, true, 3),
        (Category::Functions, true, false, 3),
        (Category::Literals, true, true, 2),
        (Category::Variables, true, true, 1),
        (Category::OpenBrackets, true, false, 5),
        (Category::CloseBrackets, false, true, 5),
        (Category::Operators, false, false, 4),
        (Category::ImplicitOperators, false, false, 0),
        (Category::Separators, false, false, 5),
        (Category::Fluff, true, true, 0),
    ];
    for (category, start, end, priority) in all {
        assert_eq!(start, category.allowed_at_start());
        assert_eq!(end, category.allowed_at_end());
        assert_eq!(priority, category.priority());
        assert_eq!(Some(category), decode::category_named(category.name()));
    }
    assert_eq!("Implicit Operators", Category::ImplicitOperators.title());
    assert_eq!("Opening Brackets", Category::OpenBrackets.title());
    assert_eq!("Closing Brackets", Category::CloseBrackets.title());
    assert_eq!("Fluff", Category::Fluff.title());
    assert_eq!(None, decode::category_named("operators"));
}

#[test]
fn rule_compiler_builds_rules() {
    let mut plus = rule(Some("+"));
    plus.binding = Some("Add".to_string());
    plus.precedence = Some(3);
    plus.associativity = Some(Associativity::RightToLeft);
    plus.may_follow = Some(vec![Category::Literals]);
    let rules = compile(one_category(Category::Operators, plus)).unwrap();
    assert_eq!(1, rules.len());
    let compiled = &rules.rules[0];
    assert_eq!(Category::Operators, compiled.category());
    assert_eq!(3, compiled.precedence());
    assert_eq!(4, compiled.priority());
    assert!(!compiled.left_associative());
    assert_eq!(0, compiled.bracket_context());
    assert_eq!("Add", compiled.binding().as_ref().unwrap().0.label);
    assert_eq!("^(?i)(\\+)(.*)", compiled.pattern.as_str());
    assert!(compiled.can_follow(Some(Category::Literals)));
    assert!(compiled.can_follow(Some(Category::Fluff)));
    assert!(!compiled.can_follow(Some(Category::Variables)));
    assert!(!compiled.can_follow(None));
    assert!(!compiled.allowed_at_start());
    assert!(!compiled.allowed_at_end());
    assert_eq!(Some(("+".to_string(), " 1".to_string())), compiled.get_match("+ 1"));
    assert_eq!(None, compiled.get_match("1+"));
    assert!(compiled.matches("+1"));
    assert!(!compiled.matches("1"));
    assert!(!compiled.matches(""));
}

#[test]
fn rule_compiler_takes_defaults_from_the_category() {
    let mut definitions = RuleCollectionDefinition::new();
    let mut with_own = rule(Some("a"));
    with_own.binding = Some("Sine".to_string());
    with_own.precedence = Some(2);
    with_own.associativity = Some(Associativity::LeftToRight);
    with_own.may_follow = Some(vec![Category::Separators]);
    let mut with_defaults = rule(Some("b"));
    with_defaults.binding = Some("Cosine".to_string());
    definitions.insert(
        Category::Functions,
        RuleCategoryDefinition {
            default_associativity: Some(Associativity::RightToLeft),
            default_precedence: Some(9),
            may_follow: vec![Category::Operators],
            rules: vec![with_own, with_defaults],
        },
    );
    let rules = compile(definitions).unwrap();
    assert_eq!(2, rules.rules[0].precedence());
    assert!(rules.rules[0].left_associative());
    assert!(rules.rules[0].can_follow(Some(Category::Separators)));
    assert!(!rules.rules[0].can_follow(Some(Category::Operators)));
    assert_eq!(9, rules.rules[1].precedence());
    assert!(!rules.rules[1].left_associative());
    assert!(rules.rules[1].can_follow(Some(Category::Operators)));
    // a function without any precedence has precedence zero
    let mut bare = rule(Some("c"));
    bare.binding = Some("Tangent".to_string());
    assert_eq!(0, compile(one_category(Category::Functions, bare)).unwrap().rules[0].precedence());
}

#[test]
fn rule_compiler_refuses_bad_definitions() {
    // a rule without a pattern
    assert_eq!(ErrorType::RuleParseError, kind(compile(one_category(Category::Literals, rule(None)))));
    // an implicit operator with a pattern
    let mut implicit = rule(Some("*"));
    implicit.binding = Some("Multiply".to_string());
    implicit.precedence = Some(1);
    assert_eq!(ErrorType::RuleParseError, kind(compile(one_category(Category::ImplicitOperators, implicit))));
    // a bracket without a context
    assert_eq!(ErrorType::RuleParseError, kind(compile(one_category(Category::OpenBrackets, rule(Some("("))))));
    // an operator without a binding
    let mut unbound = rule(Some("+"));
    unbound.precedence = Some(1);
    assert_eq!(ErrorType::RuleParseError, kind(compile(one_category(Category::Operators, unbound))));
    // an operator whose binding is unknown
    let mut unknown = rule(Some("+"));
    unknown.precedence = Some(1);
    unknown.binding = Some("Plus".to_string());
    assert_eq!(ErrorType::RuleParseError, kind(compile(one_category(Category::Operators, unknown))));
    // an operator without a precedence
    let mut flat = rule(Some("+"));
    flat.binding = Some("Add".to_string());
    assert_eq!(ErrorType::RuleParseError, kind(compile(one_category(Category::Operators, flat))));
    // a pattern that is no regular expression
    let mut broken = rule(Some("(a"));
    broken.pattern_is_regex = Some(true);
    assert_eq!(ErrorType::RuleParseError, kind(compile(one_category(Category::Variables, broken))));
    // the same pattern, taken literally, is fine
    assert!(compile(one_category(Category::Variables, rule(Some("(a")))).is_ok());
    // a category without rules
    let mut empty = one_category(Category::Variables, rule(Some("x")));
    empty.get_mut(&Category::Variables).unwrap().rules.clear();
    assert_eq!(ErrorType::RuleParseError, kind(compile(empty)));
}

#[test]
fn definitions_hold_each_category_once() {
    let mut definitions = one_category(Category::Variables, rule(Some("x")));
    let again = RuleCategoryDefinition {
        default_associativity: None,
        default_precedence: None,
        may_follow: vec![],
        rules: vec![rule(Some("y"))],
    };
    assert!(definitions.insert(Category::Variables, again).is_some());
    assert_eq!(1, definitions.entries.len());
    assert_eq!(Some("x".to_string()), definitions.get(&Category::Variables).unwrap().rules[0].pattern);
    assert!(definitions.get(&Category::Fluff).is_none());
    assert!(definitions.get_mut(&Category::Fluff).is_none());
    assert!(definitions.names_each_once());
    // a definition that was put together with a category twice does not compile
    let copy = definitions.entries[0].clone();
    definitions.entries.push(copy);
    assert!(!definitions.names_each_once());
    assert_eq!(ErrorType::RuleParseError, kind(compile(definitions)));
}

fn object(members: Vec<(&str, JsonValue)>) -> JsonValue {
    JsonValue::Object(members.into_iter().map(|(k, v)| (k.to_string(), v)).collect())
}

fn text(value: &str) -> JsonValue {
    JsonValue::Text(value.to_string())
}

fn unsigned(value: u64) -> JsonValue {
    JsonValue::Number(if value <= i64::MAX as u64 { Some(value as i64) } else { None }, Some(value))
}

fn category_object(rules: Vec<JsonValue>) -> JsonValue {
    object(vec![("may_follow", JsonValue::Array(vec![text("Operators")])), ("rules", JsonValue::Array(rules))])
}

#[test]
fn decode_reads_a_definition() {
    let rule = object(vec![
        ("pattern", text("+")),
        ("pattern_is_regex", JsonValue::Bool(true)),
        ("precedence", unsigned(7)),
        ("associativity", text("RightToLeft")),
        ("binding", text("Add")),
        ("may_follow", JsonValue::Array(vec![text("Literals"), text("Fluff")])),
        ("context", JsonValue::Number(Some(-3), None)),
        ("comment", text("not looked at")),
    ]);
    let tree = object(vec![(
        "Operators",
        object(vec![
            ("default_associativity", text("LeftToRight")),
            ("default_precedence", unsigned(2)),
            ("may_follow", JsonValue::Array(vec![text("Variables")])),
            ("rules", JsonValue::Array(vec![rule, object(vec![("pattern", JsonValue::Null)])])),
        ]),
    )]);
    let definitions = decode::decode_definitions(&tree).unwrap();
    assert_eq!(1, definitions.entries.len());
    let operators = definitions.get(&Category::Operators).unwrap();
    assert_eq!(Some(Associativity::LeftToRight), operators.default_associativity);
    assert_eq!(Some(2), operators.default_precedence);
    assert_eq!(vec![Category::Variables], operators.may_follow);
    let first = &operators.rules[0];
    assert_eq!(Some("+".to_string()), first.pattern);
    assert_eq!(Some(true), first.pattern_is_regex);
    assert_eq!(Some(7), first.precedence);
    assert_eq!(Some(Associativity::RightToLeft), first.associativity);
    assert_eq!(Some("Add".to_string()), first.binding);
    assert_eq!(Some(vec![Category::Literals, Category::Fluff]), first.may_follow);
    assert_eq!(Some(-3), first.context);
    let second = &operators.rules[1];
    assert_eq!(None, second.pattern);
    assert_eq!(None, second.pattern_is_regex);
    assert_eq!(None, second.precedence);
    assert_eq!(None, second.associativity);
    assert_eq!(None, second.binding);
    assert_eq!(None, second.may_follow);
    assert_eq!(None, second.context);
}

#[test]
fn decode_refuses_what_is_no_definition() {
    let good = || object(vec![("pattern", text("x"))]);
    assert!(decode::decode_definitions(&object(vec![("Variables", category_object(vec![good()]))])).is_ok());
    let refused = [
        JsonValue::Array(vec![]),
        object(vec![("Variable", category_object(vec![good()]))]),
        object(vec![("Variables", category_object(vec![good()])), ("Variables", category_object(vec![good()]))]),
        object(vec![("Variables", object(vec![("rules", JsonValue::Array(vec![good()]))]))]),
        object(vec![("Variables", object(vec![("may_follow", JsonValue::Array(vec![]))]))]),
        object(vec![("Variables", category_object(vec![text("x")]))]),
        object(vec![("Variables", category_object(vec![object(vec![("pattern", unsigned(1))])]))]),
        object(vec![("Variables", category_object(vec![object(vec![("pattern_is_regex", text("yes"))])]))]),
        object(vec![("Variables", category_object(vec![object(vec![("precedence", unsigned(1 << 32))])]))]),
        object(vec![("Variables", category_object(vec![object(vec![("precedence", JsonValue::Number(Some(-1), None))])]))]),
        object(vec![("Variables", category_object(vec![object(vec![("context", JsonValue::Number(Some(1 << 31), Some(1 << 31)))])]))]),
        object(vec![("Variables", category_object(vec![object(vec![("associativity", text("Left"))])]))]),
        object(vec![("Variables", category_object(vec![object(vec![("may_follow", JsonValue::Array(vec![text("Nothing")]))])]))]),
        object(vec![("Variables", category_object(vec![object(vec![("binding", JsonValue::Bool(false))])]))]),
    ];
    for tree in refused.iter() {
        assert_eq!(ErrorType::RuleParseError, kind(decode::decode_definitions(tree)), "{:?}", tree);
    }
    let wide = object(vec![("Variables", category_object(vec![object(vec![("precedence", unsigned(u32::MAX as u64)), ("context", JsonValue::Number(Some(i32::MIN as i64), None))])]))]);
    let definitions = decode::decode_definitions(&wide).unwrap();
    assert_eq!(Some(u32::MAX), definitions.entries[0].definition.rules[0].precedence);
    assert_eq!(Some(i32::MIN), definitions.entries[0].definition.rules[0].context);
}

#[test]
fn json_text_is_read_into_a_tree() {
    match json::load("{\"a\": [1, -2, 1.5, null, true, \"z\"]}").unwrap() {
        JsonValue::Object(members) => {
            assert_eq!("a", members[0].0);
            match &members[0].1 {
                JsonValue::Array(items) => {
                    assert!(matches!(items[0], JsonValue::Number(Some(1), Some(1))));
                    assert!(matches!(items[1], JsonValue::Number(Some(-2), None)));
                    assert!(matches!(items[2], JsonValue::Number(None, None)));
                    assert!(matches!(items[3], JsonValue::Null));
                    assert!(matches!(items[4], JsonValue::Bool(true)));
                    assert!(matches!(&items[5], JsonValue::Text(s) if s == "z"));
                },
                other => panic!("{:?}", other),
            }
        },
        other => panic!("{:?}", other),
    }
    assert!(json::load("{\"a\": ").is_none());
    assert_eq!(ErrorType::RuleParseError, kind(syntax::definitions_from_json("[")));
    assert_eq!(ErrorType::RuleParseError, kind(syntax::definitions_from_json("[]")));
    assert_eq!(ErrorType::RuleParseError, kind(Parser::<Double>::from_json("{\"Variables\": 3}").map(|_| ())));
}

#[test]
fn built_in_definitions_are_the_built_in_texts() {
    for syntax in [Syntax::Standard, Syntax::LaTeX] {
        let text = syntax::get_builtin_ruleset(&syntax).unwrap();
        let from_text = syntax::definitions_from_json(text).unwrap();
        let built_in = syntax::get_definitions(syntax).unwrap();
        assert_eq!(from_text.entries.len(), built_in.entries.len());
        assert!(Parser::<Double>::from_json(text).is_ok());
    }
    assert_eq!(9, syntax::get_definitions(Syntax::Standard).unwrap().entries.len());
    assert_eq!(10, syntax::get_definitions(Syntax::LaTeX).unwrap().entries.len());
}

#[test]
fn tokenizer_prefers_explicit_tokens() {
    let parser = Parser::<Double>::new(Syntax::Standard).unwrap();
    let rules = &parser.syntax_rules.rules;
    let token = tokenizer::match_next_token(rules, "2x", &None, 0).unwrap();
    assert_eq!("2", token.text);
    assert_eq!("x", token.remainder);
    assert_eq!(Category::Literals, rules[token.rule].category());
    // after a literal only the implicit operator may stand before a variable
    let token = tokenizer::match_next_token(rules, "x", &Some(Category::Literals), 1).unwrap();
    assert_eq!("", token.text);
    assert_eq!("x", token.remainder);
    assert_eq!(Category::ImplicitOperators, rules[token.rule].category());
    // where an operator fits, the implicit operator does not fire
    let token = tokenizer::match_next_token(rules, "+  x", &Some(Category::Literals), 1).unwrap();
    assert_eq!("+", token.text);
    assert_eq!("x", token.remainder);
    assert_eq!(Category::Operators, rules[token.rule].category());
    // nothing may follow an operator but an operand
    assert_eq!(
        ErrorType::SyntaxError,
        kind(tokenizer::match_next_token(rules, "+", &Some(Category::Operators), 1))
    );
    assert_eq!(ErrorType::SyntaxError, kind(tokenizer::match_next_token(rules, "#", &None, 0)));
}

#[test]
fn tokenizer_sorts_by_priority_then_length_and_looks_ahead() {
    let parser = Parser::<Double>::new(Syntax::Standard).unwrap();
    let rules = &parser.syntax_rules.rules;
    // a function name outranks the variable of the same text
    let token = tokenizer::match_next_token(rules, "sin x", &None, 0).unwrap();
    assert_eq!(Category::Functions, rules[token.rule].category());
    // but not where nothing could follow the function
    let token = tokenizer::match_next_token(rules, "sin+1", &None, 0).unwrap();
    assert_eq!(Category::Variables, rules[token.rule].category());
    assert_eq!("sin", token.text);
    assert_eq!(3.0, evaluate(&parser, "sin+1", &[("sin", 2.0)]));
    // a longer name is a variable of its own
    let token = tokenizer::match_next_token(rules, "sinewave", &None, 0).unwrap();
    assert_eq!(Category::Variables, rules[token.rule].category());
    assert_eq!("sinewave", token.text);
    // of two operators the longer match wins
    let latex = Parser::<Double>::new(Syntax::LaTeX).unwrap();
    let token = tokenizer::match_next_token(&latex.syntax_rules.rules, "\\log_10 x", &None, 0).unwrap();
    assert_eq!("\\log_10", token.text);
}

#[test]
fn parse_keeps_precedence() {
    let parser = Parser::<Double>::new(Syntax::Standard).unwrap();
    let values = [("a", 2.0), ("b", 3.0), ("c", 5.0)];
    assert_eq!(2.0 + (3.0 * 5.0), evaluate(&parser, "a+b*c", &values));
    assert_eq!(evaluate(&parser, "a+(b*c)", &values), evaluate(&parser, "a+b*c", &values));
    assert_eq!((2.0 * 3.0) + 5.0, evaluate(&parser, "a*b+c", &values));
    assert_eq!(evaluate(&parser, "(a*b)+c", &values), evaluate(&parser, "a*b+c", &values));
    assert_eq!((2.0 - 3.0) - 5.0, evaluate(&parser, "a-b-c", &values));
}

#[test]
fn parse_keeps_associativity() {
    let parser = Parser::<Double>::new(Syntax::Standard).unwrap();
    let values = [("a", 2.0), ("b", 3.0), ("c", 2.0)];
    assert_eq!(512.0, evaluate(&parser, "a^b^c", &values));
    assert_eq!(evaluate(&parser, "a^(b^c)", &values), evaluate(&parser, "a^b^c", &values));
    assert_eq!(64.0, evaluate(&parser, "(a^b)^c", &values));
}

#[test]
fn parse_multiplies_implicitly() {
    let parser = Parser::<Double>::new(Syntax::Standard).unwrap();
    for x in [-3.5, 0.0, 0.25, 7.0] {
        assert_eq!(2.0 * x, evaluate(&parser, "2x", &[("x", x)]));
        assert_eq!(evaluate(&parser, "2*x", &[("x", x)]), evaluate(&parser, "2x", &[("x", x)]));
    }
}

#[test]
fn parse_lists_variables_in_order_of_first_mention() {
    let parser = Parser::<Double>::new(Syntax::Standard).unwrap();
    let equation = parser.parse("y + x*y - z/x + y").unwrap();
    assert_eq!(vec!["y".to_string(), "x".to_string(), "z".to_string()], equation.variables().to_vec());
    assert_eq!(equation.variables(), equation.variables());
    let equation = parser.parse("x+1").unwrap();
    assert_eq!(vec!["x".to_string()], equation.variables().to_vec());
    assert_eq!(Double(1.0), equation.evaluate().unwrap());
    assert!(parser.parse("pi^(e+-2)").unwrap().variables().is_empty());
}

#[test]
fn parse_refuses_unbalanced_brackets() {
    let parser = Parser::<Double>::new(Syntax::Standard).unwrap();
    for text in ["(2[", "(2", "2)", "(2]", "[(2)", "((2)", "{2)]", "max(1,2"] {
        assert_eq!(ErrorType::SyntaxError, kind(parser.parse(text)), "{}", text);
    }
    for text in ["((2))", "[(2)]", "{[(2)]}(3)", "max(1,(2))"] {
        assert!(parser.parse(text).is_ok(), "{}", text);
    }
}

#[test]
fn parse_refuses_what_does_not_evaluate() {
    let parser = Parser::<Double>::new(Syntax::Standard).unwrap();
    for text in ["", "   ", "max(1)", "max(1,2,3)", "sin", "2+", "()", "1,2", "2 3"] {
        assert_eq!(ErrorType::SyntaxError, kind(parser.parse(text)), "{:?}", text);
    }
    // what fails for the values at hand only is no syntax error
    let equation = parser.parse("1/x").unwrap();
    assert_eq!(Double(f64::INFINITY), equation.evaluate().unwrap());
}

#[test]
fn parse_does_not_hang_on_a_grammar_without_progress() {
    let json = "{
        \"Literals\": {\"may_follow\": [\"Operators\"], \"rules\": [{\"pattern\": \"[0-9]+\", \"pattern_is_regex\": true}]},
        \"ImplicitOperators\": {
            \"may_follow\": [\"Literals\", \"ImplicitOperators\"],
            \"rules\": [{\"binding\": \"Multiply\", \"precedence\": 1}]
        }
    }";
    let parser = Parser::<Double>::from_json(json).unwrap();
    assert_eq!(Double(2.0), parser.parse("2").unwrap().evaluate().unwrap());
    assert_eq!(ErrorType::SyntaxError, kind(parser.parse("2 2")));
}

#[test]
fn fluff_is_skipped() {
    let parser = Parser::<Double>::new(Syntax::LaTeX).unwrap();
    assert_eq!(5.0, evaluate(&parser, "2 \\, + \\; 3", &[]));
    assert_eq!(5.0, evaluate(&parser, "\\,2+3\\,", &[]));
    assert_eq!(ErrorType::SyntaxError, kind(parser.parse("\\,")));
}

#[test]
fn user_bindings_need_their_registry() {
    let mut registry = bindings::get_bindings();
    let mine: &[(&str, FunctionPointer, usize)] = &[("Mine", FunctionPointer::Custom(0), 1)];
    registry.register_bindings(mine).unwrap();
    let mut definitions = syntax::get_definitions(Syntax::Standard).unwrap();
    let mut mine = rule(Some("mine"));
    mine.binding = Some("Mine".to_string());
    definitions.get_mut(&Category::Functions).unwrap().rules.push(mine);
    assert_eq!(
        ErrorType::RuleParseError,
        kind(Parser::<Double>::from_definitions(definitions.clone()).map(|_| ()))
    );
    let parser = Parser::<Double>::with_bindings(definitions, &registry).unwrap();
    assert_eq!(4.25, evaluate(&parser, "mine(4)", &[]));
}

#[test]
fn syntax_errors_name_the_place() {
    let parser = Parser::<Double>::new(Syntax::Standard).unwrap();
    let message = |text: &str| parser.parse(text).unwrap_err().message;
    assert_eq!("Equation string should not be empty", message(""));
    assert_eq!("The expression holds nothing to evaluate", message("  "));
    assert_eq!("No registered rules match the expression at position 0 after the start of the expression: $", message(" $"));
    assert_eq!("No registered rules match the expression at position 2 after Implicit Operators: $ 1", message("2 $ 1"));
    assert_eq!("The rule that matches may not appear here at position 0 after the start of the expression: * 2", message("* 2"));
    assert_eq!("The rule that matches may not appear here at position 2 after Operators: )", message("2+)"));
    assert_eq!("An expression may not end with a token of the category Operators", message("2 +"));
    assert_eq!("Bracket does not match the last opening bracket: ]", message("(2]"));
    assert_eq!("Bracket does not match the last opening bracket: )", message("2)"));
    assert_eq!("Unclosed opening bracket", message("(2"));
    assert_eq!("Function Max requires 2 inputs but the output stack contains 1", message("max(3)"));
    assert_eq!("Equation does not evaluate to a single value", message("max(1,2,3)"));
    let tiny = Parser::<Double>::from_json(
        "{\"Literals\": {\"may_follow\": [], \"rules\": [{\"pattern\": \"[0-9.]+\", \"pattern_is_regex\": true}]}}",
    )
    .unwrap();
    assert_eq!("Could not parse literal as a number: 1.2.3", tiny.parse("1.2.3").unwrap_err().message);
    let twice = Parser::<Double>::from_json(
        "{\"Separators\": {\"may_follow\": [], \"rules\": [{\"pattern\": \";\"}, {\"pattern\": \".\", \"pattern_is_regex\": true}]}}",
    )
    .unwrap();
    assert_eq!(
        "Multiple rules match but none may appear here at position 0 after the start of the expression: ;",
        twice.parse(";").unwrap_err().message
    );
}

#[test]
fn a_category_named_twice_is_refused() {
    let once = "{\"Variables\": {\"may_follow\": [], \"rules\": [{\"pattern\": \"x\"}]}}";
    let twice = "{\"Variables\": {\"may_follow\": [], \"rules\": [{\"pattern\": \"x\"}]},
                 \"Variables\": {\"may_follow\": [], \"rules\": [{\"pattern\": \"y\"}]}}";
    assert!(syntax::definitions_from_json(once).is_ok());
    assert_eq!(ErrorType::RuleParseError, kind(syntax::definitions_from_json(twice)));
    assert_eq!(ErrorType::RuleParseError, kind(Parser::<Double>::from_json(twice).map(|_| ())));
    // what stands in a text or deeper in the definition is not counted
    let busy = "{\"Variables\": {\"may_follow\": [], \"rules\": [{\"pattern\": \"{\\\"a\\\": [1}\\\\\"}]}}";
    let definitions = syntax::definitions_from_json(busy).unwrap();
    assert_eq!(Some("{\"a\": [1}\\".to_string()), definitions.entries[0].definition.rules[0].pattern);
    assert_eq!(1, members::written_members(once));
    assert_eq!(2, members::written_members(twice));
    assert_eq!(1, members::written_members(busy));
    assert_eq!(0, members::written_members("[{\"a\": 1}]"));
}
