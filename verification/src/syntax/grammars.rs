use vstd::prelude::*;

verus! {

/// The standard grammar: infix operators, function calls, three families of
/// brackets, implicit multiplication, `pi` and `e`.
pub const STANDARD: &'static str = r#"{
  "Operators": {
    "may_follow": ["Literals", "Variables", "Constants", "CloseBrackets"],
    "default_associativity": "LeftToRight",
    "rules": [
      {"pattern": "+", "binding": "Add", "precedence": 1},
      {"pattern": "-", "binding": "Subtract", "precedence": 1},
      {"pattern": "*", "binding": "Multiply", "precedence": 2},
      {"pattern": "/", "binding": "Divide", "precedence": 2},
      {"pattern": "%", "binding": "Modulus", "precedence": 2},
      {"pattern": "^", "binding": "Exponent", "precedence": 4, "associativity": "RightToLeft"}
    ]
  },
  "ImplicitOperators": {
    "may_follow": ["Literals", "Variables", "Constants", "CloseBrackets"],
    "rules": [
      {"binding": "Multiply", "precedence": 2}
    ]
  },
  "Functions": {
    "may_follow": ["Operators", "ImplicitOperators", "Functions", "OpenBrackets", "Separators"],
    "default_precedence": 5,
    "rules": [
      {"pattern": "-", "binding": "Negate", "precedence": 3},
      {"pattern": "sqrt\\b", "pattern_is_regex": true, "binding": "SquareRoot"},
      {"pattern": "sin\\b", "pattern_is_regex": true, "binding": "Sine"},
      {"pattern": "cos\\b", "pattern_is_regex": true, "binding": "Cosine"},
      {"pattern": "tan\\b", "pattern_is_regex": true, "binding": "Tangent"},
      {"pattern": "asin\\b", "pattern_is_regex": true, "binding": "Arcsine"},
      {"pattern": "acos\\b", "pattern_is_regex": true, "binding": "Arccosine"},
      {"pattern": "atan\\b", "pattern_is_regex": true, "binding": "Arctangent"},
      {"pattern": "arcsin\\b", "pattern_is_regex": true, "binding": "Arcsine"},
      {"pattern": "arccos\\b", "pattern_is_regex": true, "binding": "Arccosine"},
      {"pattern": "arctan\\b", "pattern_is_regex": true, "binding": "Arctangent"},
      {"pattern": "sinh\\b", "pattern_is_regex": true, "binding": "HypSine"},
      {"pattern": "cosh\\b", "pattern_is_regex": true, "binding": "HypCosine"},
      {"pattern": "tanh\\b", "pattern_is_regex": true, "binding": "HypTangent"},
      {"pattern": "asinh\\b", "pattern_is_regex": true, "binding": "InvHypSine"},
      {"pattern": "acosh\\b", "pattern_is_regex": true, "binding": "InvHypCosine"},
      {"pattern": "atanh\\b", "pattern_is_regex": true, "binding": "InvHypTangent"},
      {"pattern": "arsinh\\b", "pattern_is_regex": true, "binding": "InvHypSine"},
      {"pattern": "arcosh\\b", "pattern_is_regex": true, "binding": "InvHypCosine"},
      {"pattern": "artanh\\b", "pattern_is_regex": true, "binding": "InvHypTangent"},
      {"pattern": "csc\\b", "pattern_is_regex": true, "binding": "Cosecant"},
      {"pattern": "cosec\\b", "pattern_is_regex": true, "binding": "Cosecant"},
      {"pattern": "sec\\b", "pattern_is_regex": true, "binding": "Secant"},
      {"pattern": "cot\\b", "pattern_is_regex": true, "binding": "Cotangent"},
      {"pattern": "ln\\b", "pattern_is_regex": true, "binding": "LogBaseE"},
      {"pattern": "log\\b", "pattern_is_regex": true, "binding": "LogBase10"},
      {"pattern": "abs\\b", "pattern_is_regex": true, "binding": "Abs"},
      {"pattern": "ceil\\b", "pattern_is_regex": true, "binding": "Ceiling"},
      {"pattern": "floor\\b", "pattern_is_regex": true, "binding": "Floor"},
      {"pattern": "round\\b", "pattern_is_regex": true, "binding": "Round"},
      {"pattern": "min\\b", "pattern_is_regex": true, "binding": "Min"},
      {"pattern": "max\\b", "pattern_is_regex": true, "binding": "Max"},
      {"pattern": "mod\\b", "pattern_is_regex": true, "binding": "Modulus"}
    ]
  },
  "Literals": {
    "may_follow": ["Operators", "Functions", "OpenBrackets", "Separators"],
    "rules": [
      {"pattern": "[0-9]+\\.?[0-9]*|\\.[0-9]+", "pattern_is_regex": true}
    ]
  },
  "Constants": {
    "may_follow": ["Operators", "ImplicitOperators", "Functions", "OpenBrackets", "Separators"],
    "rules": [
      {"pattern": "pi\\b", "pattern_is_regex": true, "binding": "Pi"},
      {"pattern": "e\\b", "pattern_is_regex": true, "binding": "Euler"}
    ]
  },
  "Variables": {
    "may_follow": ["Operators", "ImplicitOperators", "Functions", "OpenBrackets", "Separators"],
    "rules": [
      {"pattern": "[a-z_][a-z0-9_]*", "pattern_is_regex": true}
    ]
  },
  "OpenBrackets": {
    "may_follow": ["Operators", "ImplicitOperators", "Functions", "OpenBrackets", "Separators"],
    "rules": [
      {"pattern": "(", "context": 1},
      {"pattern": "[", "context": 2},
      {"pattern": "{", "context": 3}
    ]
  },
  "CloseBrackets": {
    "may_follow": ["Literals", "Variables", "Constants", "CloseBrackets"],
    "rules": [
      {"pattern": ")", "context": -1},
      {"pattern": "]", "context": -2},
      {"pattern": "}", "context": -3}
    ]
  },
  "Separators": {
    "may_follow": ["Literals", "Variables", "Constants", "CloseBrackets"],
    "rules": [
      {"pattern": ","}
    ]
  }
}"#;

/// The LaTeX grammar: macros for operators, functions and brackets, and thin
/// spaces as fluff.
pub const LATEX: &'static str = r#"{
  "Operators": {
    "may_follow": ["Literals", "Variables", "Constants", "CloseBrackets"],
    "default_associativity": "LeftToRight",
    "rules": [
      {"pattern": "+", "binding": "Add", "precedence": 1},
      {"pattern": "-", "binding": "Subtract", "precedence": 1},
      {"pattern": "*", "binding": "Multiply", "precedence": 2},
      {"pattern": "/", "binding": "Divide", "precedence": 2},
      {"pattern": "\\\\times\\b", "pattern_is_regex": true, "binding": "Multiply", "precedence": 2},
      {"pattern": "\\\\ast\\b", "pattern_is_regex": true, "binding": "Multiply", "precedence": 2},
      {"pattern": "\\\\cdot\\b", "pattern_is_regex": true, "binding": "Multiply", "precedence": 2},
      {"pattern": "\\\\cdotp\\b", "pattern_is_regex": true, "binding": "Multiply", "precedence": 2},
      {"pattern": "\\\\centerdot\\b", "pattern_is_regex": true, "binding": "Multiply", "precedence": 2},
      {"pattern": "\\\\div\\b", "pattern_is_regex": true, "binding": "Divide", "precedence": 2},
      {"pattern": "\\\\over\\b", "pattern_is_regex": true, "binding": "Divide", "precedence": 2},
      {"pattern": "\\\\mod\\b", "pattern_is_regex": true, "binding": "Modulus", "precedence": 2},
      {"pattern": "\\\\bmod\\b", "pattern_is_regex": true, "binding": "Modulus", "precedence": 2},
      {"pattern": "\\\\pmod\\b", "pattern_is_regex": true, "binding": "Modulus", "precedence": 2},
      {"pattern": "^", "binding": "Exponent", "precedence": 4, "associativity": "RightToLeft"}
    ]
  },
  "ImplicitOperators": {
    "may_follow": ["Literals", "Variables", "Constants", "CloseBrackets"],
    "rules": [
      {"binding": "Multiply", "precedence": 2}
    ]
  },
  "Functions": {
    "may_follow": ["Operators", "ImplicitOperators", "Functions", "OpenBrackets", "Separators"],
    "default_precedence": 5,
    "rules": [
      {"pattern": "-", "binding": "Negate", "precedence": 3},
      {"pattern": "\\\\sqrt\\b", "pattern_is_regex": true, "binding": "SquareRoot"},
      {"pattern": "\\\\sin\\b", "pattern_is_regex": true, "binding": "Sine"},
      {"pattern": "\\\\cos\\b", "pattern_is_regex": true, "binding": "Cosine"},
      {"pattern": "\\\\tan\\b", "pattern_is_regex": true, "binding": "Tangent"},
      {"pattern": "\\\\arcsin\\b", "pattern_is_regex": true, "binding": "Arcsine"},
      {"pattern": "\\\\arccos\\b", "pattern_is_regex": true, "binding": "Arccosine"},
      {"pattern": "\\\\arctan\\b", "pattern_is_regex": true, "binding": "Arctangent"},
      {"pattern": "\\\\sinh\\b", "pattern_is_regex": true, "binding": "HypSine"},
      {"pattern": "\\\\cosh\\b", "pattern_is_regex": true, "binding": "HypCosine"},
      {"pattern": "\\\\tanh\\b", "pattern_is_regex": true, "binding": "HypTangent"},
      {"pattern": "\\\\csc\\b", "pattern_is_regex": true, "binding": "Cosecant"},
      {"pattern": "\\\\sec\\b", "pattern_is_regex": true, "binding": "Secant"},
      {"pattern": "\\\\cot\\b", "pattern_is_regex": true, "binding": "Cotangent"},
      {"pattern": "\\\\ln\\b", "pattern_is_regex": true, "binding": "LogBaseE"},
      {"pattern": "\\\\log\\b", "pattern_is_regex": true, "binding": "LogBaseE"},
      {"pattern": "\\\\log_10\\b", "pattern_is_regex": true, "binding": "LogBase10"},
      {"pattern": "\\\\lg\\b", "pattern_is_regex": true, "binding": "LogBase10"},
      {"pattern": "\\\\min\\b", "pattern_is_regex": true, "binding": "Min"},
      {"pattern": "\\\\max\\b", "pattern_is_regex": true, "binding": "Max"},
      {"pattern": "\\\\operatorname\\*?\\{arsinh\\}", "pattern_is_regex": true, "binding": "InvHypSine"},
      {"pattern": "\\\\operatorname\\*?\\{arcosh\\}", "pattern_is_regex": true, "binding": "InvHypCosine"},
      {"pattern": "\\\\operatorname\\*?\\{artanh\\}", "pattern_is_regex": true, "binding": "InvHypTangent"},
      {"pattern": "\\\\operatorname\\*?\\{arcsinh\\}", "pattern_is_regex": true, "binding": "InvHypSine"},
      {"pattern": "\\\\operatorname\\*?\\{arccosh\\}", "pattern_is_regex": true, "binding": "InvHypCosine"},
      {"pattern": "\\\\operatorname\\*?\\{arctanh\\}", "pattern_is_regex": true, "binding": "InvHypTangent"},
      {"pattern": "\\\\operatorname\\*?\\{abs\\}", "pattern_is_regex": true, "binding": "Abs"},
      {"pattern": "\\\\operatorname\\*?\\{ceil\\}", "pattern_is_regex": true, "binding": "Ceiling"},
      {"pattern": "\\\\operatorname\\*?\\{floor\\}", "pattern_is_regex": true, "binding": "Floor"},
      {"pattern": "\\\\operatorname\\*?\\{round\\}", "pattern_is_regex": true, "binding": "Round"},
      {"pattern": "\\\\operatorname\\*?\\{mod\\}", "pattern_is_regex": true, "binding": "Modulus"}
    ]
  },
  "Literals": {
    "may_follow": ["Operators", "Functions", "OpenBrackets", "Separators"],
    "rules": [
      {"pattern": "[0-9]+\\.?[0-9]*|\\.[0-9]+", "pattern_is_regex": true}
    ]
  },
  "Constants": {
    "may_follow": ["Operators", "ImplicitOperators", "Functions", "OpenBrackets", "Separators"],
    "rules": [
      {"pattern": "\\\\pi\\b", "pattern_is_regex": true, "binding": "Pi"},
      {"pattern": "e\\b", "pattern_is_regex": true, "binding": "Euler"}
    ]
  },
  "Variables": {
    "may_follow": ["Operators", "ImplicitOperators", "Functions", "OpenBrackets", "Separators"],
    "rules": [
      {"pattern": "\\\\[a-z]+", "pattern_is_regex": true},
      {"pattern": "[a-z]", "pattern_is_regex": true}
    ]
  },
  "OpenBrackets": {
    "may_follow": ["Operators", "ImplicitOperators", "Functions", "OpenBrackets", "Separators"],
    "rules": [
      {"pattern": "(", "context": 1},
      {"pattern": "[", "context": 2},
      {"pattern": "{", "context": 3},
      {"pattern": "\\{", "context": 4},
      {"pattern": "\\left(", "context": 5},
      {"pattern": "\\left[", "context": 6},
      {"pattern": "\\left{", "context": 7},
      {"pattern": "\\left\\{", "context": 8},
      {"pattern": "\\big(", "context": 9},
      {"pattern": "\\bigg(", "context": 10},
      {"pattern": "\\big[", "context": 11},
      {"pattern": "\\bigg[", "context": 12},
      {"pattern": "\\big{", "context": 13},
      {"pattern": "\\bigg{", "context": 14},
      {"pattern": "\\\\lang\\b", "pattern_is_regex": true, "context": 15},
      {"pattern": "\\\\langle\\b", "pattern_is_regex": true, "context": 16}
    ]
  },
  "CloseBrackets": {
    "may_follow": ["Literals", "Variables", "Constants", "CloseBrackets"],
    "rules": [
      {"pattern": ")", "context": -1},
      {"pattern": "]", "context": -2},
      {"pattern": "}", "context": -3},
      {"pattern": "\\}", "context": -4},
      {"pattern": "\\right)", "context": -5},
      {"pattern": "\\right]", "context": -6},
      {"pattern": "\\right}", "context": -7},
      {"pattern": "\\right\\}", "context": -8},
      {"pattern": "\\big)", "context": -9},
      {"pattern": "\\bigg)", "context": -10},
      {"pattern": "\\big]", "context": -11},
      {"pattern": "\\bigg]", "context": -12},
      {"pattern": "\\big}", "context": -13},
      {"pattern": "\\bigg}", "context": -14},
      {"pattern": "\\\\rang\\b", "pattern_is_regex": true, "context": -15},
      {"pattern": "\\\\rangle\\b", "pattern_is_regex": true, "context": -16}
    ]
  },
  "Separators": {
    "may_follow": ["Literals", "Variables", "Constants", "CloseBrackets"],
    "rules": [
      {"pattern": ","}
    ]
  },
  "Fluff": {
    "may_follow": ["Literals", "Variables", "Constants", "CloseBrackets", "Operators", "ImplicitOperators", "Functions", "OpenBrackets", "Separators", "Fluff"],
    "rules": [
      {"pattern": "\\,"},
      {"pattern": "\\;"},
      {"pattern": "\\:"},
      {"pattern": "\\!"},
      {"pattern": "\\\\quad\\b", "pattern_is_regex": true},
      {"pattern": "\\\\qquad\\b", "pattern_is_regex": true}
    ]
  }
}"#;

} // verus!
