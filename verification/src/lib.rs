//! Compiles mathematical expressions, written as text, into programs that
//! can be evaluated again and again for different values of their variables.
//!
//! A grammar is a set of rules, each with a pattern and a category. The
//! tokenizer picks the rule for the next token from what matches and from
//! what may stand after the token before it; the converter turns the tokens
//! into a postfix program; the evaluator runs the program on a stack.
//! Contracts state each step over mathematical models, and proof functions
//! state what holds of every parse: the brackets are balanced, the variables
//! are the variable tokens, precedence and associativity order the operators.

use vstd::prelude::*;

/// The brackets of an expression that parses are balanced.
pub mod balance;
/// Bindings: labelled functions of a value kind, built in or of the host.
pub mod bindings;
/// Compiled expressions and their evaluation.
pub mod equation;
/// Errors, and failures as contracts speak of them.
pub mod error;
/// The atoms of a postfix program.
pub mod expressions;
/// The variables of an expression that parses are its variable tokens.
pub mod names;
/// What a value kind has to offer.
pub mod numeric;
/// Precedence, associativity and implicit operators, stated over tokens.
pub mod orders;
/// The parser: from a text to a compiled expression.
pub mod parser;
/// The converter from tokens to a postfix program.
pub mod shunting;
/// Grammars: categories, definitions, rules, and the built-in grammars.
pub mod syntax;
/// Texts: trimming, comparing, numerals.
pub mod text;
/// The tokenizer: the choice of the rule for the next token.
pub mod tokenizer;

pub use equation::Equation;
pub use error::{Error, ErrorType, Outcome};
pub use numeric::NumericType;
pub use parser::Parser;
