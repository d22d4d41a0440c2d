use vstd::prelude::*;
use vstd::string::StringExecFns;
use vstd::string::StrSliceExecFns;
use std::marker::PhantomData;
use crate::bindings::registry::BindingMap;
use crate::bindings::get_bindings;
use crate::equation::{is_syntax_failure, spec_evaluate_program, Equation};
use crate::error::{fails_as, Error, ErrorType, Failure};
use crate::expressions::ExpressionView;
use crate::numeric::{NumericType, ZERO_BITS};
use crate::shunting::{spec_accept, spec_finish, Workspace, WorkspaceView};
use crate::syntax::ruleset::rule::Rule;
use crate::syntax::ruleset::{spec_ruleset, Ruleset};
use crate::bindings::builtin::builtin_bindings;
use crate::expressions::function::FunctionView;
use crate::syntax::ruleset::rule::RuleView;
use crate::syntax::{
    definitions_from_json,
    get_definitions,
    spec_builtin_ruleset,
    spec_definitions,
    Category,
    RuleCollectionDefinition,
    Syntax,
};
use crate::syntax::spec_category_title;
use crate::text::{is_part_of, trim, trimmed};
use crate::tokenizer::{lexeme, match_next_token, remainder, spec_next_rule, spec_no_token_message};

verus! {

/// How many tokens in a row may leave the text as long as it was.
pub const STALL_LIMIT: usize = 16;

/// The workspace before the first token.
pub open spec fn spec_start<T>() -> WorkspaceView<T> {
    WorkspaceView { output: Seq::empty(), operators: Seq::empty(), brackets: Seq::empty(), names: Seq::empty() }
}

/// The place of what is left of a text of `total` characters: how many
/// characters came before it.
pub open spec fn spec_place(total: nat, left: nat) -> nat {
    if left <= total {
        (total - left) as nat
    } else {
        0
    }
}

/// The workspace once `text` is used up, token by token, from the workspace
/// `w`, after a token of the category `last`; `text` is what is left of a
/// text of `total` characters. At each place the tokenizer gives the token.
/// A token that ends the text must be of a category that may end an
/// expression. A token that does not shorten the text uses up one of
/// `budget`; the text is refused once the budget is spent, and the budget is
/// whole again after every token that shortens the text.
pub open spec fn spec_convert<T: NumericType>(
    rules: Seq<Rule>,
    total: nat,
    text: Seq<char>,
    last: Option<Category>,
    budget: nat,
    w: WorkspaceView<T>,
) -> Result<WorkspaceView<T>, Failure>
    decreases text.len(), budget,
{
    if text.len() == 0 {
        Ok(w)
    } else {
        match spec_next_rule(rules, text, last) {
            None => Err(
                Failure::Reported(
                    ErrorType::SyntaxError,
                    spec_no_token_message(rules, text, last, spec_place(total, text.len())),
                ),
            ),
            Some(i) => {
                let rest = remainder(rules, i, text);
                if rest.len() == 0 && !rules[i].category.spec_allowed_at_end() {
                    Err(
                        Failure::Reported(
                            ErrorType::SyntaxError,
                            "An expression may not end with a token of the category "@ + spec_category_title(
                                rules[i].category,
                            ),
                        ),
                    )
                } else if rest.len() > text.len() || (rest.len() == text.len() && budget == 0) {
                    Err(Failure::Reported(ErrorType::SyntaxError, "The grammar makes no progress at "@ + text))
                } else {
                    match spec_accept(w, rules[i]@, lexeme(rules, i, text)) {
                        Err(failure) => Err(failure),
                        Ok(next) => spec_convert(
                            rules,
                            total,
                            rest,
                            Some(rules[i].category),
                            if rest.len() < text.len() {
                                STALL_LIMIT as nat
                            } else {
                                (budget - 1) as nat
                            },
                            next,
                        ),
                    }
                }
            },
        }
    }
}

/// `n` cells that hold zero.
pub open spec fn spec_zeros<T: NumericType>(n: nat) -> Seq<T> {
    Seq::new(n, |i: int| T::spec_from_double_bits(ZERO_BITS))
}

/// The program that `text` compiles to with the rules `rules`, and the names
/// of its variables in the order of first mention. An empty text is a syntax
/// error. The text without the white space around it is converted token by
/// token. A text that leaves the program empty is a syntax error, and so is
/// one whose program fails with a syntax error when it is evaluated with all
/// variables zero.
pub open spec fn spec_parse<T: NumericType>(rules: Seq<Rule>, text: Seq<char>) -> Result<
    (Seq<ExpressionView<T>>, Seq<Seq<char>>),
    Failure,
> {
    if text.len() == 0 {
        Err(Failure::Reported(ErrorType::SyntaxError, "Equation string should not be empty"@))
    } else {
        match spec_convert::<T>(rules, trimmed(text).len(), trimmed(text), None, STALL_LIMIT as nat, spec_start()) {
            Err(failure) => Err(failure),
            Ok(w) => match spec_finish(w.operators, w.output) {
                Err(failure) => Err(failure),
                Ok(program) => if program.len() == 0 {
                    Err(Failure::Reported(ErrorType::SyntaxError, "The expression holds nothing to evaluate"@))
                } else {
                    match spec_evaluate_program(program, spec_zeros::<T>(w.names.len())) {
                        Err(failure) => if is_syntax_failure::<T>(Err(failure)) {
                            Err(failure)
                        } else {
                            Ok((program, w.names))
                        },
                        Ok(_) => Ok((program, w.names)),
                    }
                },
            },
        }
    }
}

/// The rules that the grammar definition in the JSON text `json` compiles to
/// with the bindings `bindings`, where the text holds a definition and the
/// rule compiler accepts it.
pub open spec fn spec_rules_from_json(json: Seq<char>, bindings: Seq<FunctionView>) -> Option<Seq<RuleView>> {
    match spec_definitions(json) {
        Some(definitions) => spec_ruleset(definitions, bindings),
        None => None,
    }
}

/// A parser for one grammar and one value kind.
pub struct Parser<T: NumericType> {
    pub syntax_rules: Ruleset,
    pub kind: PhantomData<T>,
}

/// A text that parses compiles to a program that is not empty and that,
/// run with all variables zero, ends in one value or in a failure that is no
/// syntax error.
pub proof fn parsed_program_runs<T: NumericType>(rules: Seq<Rule>, text: Seq<char>)
    requires
        spec_parse::<T>(rules, text) is Ok,
    ensures
        spec_parse::<T>(rules, text)->Ok_0.0.len() > 0,
        !is_syntax_failure(
            spec_evaluate_program(
                spec_parse::<T>(rules, text)->Ok_0.0,
                spec_zeros::<T>(spec_parse::<T>(rules, text)->Ok_0.1.len()),
            ),
        ),
{
}

/// A part of a text is no longer than the text.
proof fn lemma_part_length(part: Seq<char>, whole: Seq<char>)
    requires
        is_part_of(part, whole),
    ensures
        part.len() <= whole.len(),
{
    let i = choose|i: int| 0 <= i && i + part.len() <= whole.len() && #[trigger] whole.subrange(i, i + part.len()) == part;
}

impl<T: NumericType> Parser<T> {
    /// The rules of the grammar.
    pub open spec fn rules(&self) -> Seq<Rule> {
        self.syntax_rules.rules@
    }

    /// A parser for a built-in grammar, with the built-in bindings.
    pub fn new(syntax: Syntax) -> (r: Result<Parser<T>, Error>)
        ensures
            match r {
                Ok(parser) => spec_rules_from_json(spec_builtin_ruleset(syntax), builtin_bindings()) == Some(
                    parser.syntax_rules@,
                ),
                Err(e) => e.error_type == ErrorType::RuleParseError && spec_rules_from_json(
                    spec_builtin_ruleset(syntax),
                    builtin_bindings(),
                ).is_none(),
            },
    {
        match get_definitions(syntax) {
            Ok(definitions) => Self::from_definitions(definitions),
            Err(e) => Err(e),
        }
    }

    /// A parser for the grammar that the JSON text `json` defines, with the
    /// built-in bindings.
    pub fn from_json(json: &str) -> (r: Result<Parser<T>, Error>)
        ensures
            match r {
                Ok(parser) => spec_rules_from_json(json@, builtin_bindings()) == Some(parser.syntax_rules@),
                Err(e) => e.error_type == ErrorType::RuleParseError && spec_rules_from_json(
                    json@,
                    builtin_bindings(),
                ).is_none(),
            },
    {
        match definitions_from_json(json) {
            Ok(definitions) => Self::from_definitions(definitions),
            Err(e) => Err(e),
        }
    }

    /// A parser for the grammar that `definitions` describes, with the
    /// built-in bindings.
    pub fn from_definitions(definitions: RuleCollectionDefinition) -> (r: Result<Parser<T>, Error>)
        ensures
            match r {
                Ok(parser) => spec_ruleset(definitions@, crate::bindings::builtin::builtin_bindings())
                    == Some(parser.syntax_rules@),
                Err(e) => e.error_type == ErrorType::RuleParseError && spec_ruleset(
                    definitions@,
                    crate::bindings::builtin::builtin_bindings(),
                ).is_none(),
            },
    {
        let bindings = get_bindings();
        Self::with_bindings(definitions, &bindings)
    }

    /// A parser for the grammar that `definitions` describes, with the
    /// bindings of `bindings`.
    pub fn with_bindings(definitions: RuleCollectionDefinition, bindings: &BindingMap) -> (r: Result<
        Parser<T>,
        Error,
    >)
        ensures
            match r {
                Ok(parser) => spec_ruleset(definitions@, bindings@) == Some(parser.syntax_rules@),
                Err(e) => e.error_type == ErrorType::RuleParseError && spec_ruleset(
                    definitions@,
                    bindings@,
                ).is_none(),
            },
    {
        match Ruleset::create(&definitions, bindings) {
            Ok(syntax_rules) => Ok(Parser { syntax_rules, kind: PhantomData }),
            Err(e) => Err(e),
        }
    }

    /// Compiles `equation_string`; see `spec_parse`. The expression that comes
    /// back is not empty, its variables are zero, and evaluating it does not
    /// fail with a syntax error.
    pub fn parse(&self, equation_string: &str) -> (r: Result<Equation<T>, Error>)
        ensures
            match r {
                Ok(equation) => spec_parse::<T>(self.rules(), equation_string@) == Ok::<_, Failure>(
                    (equation.program(), equation.spec_variables()),
                ) && equation.wf() && equation.program().len() > 0 && equation.variables@ == spec_zeros::<T>(
                    equation.spec_variables().len(),
                ) && !is_syntax_failure(equation.spec_evaluate()),
                Err(e) => spec_parse::<T>(self.rules(), equation_string@) matches Err(failure) && fails_as(
                    e,
                    failure,
                ),
            },
    {
        if equation_string.is_empty() {
            return Err(Error::new(ErrorType::SyntaxError, "Equation string should not be empty"));
        }
        let rules = &self.syntax_rules.rules;
        let start = trim(equation_string);
        let total = start.unicode_len();
        let mut text = String::from_str(start);
        let mut left = total;
        let mut last: Option<Category> = None;
        let mut budget: usize = STALL_LIMIT;
        let mut w: Workspace<T> = Workspace::new();
        while left > 0
            invariant
                rules@ == self.rules(),
                equation_string@.len() > 0,
                start@ == trimmed(equation_string@),
                w.wf(),
                left == text@.len(),
                left <= total,
                budget <= STALL_LIMIT,
                total == start@.len(),
                spec_convert::<T>(rules@, total as nat, start@, None, STALL_LIMIT as nat, spec_start())
                    == spec_convert(rules@, total as nat, text@, last, budget as nat, w@),
            decreases left, budget,
        {
            let token = match match_next_token(rules, text.as_str(), &last, total - left) {
                Ok(token) => token,
                Err(e) => {
                    return Err(e);
                },
            };
            let rule = &rules[token.rule];
            let rest = token.remainder.as_str().unicode_len();
            proof {
                lemma_part_length(token.remainder@, text@);
            }
            if rest == 0 && !rule.allowed_at_end() {
                return Err(
                    Error::with_detail(
                        ErrorType::SyntaxError,
                        "An expression may not end with a token of the category ",
                        rule.category.title(),
                    ),
                );
            }
            if rest == left && budget == 0 {
                return Err(
                    Error::with_detail(
                        ErrorType::SyntaxError,
                        "The grammar makes no progress at ",
                        text.as_str(),
                    ),
                );
            }
            match w.accept(rule, token.text.as_str()) {
                Ok(()) => {},
                Err(e) => {
                    return Err(e);
                },
            }
            budget = if rest < left {
                STALL_LIMIT
            } else {
                budget - 1
            };
            last = Some(rule.category);
            text = token.remainder;
            left = rest;
        }
        let (program, names) = match w.finish() {
            Ok(parts) => parts,
            Err(e) => {
                return Err(e);
            },
        };
        if program.len() == 0 {
            return Err(Error::new(ErrorType::SyntaxError, "The expression holds nothing to evaluate"));
        }
        let equation = Equation::new(program, names);
        assert(equation.variables@ =~= spec_zeros::<T>(equation.spec_variables().len()));
        // run through the equation to find syntax errors that the rules did not catch
        match equation.evaluate() {
            Ok(_) => Ok(equation),
            Err(e) => match e.error_type {
                ErrorType::SyntaxError => Err(e),
                _ => Ok(equation),
            },
        }
    }
}

} // verus!
