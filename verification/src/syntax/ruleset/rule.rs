use vstd::prelude::*;
use crate::expressions::function::{Function, FunctionView};
use crate::syntax::pattern::{groups, is_match, regex_groups, regex_is_match, regex_source};
use crate::syntax::{contains_category, Associativity, Category};
use crate::text::is_part_of;

verus! {

/// A compiled rule: the pattern that recognises a token, and what the token
/// means to the parser.
#[derive(Debug)]
pub struct Rule {
    pub pattern: regex::Regex,
    pub precedence: u32,
    pub category: Category,
    pub binding: Option<(Function, Associativity)>,
    pub follows: Vec<Category>,
    pub context: i32,
}

/// A rule as contracts speak of it; `source` is the text that the pattern was
/// compiled from.
pub struct RuleView {
    pub source: Seq<char>,
    pub precedence: u32,
    pub category: Category,
    pub binding: Option<(FunctionView, Associativity)>,
    pub follows: Seq<Category>,
    pub context: i32,
}

impl View for Rule {
    type V = RuleView;

    open spec fn view(&self) -> RuleView {
        RuleView {
            source: regex_source(self.pattern),
            precedence: self.precedence,
            category: self.category,
            binding: match self.binding {
                Some((f, a)) => Some((f@, a)),
                None => None,
            },
            follows: self.follows@,
            context: self.context,
        }
    }
}

impl RuleView {
    /// Whether the rule is left-associative; a rule without a binding is not.
    pub open spec fn spec_left_associative(self) -> bool {
        match self.binding {
            Some((_, associativity)) => associativity == Associativity::LeftToRight,
            None => false,
        }
    }
}

impl Rule {
    /// Whether a token of this rule may stand after a token of the category
    /// `token`, or at the start where there is none. Anything may stand after
    /// fluff.
    pub open spec fn spec_can_follow(&self, token: Option<Category>) -> bool {
        match token {
            Some(Category::Fluff) => true,
            Some(category) => self.follows@.contains(category),
            None => self.category.spec_allowed_at_start(),
        }
    }

    /// Whether the rule is left-associative; a rule without a binding is not.
    pub open spec fn spec_left_associative(&self) -> bool {
        self@.spec_left_associative()
    }

    /// Whether the rule accepts what is left of the text: at the end of the
    /// text, whether its category may end an expression; else whether its
    /// pattern matches.
    pub open spec fn spec_matches(&self, text: Seq<char>) -> bool {
        if text.len() == 0 {
            self.category.spec_allowed_at_end()
        } else {
            regex_is_match(self.pattern, text)
        }
    }

    /// The token that the rule finds at the start of `text` and the text after it.
    pub open spec fn spec_get_match(&self, text: Seq<char>) -> Option<(Seq<char>, Seq<char>)> {
        regex_groups(self.pattern, text)
    }

    /// A rule for a separator or for fluff.
    pub fn new_non_expression_rule(pattern: regex::Regex, category: Category, follows: Vec<Category>) -> (r:
        Rule)
        ensures
            r == (Rule { pattern, precedence: 0, category, binding: None, follows, context: 0 }),
    {
        Rule { pattern, precedence: 0, category, binding: None, follows, context: 0 }
    }

    /// A rule for a bracket of the family `pair_context`.
    pub fn new_bracket_rule(
        pattern: regex::Regex,
        category: Category,
        follows: Vec<Category>,
        pair_context: i32,
    ) -> (r: Rule)
        ensures
            r == (Rule { pattern, precedence: 0, category, binding: None, follows, context: pair_context }),
    {
        Rule { pattern, precedence: 0, category, binding: None, follows, context: pair_context }
    }

    /// A rule for an operator, a function or a constant.
    pub fn new_function_rule(
        pattern: regex::Regex,
        precedence: u32,
        category: Category,
        associativity: Associativity,
        binding: Function,
        follows: Vec<Category>,
    ) -> (r: Rule)
        ensures
            r == (Rule {
                pattern,
                precedence,
                category,
                binding: Some((binding, associativity)),
                follows,
                context: 0,
            }),
    {
        Rule { pattern, precedence, category, binding: Some((binding, associativity)), follows, context: 0 }
    }

    /// A rule for number literals.
    pub fn new_literal_rule(pattern: regex::Regex, follows: Vec<Category>) -> (r: Rule)
        ensures
            r == (Rule {
                pattern,
                precedence: 0,
                category: Category::Literals,
                binding: None,
                follows,
                context: 0,
            }),
    {
        Rule { pattern, precedence: 0, category: Category::Literals, binding: None, follows, context: 0 }
    }

    /// A rule for variable names.
    pub fn new_variable_rule(pattern: regex::Regex, follows: Vec<Category>) -> (r: Rule)
        ensures
            r == (Rule {
                pattern,
                precedence: 0,
                category: Category::Variables,
                binding: None,
                follows,
                context: 0,
            }),
    {
        Rule { pattern, precedence: 0, category: Category::Variables, binding: None, follows, context: 0 }
    }

    pub fn allowed_at_start(&self) -> (r: bool)
        ensures
            r == self.category.spec_allowed_at_start(),
    {
        self.category.allowed_at_start()
    }

    pub fn allowed_at_end(&self) -> (r: bool)
        ensures
            r == self.category.spec_allowed_at_end(),
    {
        self.category.allowed_at_end()
    }

    pub fn can_follow(&self, token: Option<Category>) -> (r: bool)
        ensures
            r == self.spec_can_follow(token),
    {
        match token {
            Some(Category::Fluff) => true,
            Some(category) => contains_category(&self.follows, category),
            None => self.category.allowed_at_start(),
        }
    }

    pub fn category(&self) -> (r: Category)
        ensures
            r == self.category,
    {
        self.category
    }

    pub fn binding(&self) -> (r: &Option<(Function, Associativity)>)
        ensures
            *r == self.binding,
    {
        &self.binding
    }

    pub fn bracket_context(&self) -> (r: i32)
        ensures
            r == self.context,
    {
        self.context
    }

    pub fn priority(&self) -> (r: u32)
        ensures
            r == self.category.spec_priority(),
    {
        self.category.priority()
    }

    pub fn precedence(&self) -> (r: u32)
        ensures
            r == self.precedence,
    {
        self.precedence
    }

    pub fn left_associative(&self) -> (r: bool)
        ensures
            r == self.spec_left_associative(),
    {
        match &self.binding {
            Some((_, associativity)) => *associativity == Associativity::LeftToRight,
            None => false,
        }
    }

    pub fn matches(&self, text: &str) -> (r: bool)
        ensures
            r == self.spec_matches(text@),
    {
        if text.is_empty() {
            self.category.allowed_at_end()
        } else {
            is_match(&self.pattern, text)
        }
    }

    pub fn get_match(&self, text: &str) -> (r: Option<(String, String)>)
        ensures
            match r {
                Some((token, rest)) => self.spec_get_match(text@) == Some((token@, rest@)) && is_part_of(
                    token@,
                    text@,
                ) && is_part_of(rest@, text@),
                None => self.spec_get_match(text@).is_none(),
            },
    {
        groups(&self.pattern, text)
    }
}

} // verus!
