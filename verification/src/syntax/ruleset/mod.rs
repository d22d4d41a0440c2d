use vstd::prelude::*;
use vstd::string::StringExecFns;
use crate::bindings::registry::{spec_lookup, BindingMap};
use crate::error::{Error, ErrorType};
use crate::expressions::function::FunctionView;
use crate::syntax::pattern::{compile, escape, regex_valid, spec_escape};
use crate::syntax::ruleset::rule::{Rule, RuleView};
use crate::syntax::{
    Associativity,
    Category,
    CategoryEntryView,
    RuleCategoryDefinition,
    RuleCategoryDefinitionView,
    RuleCollectionDefinition,
    RuleDefinition,
    RuleDefinitionView,
};
use crate::syntax::spec_names_each_once;

pub mod rule;

verus! {

/// Whether rules of `category` compute with a binding.
pub open spec fn needs_binding(category: Category) -> bool {
    category == Category::Constants || category == Category::Functions || category == Category::Operators
        || category == Category::ImplicitOperators
}

/// Whether `category` is one of the two operator categories.
pub open spec fn is_operator(category: Category) -> bool {
    category == Category::Operators || category == Category::ImplicitOperators
}

/// Whether `category` is one of the two bracket categories.
pub open spec fn is_bracket(category: Category) -> bool {
    category == Category::OpenBrackets || category == Category::CloseBrackets
}

/// The text that the pattern of a rule is compiled from: the rule's pattern,
/// taken literally unless the rule says it is a regular expression, anchored
/// at the start, matched without regard to case, in a first group that is
/// followed by a second group for the rest of the line.
pub open spec fn spec_pattern_source(definition: RuleDefinitionView) -> Seq<char> {
    let pattern = match definition.pattern {
        Some(p) => p,
        None => Seq::empty(),
    };
    let inner = if definition.pattern_is_regex == Some(true) {
        pattern
    } else {
        spec_escape(pattern)
    };
    "^(?i)("@ + inner + ")(.*)"@
}

/// The precedence of a rule: its own, else the default of its category, else
/// none for an operator and zero for anything else.
pub open spec fn spec_precedence(
    category: Category,
    defaults: RuleCategoryDefinitionView,
    definition: RuleDefinitionView,
) -> Option<u32> {
    match definition.precedence {
        Some(p) => Some(p),
        None => match defaults.default_precedence {
            Some(p) => Some(p),
            None => if is_operator(category) {
                None
            } else {
                Some(0)
            },
        },
    }
}

/// The associativity of a rule: its own, else the default of its category,
/// else left to right.
pub open spec fn spec_associativity(defaults: RuleCategoryDefinitionView, definition: RuleDefinitionView) -> Associativity {
    match definition.associativity {
        Some(a) => a,
        None => match defaults.default_associativity {
            Some(a) => a,
            None => Associativity::LeftToRight,
        },
    }
}

/// The categories that a rule may follow: its own list, else that of its category.
pub open spec fn spec_follows(defaults: RuleCategoryDefinitionView, definition: RuleDefinitionView) -> Seq<Category> {
    match definition.may_follow {
        Some(list) => list,
        None => defaults.may_follow,
    }
}

/// The rule that a definition compiles to, or `None` where the definition is
/// refused: an implicit operator has no pattern and every other rule has
/// one; the pattern compiles; a bracket has a context; an operator, a
/// function or a constant names a binding that `bindings` holds; an operator
/// has a precedence.
pub open spec fn spec_rule(
    category: Category,
    defaults: RuleCategoryDefinitionView,
    definition: RuleDefinitionView,
    bindings: Seq<FunctionView>,
) -> Option<RuleView> {
    let source = spec_pattern_source(definition);
    let follows = spec_follows(defaults, definition);
    if definition.pattern.is_none() != (category == Category::ImplicitOperators) {
        None
    } else if !regex_valid(source) {
        None
    } else if is_bracket(category) {
        match definition.context {
            Some(context) => Some(
                RuleView { source, precedence: 0, category, binding: None, follows, context },
            ),
            None => None,
        }
    } else if needs_binding(category) {
        match definition.binding {
            Some(label) => match (spec_lookup(bindings, label), spec_precedence(category, defaults, definition)) {
                (Some(function), Some(precedence)) => Some(
                    RuleView {
                        source,
                        precedence,
                        category,
                        binding: Some((function, spec_associativity(defaults, definition))),
                        follows,
                        context: 0,
                    },
                ),
                _ => None,
            },
            None => None,
        }
    } else {
        Some(RuleView { source, precedence: 0, category, binding: None, follows, context: 0 })
    }
}

/// The rules that the first `n` definitions of a category compile to, in
/// order, or `None` where one of them is refused.
pub open spec fn spec_rules_upto(entry: CategoryEntryView, bindings: Seq<FunctionView>, n: int) -> Option<
    Seq<RuleView>,
>
    decreases n,
{
    if n <= 0 {
        Some(Seq::empty())
    } else {
        match (
            spec_rules_upto(entry, bindings, n - 1),
            spec_rule(entry.category, entry.definition, entry.definition.rules[n - 1], bindings),
        ) {
            (Some(rules), Some(rule)) => Some(rules.push(rule)),
            _ => None,
        }
    }
}

/// The rules that a category compiles to; a category without rules is refused.
pub open spec fn spec_category_rules(entry: CategoryEntryView, bindings: Seq<FunctionView>) -> Option<Seq<RuleView>> {
    if entry.definition.rules.len() == 0 {
        None
    } else {
        spec_rules_upto(entry, bindings, entry.definition.rules.len() as int)
    }
}

/// The rules that the first `n` categories of a definition compile to, in
/// order, or `None` where a rule or a category is refused.
pub open spec fn spec_ruleset_upto(entries: Seq<CategoryEntryView>, bindings: Seq<FunctionView>, n: int) -> Option<
    Seq<RuleView>,
>
    decreases n,
{
    if n <= 0 {
        Some(Seq::empty())
    } else {
        match (spec_ruleset_upto(entries, bindings, n - 1), spec_category_rules(entries[n - 1], bindings)) {
            (Some(rules), Some(more)) => Some(rules + more),
            _ => None,
        }
    }
}

/// The rules that a definition compiles to with the bindings `bindings`; a
/// definition that holds a category twice is refused.
pub open spec fn spec_ruleset(entries: Seq<CategoryEntryView>, bindings: Seq<FunctionView>) -> Option<Seq<RuleView>> {
    if spec_names_each_once(entries) {
        spec_ruleset_upto(entries, bindings, entries.len() as int)
    } else {
        None
    }
}

/// Once a definition of a category is refused, the category is.
proof fn lemma_rules_refused(entry: CategoryEntryView, bindings: Seq<FunctionView>, n: int, m: int)
    requires
        0 <= n <= m,
        spec_rules_upto(entry, bindings, n).is_none(),
    ensures
        spec_rules_upto(entry, bindings, m).is_none(),
    decreases m - n,
{
    if n < m {
        lemma_rules_refused(entry, bindings, n, m - 1);
    }
}

/// Once a category of a definition is refused, the definition is.
proof fn lemma_ruleset_refused(entries: Seq<CategoryEntryView>, bindings: Seq<FunctionView>, n: int, m: int)
    requires
        0 <= n <= m,
        spec_ruleset_upto(entries, bindings, n).is_none(),
    ensures
        spec_ruleset_upto(entries, bindings, m).is_none(),
    decreases m - n,
{
    if n < m {
        lemma_ruleset_refused(entries, bindings, n, m - 1);
    }
}

/// The views of `rules`, in order.
pub open spec fn rule_views(rules: Seq<Rule>) -> Seq<RuleView> {
    Seq::new(rules.len(), |i: int| rules[i]@)
}

/// A copy of `list`.
pub fn copy_categories(list: &Vec<Category>) -> (r: Vec<Category>)
    ensures
        r@ == list@,
{
    let mut r: Vec<Category> = Vec::new();
    let mut i: usize = 0;
    while i < list.len()
        invariant
            i <= list@.len(),
            r@ == list@.take(i as int),
        decreases list@.len() - i,
    {
        r.push(list[i]);
        assert(r@ =~= list@.take(i + 1));
        i += 1;
    }
    assert(list@.take(list@.len() as int) =~= list@);
    r
}

/// Compiles one rule of `category`.
pub fn compile_rule(
    category: Category,
    defaults: &RuleCategoryDefinition,
    definition: &RuleDefinition,
    bindings: &BindingMap,
) -> (r: Result<Rule, Error>)
    ensures
        match r {
            Ok(rule) => spec_rule(category, defaults@, definition@, bindings@) == Some(rule@),
            Err(e) => e.error_type == ErrorType::RuleParseError && spec_rule(
                category,
                defaults@,
                definition@,
                bindings@,
            ).is_none(),
        },
{
    let implicit = category == Category::ImplicitOperators;
    let inner = match &definition.pattern {
        None => {
            if !implicit {
                return Err(Error::new(ErrorType::RuleParseError, "Rules require field 'pattern'"));
            }
            let empty = String::new();
            assert(spec_escape(empty@) =~= empty@);
            empty
        },
        Some(pattern) => {
            if implicit {
                return Err(
                    Error::new(ErrorType::RuleParseError, "ImplicitOperators do not support field 'pattern'"),
                );
            }
            match definition.pattern_is_regex {
                Some(true) => pattern.clone(),
                _ => escape(pattern.as_str()),
            }
        },
    };
    let source = String::from_str("^(?i)(").concat(inner.as_str()).concat(")(.*)");
    assert(source@ == spec_pattern_source(definition@));
    let pattern = match compile(source.as_str()) {
        Some(pattern) => pattern,
        None => {
            return Err(
                Error::with_detail(
                    ErrorType::RuleParseError,
                    "Rule pattern is not a valid regex: ",
                    inner.as_str(),
                ),
            );
        },
    };
    let follows = match &definition.may_follow {
        Some(list) => copy_categories(list),
        None => copy_categories(&defaults.may_follow),
    };
    match category {
        Category::Literals => Ok(Rule::new_literal_rule(pattern, follows)),
        Category::Variables => Ok(Rule::new_variable_rule(pattern, follows)),
        Category::Separators | Category::Fluff => Ok(Rule::new_non_expression_rule(pattern, category, follows)),
        Category::OpenBrackets | Category::CloseBrackets => match definition.context {
            Some(context) => Ok(Rule::new_bracket_rule(pattern, category, follows, context)),
            None => Err(
                Error::new(ErrorType::RuleParseError, "Bracket rules require integer field 'context'"),
            ),
        },
        _ => {
            let label = match &definition.binding {
                Some(label) => label,
                None => {
                    return Err(
                        Error::new(
                            ErrorType::RuleParseError,
                            "Function, Operator and Constant rules require string field 'binding'",
                        ),
                    );
                },
            };
            let function = match bindings.get_binding(label.as_str()) {
                Some(function) => function,
                None => {
                    return Err(
                        Error::with_detail(
                            ErrorType::RuleParseError,
                            "No binding found with label ",
                            label.as_str(),
                        ),
                    );
                },
            };
            let associativity = match definition.associativity {
                Some(a) => a,
                None => match defaults.default_associativity {
                    Some(a) => a,
                    None => Associativity::LeftToRight,
                },
            };
            let precedence = match definition.precedence {
                Some(p) => p,
                None => match defaults.default_precedence {
                    Some(p) => p,
                    None => match category {
                        Category::Operators | Category::ImplicitOperators => {
                            return Err(
                                Error::new(
                                    ErrorType::RuleParseError,
                                    "Field 'precedence' is required for Operator rules",
                                ),
                            );
                        },
                        _ => 0,
                    },
                },
            };
            Ok(Rule::new_function_rule(pattern, precedence, category, associativity, function, follows))
        },
    }
}

/// The compiled rules of a grammar.
#[derive(Debug)]
pub struct Ruleset {
    pub rules: Vec<Rule>,
}

impl View for Ruleset {
    type V = Seq<RuleView>;

    open spec fn view(&self) -> Seq<RuleView> {
        rule_views(self.rules@)
    }
}

impl Ruleset {
    /// Compiles `definitions` with the bindings `bindings`: the rules of each
    /// category in the order of the definition. A definition that holds a
    /// category twice, a refused rule or a category without rules is a
    /// `RuleParseError`.
    pub fn create(definitions: &RuleCollectionDefinition, bindings: &BindingMap) -> (r: Result<Ruleset, Error>)
        ensures
            match r {
                Ok(ruleset) => spec_ruleset(definitions@, bindings@) == Some(ruleset@),
                Err(e) => e.error_type == ErrorType::RuleParseError && spec_ruleset(
                    definitions@,
                    bindings@,
                ).is_none(),
            },
    {
        if !definitions.names_each_once() {
            return Err(Error::new(ErrorType::RuleParseError, "A category is defined twice"));
        }
        let mut rules: Vec<Rule> = Vec::new();
        let mut c: usize = 0;
        let ghost entries = definitions@;
        assert(rule_views(rules@) =~= Seq::<RuleView>::empty());
        while c < definitions.entries.len()
            invariant
                entries == definitions@,
                spec_names_each_once(entries),
                c <= entries.len(),
                spec_ruleset_upto(entries, bindings@, c as int) == Some(rule_views(rules@)),
            decreases entries.len() - c,
        {
            let entry = &definitions.entries[c];
            let ghost before = rule_views(rules@);
            if entry.definition.rules.len() == 0 {
                proof {
                    lemma_ruleset_refused(entries, bindings@, c + 1, entries.len() as int);
                }
                return Err(Error::with_detail(ErrorType::RuleParseError, "No rules in category ", entry.category.name()));
            }
            let mut k: usize = 0;
            while k < entry.definition.rules.len()
                invariant
                    entries == definitions@,
                    spec_names_each_once(entries),
                    c < entries.len(),
                    entry@ == entries[c as int],
                    k <= entry.definition.rules@.len(),
                    spec_ruleset_upto(entries, bindings@, c as int) == Some(before),
                    spec_rules_upto(entry@, bindings@, k as int) matches Some(done) && rule_views(rules@)
                        == before + done,
                decreases entry.definition.rules@.len() - k,
            {
                let ghost done = spec_rules_upto(entry@, bindings@, k as int).unwrap();
                assert(entry@.definition.rules[k as int] == entry.definition.rules@[k as int]@);
                match compile_rule(entry.category, &entry.definition, &entry.definition.rules[k], bindings) {
                    Ok(rule) => {
                        let ghost view = rule@;
                        let ghost prior = rule_views(rules@);
                        rules.push(rule);
                        assert(rule_views(rules@) =~= prior.push(view));
                        assert(prior.push(view) =~= before + done.push(view));
                    },
                    Err(e) => {
                        proof {
                            lemma_rules_refused(
                                entry@,
                                bindings@,
                                k + 1,
                                entry.definition.rules@.len() as int,
                            );
                            lemma_ruleset_refused(entries, bindings@, c + 1, entries.len() as int);
                        }
                        return Err(e);
                    },
                }
                k += 1;
            }
            c += 1;
        }
        Ok(Ruleset { rules })
    }

    /// How many rules the grammar has.
    pub fn len(&self) -> (n: usize)
        ensures
            n == self@.len(),
    {
        self.rules.len()
    }
}

} // verus!
