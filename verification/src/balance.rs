use vstd::prelude::*;
use crate::expressions::ExpressionView;
use crate::numeric::NumericType;
use crate::parser::{spec_convert, spec_parse, spec_start, STALL_LIMIT};
use crate::shunting::{
    spec_accept,
    spec_close,
    spec_emit,
    spec_finish,
    spec_pop_to_opener,
    spec_pop_yielding,
    PendingView,
    WorkspaceView,
};
use crate::syntax::ruleset::rule::{Rule, RuleView};
use crate::syntax::Category;
use crate::text::trimmed;
use crate::tokenizer::{remainder, spec_next_rule};

verus! {

/// The family of a bracket context: the context without its sign.
pub open spec fn spec_family(context: i32) -> int {
    if context < 0 {
        -context
    } else {
        context as int
    }
}

/// How many opening brackets wait on the operator stack.
pub open spec fn spec_openers(operators: Seq<PendingView>) -> int
    decreases operators.len(),
{
    if operators.len() == 0 {
        0
    } else {
        spec_openers(operators.drop_last()) + if operators.last().category == Category::OpenBrackets {
            1int
        } else {
            0int
        }
    }
}

/// How many brackets of the family `family` are open.
pub open spec fn spec_depth(brackets: Seq<i32>, family: int) -> int
    decreases brackets.len(),
{
    if brackets.len() == 0 {
        0
    } else {
        spec_depth(brackets.drop_last(), family) + if spec_family(brackets.last()) == family {
            1int
        } else {
            0int
        }
    }
}

/// What a token of `rule` adds to the counter of the family `family`: one for
/// an opening bracket of the family, minus one for a closing bracket of it.
pub open spec fn spec_count(rule: RuleView, family: int) -> int {
    if spec_family(rule.context) != family {
        0
    } else if rule.category == Category::OpenBrackets {
        1
    } else if rule.category == Category::CloseBrackets {
        -1
    } else {
        0
    }
}

/// The tokens that the conversion of `text` takes in, in order: each with the
/// place of its rule in the grammar and with its text.
pub open spec fn spec_tokens(rules: Seq<Rule>, text: Seq<char>, last: Option<Category>, budget: nat) -> Seq<
    (int, Seq<char>),
>
    decreases text.len(), budget,
{
    if text.len() == 0 {
        Seq::empty()
    } else {
        match spec_next_rule(rules, text, last) {
            None => Seq::empty(),
            Some(i) => {
                let rest = remainder(rules, i, text);
                if rest.len() == 0 && !rules[i].category.spec_allowed_at_end() {
                    Seq::empty()
                } else if rest.len() > text.len() || (rest.len() == text.len() && budget == 0) {
                    Seq::empty()
                } else {
                    seq![(i, crate::tokenizer::lexeme(rules, i, text))] + spec_tokens(
                        rules,
                        rest,
                        Some(rules[i].category),
                        if rest.len() < text.len() {
                            STALL_LIMIT as nat
                        } else {
                            (budget - 1) as nat
                        },
                    )
                }
            },
        }
    }
}

/// The counter of the family `family` after the tokens `tokens`.
pub open spec fn spec_net(rules: Seq<Rule>, tokens: Seq<(int, Seq<char>)>, family: int) -> int
    decreases tokens.len(),
{
    if tokens.len() == 0 {
        0
    } else {
        spec_count(rules[tokens[0].0]@, family) + spec_net(rules, tokens.drop_first(), family)
    }
}

proof fn lemma_openers_push(operators: Seq<PendingView>, entry: PendingView)
    ensures
        spec_openers(operators.push(entry)) == spec_openers(operators) + if entry.category == Category::OpenBrackets {
            1int
        } else {
            0int
        },
{
    assert(operators.push(entry).drop_last() =~= operators);
}

proof fn lemma_depth_push(brackets: Seq<i32>, context: i32, family: int)
    ensures
        spec_depth(brackets.push(context), family) == spec_depth(brackets, family) + if spec_family(context) == family {
            1int
        } else {
            0int
        },
{
    assert(brackets.push(context).drop_last() =~= brackets);
}

proof fn lemma_pop_yielding_keeps_openers<T>(
    operators: Seq<PendingView>,
    output: Seq<ExpressionView<T>>,
    precedence: u32,
    left: bool,
)
    ensures
        spec_openers(spec_pop_yielding(operators, output, precedence, left).0) == spec_openers(operators),
    decreases operators.len(),
{
    if operators.len() > 0 && crate::shunting::spec_yields(operators.last(), precedence, left) {
        lemma_pop_yielding_keeps_openers(operators.drop_last(), spec_emit(output, operators.last()), precedence, left);
    }
}

proof fn lemma_pop_to_opener_keeps_openers<T>(operators: Seq<PendingView>, output: Seq<ExpressionView<T>>)
    ensures
        spec_openers(spec_pop_to_opener(operators, output).0) == spec_openers(operators),
        spec_pop_to_opener(operators, output).0.len() > 0 ==> spec_pop_to_opener(
            operators,
            output,
        ).0.last().category == Category::OpenBrackets,
    decreases operators.len(),
{
    if operators.len() > 0 && operators.last().category != Category::OpenBrackets {
        lemma_pop_to_opener_keeps_openers(operators.drop_last(), spec_emit(output, operators.last()));
    }
}

/// A token changes the number of open brackets of a family by its count, and
/// as many opening brackets wait on the operator stack as brackets are open.
proof fn lemma_accept_counts<T: NumericType>(w: WorkspaceView<T>, rule: RuleView, token: Seq<char>, family: int)
    requires
        spec_accept(w, rule, token) is Ok,
        spec_openers(w.operators) == w.brackets.len(),
    ensures
        spec_openers(spec_accept(w, rule, token)->Ok_0.operators) == spec_accept(w, rule, token)->Ok_0.brackets.len(),
        spec_depth(spec_accept(w, rule, token)->Ok_0.brackets, family) == spec_depth(w.brackets, family) + spec_count(
            rule,
            family,
        ),
{
    let next = spec_accept(w, rule, token)->Ok_0;
    let created = crate::shunting::spec_create_expression::<T>(rule, token, w.names);
    assert(created is Ok);
    match rule.category {
        Category::Functions => {
            assert(next.brackets == w.brackets);
            assert(next.operators.len() == w.operators.len() + 1);
            assert(next.operators.last().category == Category::Functions);
            assert(next.operators =~= w.operators.push(next.operators.last()));
            lemma_openers_push(w.operators, next.operators.last());
        },
        Category::Operators | Category::ImplicitOperators => {
            lemma_pop_yielding_keeps_openers(w.operators, w.output, rule.precedence, rule.spec_left_associative());
            let popped = spec_pop_yielding(w.operators, w.output, rule.precedence, rule.spec_left_associative()).0;
            lemma_openers_push(popped, next.operators.last());
            assert(next.operators =~= popped.push(next.operators.last()));
        },
        Category::Separators => {
            lemma_pop_to_opener_keeps_openers(w.operators, w.output);
        },
        Category::OpenBrackets => {
            lemma_openers_push(w.operators, next.operators.last());
            assert(next.operators =~= w.operators.push(next.operators.last()));
            lemma_depth_push(w.brackets, rule.context, family);
        },
        Category::CloseBrackets => {
            lemma_pop_to_opener_keeps_openers(w.operators, w.output);
            let popped = spec_pop_to_opener(w.operators, w.output).0;
            assert(spec_close(w, rule.context, token) is Ok);
            assert(spec_family(w.brackets.last()) == spec_family(rule.context));
            let below = popped.drop_last();
            assert(spec_openers(popped) == spec_openers(below) + 1);
            if below.len() > 0 && below.last().category == Category::Functions {
                assert(spec_openers(below) == spec_openers(below.drop_last()));
            }
        },
        _ => {},
    }
}

/// Along a conversion that succeeds, as many opening brackets wait on the
/// operator stack as brackets are open, and the number of open brackets of a
/// family changes by the counter of the tokens taken in.
proof fn lemma_convert_counts<T: NumericType>(
    rules: Seq<Rule>,
    total: nat,
    text: Seq<char>,
    last: Option<Category>,
    budget: nat,
    w: WorkspaceView<T>,
    family: int,
)
    requires
        spec_convert(rules, total, text, last, budget, w) is Ok,
        spec_openers(w.operators) == w.brackets.len(),
    ensures
        spec_openers(spec_convert(rules, total, text, last, budget, w)->Ok_0.operators) == spec_convert(
            rules,
            total,
            text,
            last,
            budget,
            w,
        )->Ok_0.brackets.len(),
        spec_depth(spec_convert(rules, total, text, last, budget, w)->Ok_0.brackets, family) == spec_depth(
            w.brackets,
            family,
        ) + spec_net(rules, spec_tokens(rules, text, last, budget), family),
    decreases text.len(), budget,
{
    if text.len() > 0 {
        let i = spec_next_rule(rules, text, last)->Some_0;
        let rest = remainder(rules, i, text);
        let left: nat = if rest.len() < text.len() {
            STALL_LIMIT as nat
        } else {
            (budget - 1) as nat
        };
        let token = crate::tokenizer::lexeme(rules, i, text);
        let next = spec_accept(w, rules[i]@, token)->Ok_0;
        lemma_accept_counts(w, rules[i]@, token, family);
        lemma_convert_counts(rules, total, rest, Some(rules[i].category), left, next, family);
        let after = spec_tokens(rules, rest, Some(rules[i].category), left);
        let tokens = spec_tokens(rules, text, last, budget);
        assert(tokens == seq![(i, token)] + after);
        assert(tokens[0].0 == i);
        assert(tokens.drop_first() =~= after);
    }
}

/// Where the conversion can end, no opening bracket waits on the operator stack.
proof fn lemma_finish_no_openers<T>(operators: Seq<PendingView>, output: Seq<ExpressionView<T>>)
    requires
        spec_finish(operators, output) is Ok,
    ensures
        spec_openers(operators) == 0,
    decreases operators.len(),
{
    if operators.len() > 0 {
        lemma_finish_no_openers(operators.drop_last(), spec_emit(output, operators.last()));
    }
}

/// The brackets of a text that parses are balanced: for every family, the
/// tokens of the text hold as many opening brackets of the family as closing
/// ones, so that a counter of the family is zero at the end.
pub proof fn brackets_are_balanced<T: NumericType>(rules: Seq<Rule>, text: Seq<char>, family: int)
    requires
        spec_parse::<T>(rules, text) is Ok,
    ensures
        spec_net(rules, spec_tokens(rules, trimmed(text), None, STALL_LIMIT as nat), family) == 0,
{
    let start = spec_start::<T>();
    let w = spec_convert::<T>(rules, trimmed(text).len(), trimmed(text), None, STALL_LIMIT as nat, start)->Ok_0;
    lemma_convert_counts::<T>(rules, trimmed(text).len(), trimmed(text), None, STALL_LIMIT as nat, start, family);
    lemma_finish_no_openers(w.operators, w.output);
    assert(w.brackets.len() == 0);
}

} // verus!
