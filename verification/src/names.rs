use vstd::prelude::*;
use crate::balance::spec_tokens;
use crate::equation::{names_distinct, spec_position};
use crate::numeric::NumericType;
use crate::parser::{spec_convert, spec_parse, spec_start, STALL_LIMIT};
use crate::shunting::{spec_accept, spec_create_expression, WorkspaceView};
use crate::syntax::ruleset::rule::{Rule, RuleView};
use crate::syntax::Category;
use crate::text::trimmed;
use crate::tokenizer::{lexeme, remainder, spec_next_rule};

verus! {

/// Whether `name` is the text of a variable token among `tokens`.
pub open spec fn is_variable_token(rules: Seq<Rule>, tokens: Seq<(int, Seq<char>)>, name: Seq<char>) -> bool {
    exists|k: int|
        0 <= k < tokens.len() && rules[(#[trigger] tokens[k]).0].category == Category::Variables && tokens[k].1
            == name
}

/// A token leaves the names distinct, and adds its text to them where it is
/// a variable token and the name is new.
proof fn lemma_accept_names<T: NumericType>(w: WorkspaceView<T>, rule: RuleView, token: Seq<char>)
    requires
        spec_accept(w, rule, token) is Ok,
        names_distinct(w.names),
    ensures
        names_distinct(spec_accept(w, rule, token)->Ok_0.names),
        forall|x: Seq<char>|
            #[trigger] spec_accept(w, rule, token)->Ok_0.names.contains(x) <==> (w.names.contains(x) || (
            rule.category == Category::Variables && x == token)),
{
    let next = spec_accept(w, rule, token)->Ok_0;
    let created = spec_create_expression::<T>(rule, token, w.names);
    assert(created is Ok);
    if rule.category == Category::Variables {
        match spec_position(w.names, token) {
            Some(i) => {
                assert(next.names == w.names);
                assert(w.names[i] == token);
                assert(w.names.contains(token));
            },
            None => {
                assert(next.names == w.names.push(token));
                assert forall|a: int, b: int| 0 <= a < b < next.names.len() implies #[trigger] next.names[a]
                    != #[trigger] next.names[b] by {
                    if b < w.names.len() {
                        assert(w.names[a] != w.names[b]);
                    } else {
                        assert(w.names[a] != token);
                    }
                }
                assert forall|x: Seq<char>| #[trigger] next.names.contains(x) <==> (w.names.contains(x) || x == token) by {
                    if next.names.contains(x) {
                        let k = choose|k: int| 0 <= k < next.names.len() && next.names[k] == x;
                        if k < w.names.len() {
                            assert(w.names[k] == x);
                        }
                    }
                    if w.names.contains(x) {
                        let k = choose|k: int| 0 <= k < w.names.len() && w.names[k] == x;
                        assert(next.names[k] == x);
                    }
                    if x == token {
                        assert(next.names[w.names.len() as int] == x);
                    }
                }
            },
        }
    } else {
        assert(next.names == w.names);
    }
}

/// A name is the text of a variable token of a list of tokens where it is
/// that of the first token or of one of the others.
proof fn lemma_variable_token_first(rules: Seq<Rule>, first: (int, Seq<char>), others: Seq<(int, Seq<char>)>, name: Seq<char>)
    ensures
        is_variable_token(rules, seq![first] + others, name) <==> ((rules[first.0].category == Category::Variables
            && first.1 == name) || is_variable_token(rules, others, name)),
{
    let tokens = seq![first] + others;
    if is_variable_token(rules, others, name) {
        let k = choose|k: int|
            0 <= k < others.len() && rules[(#[trigger] others[k]).0].category == Category::Variables && others[k].1
                == name;
        assert(tokens[k + 1] == others[k]);
    }
    if rules[first.0].category == Category::Variables && first.1 == name {
        assert(tokens[0] == first);
    }
    if is_variable_token(rules, tokens, name) {
        let k = choose|k: int|
            0 <= k < tokens.len() && rules[(#[trigger] tokens[k]).0].category == Category::Variables && tokens[k].1
                == name;
        if k > 0 {
            assert(others[k - 1] == tokens[k]);
        } else {
            assert(tokens[0] == first);
        }
    }
}

/// Whether `after` holds the names of `before` and the texts of the variable
/// tokens among `tokens`, and no others.
pub open spec fn names_gained(
    rules: Seq<Rule>,
    tokens: Seq<(int, Seq<char>)>,
    before: Seq<Seq<char>>,
    after: Seq<Seq<char>>,
) -> bool {
    forall|x: Seq<char>| #[trigger] after.contains(x) <==> (before.contains(x) || is_variable_token(rules, tokens, x))
}

/// Along a conversion that succeeds the names stay distinct, and the names at
/// the end are those at the start and the texts of the variable tokens.
proof fn lemma_convert_names<T: NumericType>(
    rules: Seq<Rule>,
    total: nat,
    text: Seq<char>,
    last: Option<Category>,
    budget: nat,
    w: WorkspaceView<T>,
)
    requires
        spec_convert(rules, total, text, last, budget, w) is Ok,
        names_distinct(w.names),
    ensures
        names_distinct(spec_convert(rules, total, text, last, budget, w)->Ok_0.names),
        names_gained(
            rules,
            spec_tokens(rules, text, last, budget),
            w.names,
            spec_convert(rules, total, text, last, budget, w)->Ok_0.names,
        ),
    decreases text.len(), budget,
{
    let end = spec_convert(rules, total, text, last, budget, w)->Ok_0;
    let tokens = spec_tokens(rules, text, last, budget);
    if text.len() > 0 {
        let i = spec_next_rule(rules, text, last)->Some_0;
        let rest = remainder(rules, i, text);
        let left: nat = if rest.len() < text.len() {
            STALL_LIMIT as nat
        } else {
            (budget - 1) as nat
        };
        let token = lexeme(rules, i, text);
        let next = spec_accept(w, rules[i]@, token)->Ok_0;
        lemma_accept_names(w, rules[i]@, token);
        lemma_convert_names(rules, total, rest, Some(rules[i].category), left, next);
        let after = spec_tokens(rules, rest, Some(rules[i].category), left);
        assert(tokens == seq![(i, token)] + after);
        assert(end == spec_convert(rules, total, rest, Some(rules[i].category), left, next)->Ok_0);
        assert forall|x: Seq<char>| #[trigger] end.names.contains(x) <==> (w.names.contains(x) || is_variable_token(
            rules,
            tokens,
            x,
        )) by {
            lemma_variable_token_first(rules, (i, token), after, x);
            assert(end.names.contains(x) <==> (next.names.contains(x) || is_variable_token(rules, after, x)));
            assert(next.names.contains(x) <==> (w.names.contains(x) || (rules[i]@.category == Category::Variables
                && x == token)));
        }
    } else {
        assert(tokens.len() == 0);
        assert(end == w);
    }
}

/// The texts of the variable tokens among `tokens`, each once.
pub open spec fn spec_variable_texts(rules: Seq<Rule>, tokens: Seq<(int, Seq<char>)>) -> Set<Seq<char>> {
    Set::new(|name: Seq<char>| is_variable_token(rules, tokens, name))
}

/// The variables of an expression that parses are the texts of the variable
/// tokens of its text, each name once: as many variables as there are
/// distinct variable names in the text.
pub proof fn variables_are_the_variable_tokens<T: NumericType>(rules: Seq<Rule>, text: Seq<char>)
    requires
        spec_parse::<T>(rules, text) is Ok,
    ensures
        names_distinct(spec_parse::<T>(rules, text)->Ok_0.1),
        spec_parse::<T>(rules, text)->Ok_0.1.len() == spec_variable_texts(
            rules,
            spec_tokens(rules, trimmed(text), None, STALL_LIMIT as nat),
        ).len(),
        forall|x: Seq<char>|
            #[trigger] spec_parse::<T>(rules, text)->Ok_0.1.contains(x) <==> is_variable_token(
                rules,
                spec_tokens(rules, trimmed(text), None, STALL_LIMIT as nat),
                x,
            ),
{
    let start = spec_start::<T>();
    lemma_convert_names::<T>(rules, trimmed(text).len(), trimmed(text), None, STALL_LIMIT as nat, start);
    let w = spec_convert::<T>(rules, trimmed(text).len(), trimmed(text), None, STALL_LIMIT as nat, start)->Ok_0;
    let names = spec_parse::<T>(rules, text)->Ok_0.1;
    assert(names == w.names);
    assert forall|x: Seq<char>| #[trigger] names.contains(x) <==> is_variable_token(
        rules,
        spec_tokens(rules, trimmed(text), None, STALL_LIMIT as nat),
        x,
    ) by {
        assert(!start.names.contains(x));
    }
    let texts = spec_variable_texts(rules, spec_tokens(rules, trimmed(text), None, STALL_LIMIT as nat));
    assert(names.no_duplicates()) by {
        assert forall|i: int, j: int| 0 <= i < names.len() && 0 <= j < names.len() && i != j implies names[i]
            != names[j] by {
            if i < j {
                assert(names[i] != names[j]);
            } else {
                assert(names[j] != names[i]);
            }
        }
    }
    names.unique_seq_to_set();
    assert(names.to_set() =~= texts) by {
        assert forall|x: Seq<char>| names.to_set().contains(x) <==> texts.contains(x) by {
            assert(names.to_set().contains(x) <==> names.contains(x));
        }
    }
}

} // verus!
