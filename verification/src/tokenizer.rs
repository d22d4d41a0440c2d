use vstd::prelude::*;
use vstd::string::StringExecFns;
use crate::error::{Error, ErrorType};
use crate::syntax::ruleset::rule::Rule;
use crate::syntax::{spec_category_title, Category};
use crate::text::{decimal, is_part_of, spec_decimal, trim, trimmed};

verus! {

/// A token: the rule that recognised it, its text, and the text that is left
/// after it, without the white space around that.
#[derive(Debug)]
pub struct Token {
    pub rule: usize,
    pub text: String,
    pub remainder: String,
}

/// Whether rule `i` finds a token at the start of `text` and may stand after
/// a token of the category `last`.
pub open spec fn valid_at(rules: Seq<Rule>, i: int, text: Seq<char>, last: Option<Category>) -> bool {
    0 <= i < rules.len() && rules[i].spec_get_match(text).is_some() && rules[i].spec_can_follow(last)
}

/// The token that rule `i` finds at the start of `text`.
pub open spec fn lexeme(rules: Seq<Rule>, i: int, text: Seq<char>) -> Seq<char> {
    rules[i].spec_get_match(text).unwrap().0
}

/// The text that is left after the token of rule `i`.
pub open spec fn remainder(rules: Seq<Rule>, i: int, text: Seq<char>) -> Seq<char> {
    trimmed(rules[i].spec_get_match(text).unwrap().1)
}

/// Whether some rule is valid here with a token that is not empty.
pub open spec fn has_explicit(rules: Seq<Rule>, text: Seq<char>, last: Option<Category>) -> bool {
    exists|j: int| #[trigger] valid_at(rules, j, text, last) && lexeme(rules, j, text).len() > 0
}

/// Whether rule `i` is considered: it is valid, and its token is not empty
/// unless no valid rule has a token that is not empty.
pub open spec fn shortlisted(rules: Seq<Rule>, i: int, text: Seq<char>, last: Option<Category>) -> bool {
    valid_at(rules, i, text, last) && (lexeme(rules, i, text).len() > 0 || !has_explicit(rules, text, last))
}

/// Whether rule `i` is the only one considered.
pub open spec fn sole(rules: Seq<Rule>, i: int, text: Seq<char>, last: Option<Category>) -> bool {
    forall|j: int| #[trigger] shortlisted(rules, j, text, last) ==> j == i
}

/// Whether rule `j` accepts what is left after the token of rule `i`.
pub open spec fn continues(rules: Seq<Rule>, i: int, j: int, text: Seq<char>) -> bool {
    0 <= j < rules.len() && rules[j].spec_matches(remainder(rules, i, text)) && rules[j].spec_can_follow(
        Some(rules[i].category),
    )
}

/// Whether some rule accepts what is left after the token of rule `i`.
pub open spec fn leads_on(rules: Seq<Rule>, i: int, text: Seq<char>) -> bool {
    exists|j: int| #[trigger] continues(rules, i, j, text)
}

/// Whether rule `i` can be the next token: it is considered, and it is the
/// only one or the text after it can go on.
pub open spec fn eligible(rules: Seq<Rule>, i: int, text: Seq<char>, last: Option<Category>) -> bool {
    shortlisted(rules, i, text, last) && (sole(rules, i, text, last) || leads_on(rules, i, text))
}

/// The length of the token of rule `i`, in bytes.
pub open spec fn lexeme_size(rules: Seq<Rule>, i: int, text: Seq<char>) -> usize {
    vstd::utf8::encode_utf8(lexeme(rules, i, text)).len() as usize
}

/// Whether rule `i` is preferred to rule `j` or is rule `j` itself: by the
/// priority of the category, then by the length of the token, then by the
/// later place in the grammar.
pub open spec fn preferred(rules: Seq<Rule>, i: int, j: int, text: Seq<char>) -> bool {
    let pi = rules[i].category.spec_priority();
    let pj = rules[j].category.spec_priority();
    let si = lexeme_size(rules, i, text);
    let sj = lexeme_size(rules, j, text);
    pi > pj || (pi == pj && (si > sj || (si == sj && i >= j)))
}

/// Whether rule `i` gives the next token: it is eligible and preferred to
/// every other eligible rule.
pub open spec fn selected(rules: Seq<Rule>, i: int, text: Seq<char>, last: Option<Category>) -> bool {
    eligible(rules, i, text, last) && forall|j: int| #[trigger]
        eligible(rules, j, text, last) ==> preferred(rules, i, j, text)
}

/// The rule that gives the next token, if any rule is eligible.
pub open spec fn spec_next_rule(rules: Seq<Rule>, text: Seq<char>, last: Option<Category>) -> Option<int> {
    if exists|i: int| selected(rules, i, text, last) {
        Some(choose|i: int| selected(rules, i, text, last))
    } else {
        None
    }
}

/// At most one rule is selected.
pub proof fn at_most_one_rule_is_selected(rules: Seq<Rule>, i: int, j: int, text: Seq<char>, last: Option<Category>)
    requires
        selected(rules, i, text, last),
        selected(rules, j, text, last),
    ensures
        i == j,
{
    assert(preferred(rules, i, j, text));
    assert(preferred(rules, j, i, text));
}

/// A selected rule is the one that `spec_next_rule` names.
proof fn lemma_next_rule_is(rules: Seq<Rule>, i: int, text: Seq<char>, last: Option<Category>)
    requires
        selected(rules, i, text, last),
    ensures
        spec_next_rule(rules, text, last) == Some(i),
{
    let c = choose|c: int| selected(rules, c, text, last);
    at_most_one_rule_is_selected(rules, i, c, text, last);
}

/// Where no rule is eligible, `spec_next_rule` names none.
proof fn lemma_next_rule_none(rules: Seq<Rule>, text: Seq<char>, last: Option<Category>)
    requires
        forall|i: int| !#[trigger] eligible(rules, i, text, last),
    ensures
        spec_next_rule(rules, text, last).is_none(),
{
}

/// Whether rule `i` matches at the start of `text` but may not stand after a
/// token of the category `last`; an implicit operator is not counted.
pub open spec fn spec_is_refused(rules: Seq<Rule>, i: int, text: Seq<char>, last: Option<Category>) -> bool {
    0 <= i < rules.len() && rules[i].spec_get_match(text).is_some() && !rules[i].spec_can_follow(last)
        && rules[i].category != Category::ImplicitOperators
}

/// How many of the first `n` rules match but may not stand here.
pub open spec fn spec_refused(rules: Seq<Rule>, n: int, text: Seq<char>, last: Option<Category>) -> nat
    decreases n,
{
    if n <= 0 {
        0
    } else {
        spec_refused(rules, n - 1, text, last) + if spec_is_refused(rules, n - 1, text, last) {
            1nat
        } else {
            0nat
        }
    }
}

/// The name of what came before: the category of the last token, or the
/// start of the expression.
pub open spec fn spec_last_name(last: Option<Category>) -> Seq<char> {
    match last {
        None => "the start of the expression"@,
        Some(category) => spec_category_title(category),
    }
}

/// Why no rule gives the next token: the rules that match lead nowhere, or
/// no rule matches, or one rule matches and may not stand here, or several do.
pub open spec fn spec_no_token_reason(matched: bool, refused: nat) -> Seq<char> {
    if matched {
        "No rule that matches leads to a valid expression"@
    } else if refused == 0 {
        "No registered rules match the expression"@
    } else if refused == 1 {
        "The rule that matches may not appear here"@
    } else {
        "Multiple rules match but none may appear here"@
    }
}

/// What is reported where no rule gives the next token: the reason, the
/// position, what came before, and the text that is left.
pub open spec fn spec_no_token_message(rules: Seq<Rule>, text: Seq<char>, last: Option<Category>, position: nat) -> Seq<
    char,
> {
    spec_no_token_reason(
        exists|i: int| valid_at(rules, i, text, last),
        spec_refused(rules, rules.len() as int, text, last),
    ) + " at position "@ + spec_decimal(position) + " after "@ + spec_last_name(last) + ": "@ + text
}

/// Whether `token` is the token that rule `token.rule` finds in `text`.
pub open spec fn token_of(rules: Seq<Rule>, token: Token, text: Seq<char>) -> bool {
    &&& token.text@ == lexeme(rules, token.rule as int, text)
    &&& token.remainder@ == remainder(rules, token.rule as int, text)
}

/// Whether some rule accepts `rest` after a token of `category`.
fn can_continue(rules: &Vec<Rule>, rest: &str, category: Category) -> (r: bool)
    ensures
        r == exists|j: int|
            0 <= j < rules@.len() && #[trigger] rules@[j].spec_matches(rest@) && rules@[j].spec_can_follow(
                Some(category),
            ),
{
    let mut j: usize = 0;
    while j < rules.len()
        invariant
            j <= rules@.len(),
            forall|k: int|
                0 <= k < j ==> !(#[trigger] rules@[k].spec_matches(rest@) && rules@[k].spec_can_follow(
                    Some(category),
                )),
        decreases rules@.len() - j,
    {
        if rules[j].matches(rest) && rules[j].can_follow(Some(category)) {
            return true;
        }
        j += 1;
    }
    false
}

/// Whether `token` is a valid candidate at the start of `text`.
pub open spec fn candidate(rules: Seq<Rule>, token: Token, text: Seq<char>, last: Option<Category>) -> bool {
    &&& valid_at(rules, token.rule as int, text, last)
    &&& token_of(rules, token, text)
    &&& is_part_of(token.remainder@, text)
}

/// Whether `found` holds the valid rules below `n`, in the order of the
/// grammar, each with its token.
pub open spec fn candidates_upto(
    rules: Seq<Rule>,
    found: Seq<Token>,
    n: int,
    text: Seq<char>,
    last: Option<Category>,
) -> bool {
    &&& forall|k: int| 0 <= k < found.len() ==> candidate(rules, #[trigger] found[k], text, last) && found[k].rule < n
    &&& forall|k: int, l: int| 0 <= k < l < found.len() ==> (#[trigger] found[k]).rule < (#[trigger] found[l]).rule
    &&& forall|j: int|
        0 <= j < n && #[trigger] valid_at(rules, j, text, last) ==> exists|k: int|
            0 <= k < found.len() && (#[trigger] found[k]).rule == j
}

/// The valid rules at the start of `text`, in the order of the grammar, each
/// with its token; whether one of the tokens is not empty; and how many rules
/// matched but may not stand here.
fn candidates(rules: &Vec<Rule>, text: &str, last: &Option<Category>) -> (r: (Vec<Token>, bool, usize))
    ensures
        candidates_upto(rules@, r.0@, rules@.len() as int, text@, *last),
        r.1 == has_explicit(rules@, text@, *last),
        r.2 == spec_refused(rules@, rules@.len() as int, text@, *last),
{
    let mut found: Vec<Token> = Vec::new();
    let mut explicit = false;
    let mut refused: usize = 0;
    let mut i: usize = 0;
    while i < rules.len()
        invariant
            i <= rules@.len(),
            refused <= i,
            refused == spec_refused(rules@, i as int, text@, *last),
            candidates_upto(rules@, found@, i as int, text@, *last),
            explicit == exists|j: int|
                0 <= j < i && #[trigger] valid_at(rules@, j, text@, *last) && lexeme(rules@, j, text@).len() > 0,
        decreases rules@.len() - i,
    {
        let ghost before = found@;
        let ghost was = explicit;
        match rules[i].get_match(text) {
            Some((token, rest)) => {
                if rules[i].can_follow(*last) {
                    let rest = trim(rest.as_str());
                    let remainder = String::from_str(rest);
                    proof {
                        lemma_part_of_part(rest@, rules@[i as int].spec_get_match(text@).unwrap().1, text@);
                    }
                    if !token.as_str().is_empty() {
                        explicit = true;
                    }
                    let entry = Token { rule: i, text: token, remainder };
                    assert(candidate(rules@, entry, text@, *last));
                    found.push(entry);
                    assert(found@[before.len() as int] == entry);
                    assert forall|k: int| 0 <= k < found@.len() implies candidate(
                        rules@,
                        #[trigger] found@[k],
                        text@,
                        *last,
                    ) && found@[k].rule < i + 1 by {
                        if k < before.len() {
                            assert(found@[k] == before[k]);
                        }
                    }
                    assert forall|k: int, l: int| 0 <= k < l < found@.len() implies (#[trigger] found@[k]).rule < (
                    #[trigger] found@[l]).rule by {
                        assert(found@[k] == before[k]);
                        if l < before.len() {
                            assert(found@[l] == before[l]);
                        }
                    }
                    assert forall|j: int| 0 <= j < i + 1 && #[trigger] valid_at(rules@, j, text@, *last) implies exists|
                        k: int,
                    |
                        0 <= k < found@.len() && (#[trigger] found@[k]).rule == j by {
                        if j < i {
                            let k = choose|k: int| 0 <= k < before.len() && (#[trigger] before[k]).rule == j;
                            assert(found@[k] == before[k]);
                        } else {
                            assert(found@[before.len() as int].rule == j);
                        }
                    }
                } else if rules[i].category() != Category::ImplicitOperators {
                    refused += 1;
                }
            },
            None => {},
        }
        proof {
            let now = exists|j: int|
                0 <= j < i + 1 && #[trigger] valid_at(rules@, j, text@, *last) && lexeme(rules@, j, text@).len() > 0;
            if explicit {
                if was {
                    let j = choose|j: int|
                        0 <= j < i && #[trigger] valid_at(rules@, j, text@, *last) && lexeme(rules@, j, text@).len()
                            > 0;
                    assert(valid_at(rules@, j, text@, *last));
                } else {
                    assert(valid_at(rules@, i as int, text@, *last));
                }
                assert(now);
            } else {
                assert forall|j: int|
                    0 <= j < i + 1 && #[trigger] valid_at(rules@, j, text@, *last) implies lexeme(
                    rules@,
                    j,
                    text@,
                ).len() == 0 by {
                    if j < i {
                        assert(!was);
                    }
                }
                assert(!now);
            }
        }
        i += 1;
    }
    proof {
        if explicit {
            let j = choose|j: int|
                0 <= j < i && #[trigger] valid_at(rules@, j, text@, *last) && lexeme(rules@, j, text@).len() > 0;
            assert(valid_at(rules@, j, text@, *last));
        }
    }
    (found, explicit, refused)
}

/// Whether a candidate stays in consideration, given whether some candidate
/// has a token that is not empty.
pub open spec fn keeps(token: Token, explicit: bool) -> bool {
    !explicit || token.text@.len() > 0
}

/// Among candidates, those that stay are the rules that are shortlisted.
proof fn lemma_kept_is_shortlisted(rules: Seq<Rule>, found: Seq<Token>, k: int, text: Seq<char>, last: Option<Category>)
    requires
        candidates_upto(rules, found, rules.len() as int, text, last),
        0 <= k < found.len(),
    ensures
        keeps(found[k], has_explicit(rules, text, last)) == shortlisted(rules, found[k].rule as int, text, last),
{
    assert(candidate(rules, found[k], text, last));
}

/// Every shortlisted rule is among the candidates, and stays.
proof fn lemma_shortlisted_is_kept(rules: Seq<Rule>, found: Seq<Token>, j: int, text: Seq<char>, last: Option<Category>) -> (k:
    int)
    requires
        candidates_upto(rules, found, rules.len() as int, text, last),
        shortlisted(rules, j, text, last),
    ensures
        0 <= k < found.len(),
        found[k].rule == j,
        keeps(found[k], has_explicit(rules, text, last)),
{
    assert(valid_at(rules, j, text, last));
    let k = choose|k: int| 0 <= k < found.len() && (#[trigger] found[k]).rule == j;
    lemma_kept_is_shortlisted(rules, found, k, text, last);
    k
}

/// The message for a place where no rule can give the next token.
fn no_token_message(text: &str, position: usize, last: &Option<Category>, matched: bool, refused: usize) -> (m:
    String)
    ensures
        m@ == spec_no_token_reason(matched, refused as nat) + " at position "@ + spec_decimal(position as nat)
            + " after "@ + spec_last_name(*last) + ": "@ + text@,
{
    let reason = if matched {
        "No rule that matches leads to a valid expression"
    } else if refused == 0 {
        "No registered rules match the expression"
    } else if refused == 1 {
        "The rule that matches may not appear here"
    } else {
        "Multiple rules match but none may appear here"
    };
    let before = match last {
        None => "the start of the expression",
        Some(category) => category.title(),
    };
    String::from_str(reason).concat(" at position ").concat(decimal(position).as_str()).concat(" after ").concat(
        before,
    ).concat(": ").concat(text)
}

/// Candidates are found exactly where some rule is valid.
proof fn lemma_found_is_valid(rules: Seq<Rule>, found: Seq<Token>, text: Seq<char>, last: Option<Category>)
    requires
        candidates_upto(rules, found, rules.len() as int, text, last),
    ensures
        (found.len() > 0) == (exists|i: int| valid_at(rules, i, text, last)),
{
    if found.len() > 0 {
        assert(candidate(rules, found[0], text, last));
        assert(valid_at(rules, found[0].rule as int, text, last));
    }
    if exists|i: int| valid_at(rules, i, text, last) {
        let i = choose|i: int| valid_at(rules, i, text, last);
        let k = choose|k: int| 0 <= k < found.len() && (#[trigger] found[k]).rule == i;
    }
}

/// Chooses the next token at the start of `text`, which is not empty, after a
/// token of the category `last_token` (none at the start of the expression).
/// Of the rules that match here and may stand here, those with an empty token
/// count only where no other matches. Where one rule is left, it gives the
/// token. Where several are left, the token is given by the one among those
/// after whose token some rule can go on that has the highest priority, then
/// the longest token, then the latest place in the grammar. Where no rule can
/// give the token, the text is refused with a `SyntaxError`.
pub fn match_next_token(rules: &Vec<Rule>, text: &str, last_token: &Option<Category>, position: usize) -> (r:
    Result<Token, Error>)
    ensures
        match r {
            Ok(token) => spec_next_rule(rules@, text@, *last_token) == Some(token.rule as int) && token.rule
                < rules@.len() && token_of(rules@, token, text@) && is_part_of(token.remainder@, text@),
            Err(e) => e.error_type == ErrorType::SyntaxError && e.message@ == spec_no_token_message(
                rules@,
                text@,
                *last_token,
                position as nat,
            ) && spec_next_rule(rules@, text@, *last_token).is_none(),
        },
{
    let (found, explicit, refused) = candidates(rules, text, last_token);
    let ghost rs = rules@;
    let ghost last = *last_token;
    proof {
        lemma_found_is_valid(rs, found@, text@, last);
    }
    // the first candidate that stays
    let mut first: usize = 0;
    while first < found.len() && explicit && found[first].text.as_str().is_empty()
        invariant
            first <= found@.len(),
            forall|k: int| 0 <= k < first ==> !keeps(#[trigger] found@[k], explicit),
        decreases found@.len() - first,
    {
        first += 1;
    }
    if first >= found.len() {
        proof {
            assert forall|i: int| !#[trigger] eligible(rs, i, text@, last) by {
                if shortlisted(rs, i, text@, last) {
                    let k = lemma_shortlisted_is_kept(rs, found@, i, text@, last);
                }
            }
            lemma_next_rule_none(rs, text@, last);
        }
        return Err(
            Error {
                error_type: ErrorType::SyntaxError,
                message: no_token_message(text, position, last_token, found.len() > 0, refused),
            },
        );
    }
    // whether another candidate stays
    let mut second: usize = first + 1;
    while second < found.len() && explicit && found[second].text.as_str().is_empty()
        invariant
            first < second <= found@.len(),
            forall|k: int| first < k < second ==> !keeps(#[trigger] found@[k], explicit),
        decreases found@.len() - second,
    {
        second += 1;
    }
    if second >= found.len() {
        let token = Token {
            rule: found[first].rule,
            text: found[first].text.clone(),
            remainder: found[first].remainder.clone(),
        };
        proof {
            let i = token.rule as int;
            assert(candidate(rs, found@[first as int], text@, last));
            lemma_kept_is_shortlisted(rs, found@, first as int, text@, last);
            assert forall|j: int| #[trigger] shortlisted(rs, j, text@, last) implies j == i by {
                let k = lemma_shortlisted_is_kept(rs, found@, j, text@, last);
                assert(k == first);
            }
            assert(sole(rs, i, text@, last));
            assert(eligible(rs, i, text@, last));
            assert forall|j: int| #[trigger] eligible(rs, j, text@, last) implies preferred(rs, i, j, text@) by {
                assert(shortlisted(rs, j, text@, last));
            }
            lemma_next_rule_is(rs, i, text@, last);
        }
        return Ok(token);
    }
    proof {
        // two rules are shortlisted, so none is the only one
        lemma_kept_is_shortlisted(rs, found@, first as int, text@, last);
        lemma_kept_is_shortlisted(rs, found@, second as int, text@, last);
        assert(found@[first as int].rule < found@[second as int].rule);
        assert forall|j: int| !#[trigger] sole(rs, j, text@, last) by {
            if sole(rs, j, text@, last) {
                assert(shortlisted(rs, found@[first as int].rule as int, text@, last));
                assert(shortlisted(rs, found@[second as int].rule as int, text@, last));
            }
        }
    }
    let mut best: Option<usize> = None;
    let mut k: usize = 0;
    while k < found.len()
        invariant
            k <= found@.len(),
            rs == rules@,
            candidates_upto(rs, found@, rs.len() as int, text@, last),
            explicit == has_explicit(rs, text@, last),
            match best {
                Some(b) => b < k && eligible(rs, found@[b as int].rule as int, text@, last) && forall|l: int|
                    0 <= l < k && eligible(rs, (#[trigger] found@[l]).rule as int, text@, last) ==> preferred(
                        rs,
                        found@[b as int].rule as int,
                        found@[l].rule as int,
                        text@,
                    ),
                None => forall|l: int| 0 <= l < k ==> !eligible(rs, (#[trigger] found@[l]).rule as int, text@, last),
            },
            forall|j: int| !#[trigger] sole(rs, j, text@, last),
        decreases found@.len() - k,
    {
        let candidate_rule = found[k].rule;
        let ghost i = candidate_rule as int;
        proof {
            assert(candidate(rs, found@[k as int], text@, last));
            lemma_kept_is_shortlisted(rs, found@, k as int, text@, last);
        }
        let stays = !explicit || !found[k].text.as_str().is_empty();
        let mut takes = false;
        if stays {
            let goes_on = can_continue(rules, found[k].remainder.as_str(), rules[candidate_rule].category());
            proof {
                if goes_on {
                    let j = choose|j: int|
                        0 <= j < rs.len() && #[trigger] rs[j].spec_matches(found@[k as int].remainder@)
                            && rs[j].spec_can_follow(Some(rs[i].category));
                    assert(continues(rs, i, j, text@));
                } else {
                    assert forall|j: int| !#[trigger] continues(rs, i, j, text@) by {
                        if continues(rs, i, j, text@) {
                            assert(rs[j].spec_matches(found@[k as int].remainder@));
                        }
                    }
                }
                assert(goes_on == leads_on(rs, i, text@));
                assert(goes_on == eligible(rs, i, text@, last));
            }
            if goes_on {
                takes = match best {
                    None => true,
                    Some(b) => {
                        let held = found[b].rule;
                        assert(held < candidate_rule);
                        let p_new = rules[candidate_rule].priority();
                        let p_old = rules[held].priority();
                        let s_new = found[k].text.as_str().len();
                        let s_old = found[b].text.as_str().len();
                        assert(candidate(rs, found@[b as int], text@, last));
                        assert(s_new == lexeme_size(rs, i, text@));
                        assert(s_old == lexeme_size(rs, held as int, text@));
                        p_new > p_old || (p_new == p_old && s_new >= s_old)
                    },
                };
            }
        }
        proof {
            if takes {
                assert(preferred(rs, i, i, text@));
            }
        }
        if takes {
            best = Some(k);
        }
        k += 1;
    }
    match best {
        Some(b) => {
            let token = Token { rule: found[b].rule, text: found[b].text.clone(), remainder: found[b].remainder.clone() };
            proof {
                let i = token.rule as int;
                assert(candidate(rs, found@[b as int], text@, last));
                assert forall|j: int| #[trigger] eligible(rs, j, text@, last) implies preferred(rs, i, j, text@) by {
                    let l = lemma_shortlisted_is_kept(rs, found@, j, text@, last);
                    assert(eligible(rs, found@[l].rule as int, text@, last));
                }
                lemma_next_rule_is(rs, i, text@, last);
            }
            Ok(token)
        },
        None => {
            proof {
                assert forall|j: int| !#[trigger] eligible(rs, j, text@, last) by {
                    if eligible(rs, j, text@, last) {
                        let l = lemma_shortlisted_is_kept(rs, found@, j, text@, last);
                        assert(eligible(rs, found@[l].rule as int, text@, last));
                    }
                }
                lemma_next_rule_none(rs, text@, last);
            }
            Err(
                Error {
                    error_type: ErrorType::SyntaxError,
                    message: no_token_message(text, position, last_token, found.len() > 0, refused),
                },
            )
        },
    }
}

/// A part of a part of a text is a part of the text.
proof fn lemma_part_of_part(inner: Seq<char>, middle: Seq<char>, whole: Seq<char>)
    requires
        is_part_of(inner, middle),
        is_part_of(middle, whole),
    ensures
        is_part_of(inner, whole),
{
    let a = choose|a: int| 0 <= a && a + inner.len() <= middle.len() && #[trigger] middle.subrange(a, a + inner.len()) == inner;
    let b = choose|b: int| 0 <= b && b + middle.len() <= whole.len() && #[trigger] whole.subrange(b, b + middle.len()) == middle;
    assert(whole.subrange(a + b, a + b + inner.len()) =~= middle.subrange(a, a + inner.len()));
}

} // verus!
