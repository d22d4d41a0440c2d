use vstd::prelude::*;
use crate::balance::spec_tokens;
use crate::equation::{spec_evaluate_program, spec_run};
use crate::error::Failure;
use crate::expressions::function::FunctionView;
use crate::expressions::ExpressionView;
use crate::numeric::NumericType;
use crate::parser::{spec_convert, spec_start, STALL_LIMIT};
use crate::shunting::{
    spec_accept,
    spec_emit,
    spec_finish,
    spec_pop_yielding,
    spec_yields,
    PendingView,
    WorkspaceView,
};
use crate::syntax::ruleset::rule::{Rule, RuleView};
use crate::syntax::{Associativity, Category};
use crate::tokenizer::{lexeme, remainder, spec_next_rule};

verus! {

/// The workspace after the tokens `tokens`, each given by its rule and its
/// text, have been taken in one after the other.
pub open spec fn spec_accept_all<T: NumericType>(w: WorkspaceView<T>, tokens: Seq<(RuleView, Seq<char>)>) -> Result<
    WorkspaceView<T>,
    Failure,
>
    decreases tokens.len(),
{
    if tokens.len() == 0 {
        Ok(w)
    } else {
        match spec_accept(w, tokens[0].0, tokens[0].1) {
            Ok(next) => spec_accept_all(next, tokens.drop_first()),
            Err(failure) => Err(failure),
        }
    }
}

/// The program that a list of tokens converts to.
pub open spec fn spec_program_of<T: NumericType>(tokens: Seq<(RuleView, Seq<char>)>) -> Result<
    Seq<ExpressionView<T>>,
    Failure,
> {
    match spec_accept_all::<T>(spec_start(), tokens) {
        Ok(w) => spec_finish(w.operators, w.output),
        Err(failure) => Err(failure),
    }
}

/// The tokens of a list, each with the view of its rule.
pub open spec fn spec_ruled(rules: Seq<Rule>, tokens: Seq<(int, Seq<char>)>) -> Seq<(RuleView, Seq<char>)> {
    Seq::new(tokens.len(), |k: int| (rules[tokens[k].0]@, tokens[k].1))
}

/// A conversion that succeeds takes in the tokens that the tokenizer finds,
/// one after the other, and nothing else.
pub proof fn conversion_follows_the_tokens<T: NumericType>(
    rules: Seq<Rule>,
    total: nat,
    text: Seq<char>,
    last: Option<Category>,
    budget: nat,
    w: WorkspaceView<T>,
)
    requires
        spec_convert(rules, total, text, last, budget, w) is Ok,
    ensures
        spec_convert(rules, total, text, last, budget, w) == spec_accept_all(
            w,
            spec_ruled(rules, spec_tokens(rules, text, last, budget)),
        ),
    decreases text.len(), budget,
{
    let tokens = spec_tokens(rules, text, last, budget);
    let ruled = spec_ruled(rules, tokens);
    if text.len() > 0 {
        let i = spec_next_rule(rules, text, last)->Some_0;
        let rest = remainder(rules, i, text);
        let left: nat = if rest.len() < text.len() {
            STALL_LIMIT as nat
        } else {
            (budget - 1) as nat
        };
        let token = lexeme(rules, i, text);
        let next = spec_accept(w, rules[i]@, token)->Ok_0;
        conversion_follows_the_tokens(rules, total, rest, Some(rules[i].category), left, next);
        let after = spec_tokens(rules, rest, Some(rules[i].category), left);
        assert(tokens == seq![(i, token)] + after);
        assert(ruled[0] == (rules[i]@, token));
        assert(ruled.drop_first() =~= spec_ruled(rules, after));
    } else {
        assert(ruled.len() == 0);
    }
}

/// Whether `rule` is a rule for number literals under which `text` denotes `value`.
pub open spec fn is_literal<T: NumericType>(rule: RuleView, text: Seq<char>, value: T) -> bool {
    rule.category == Category::Literals && T::spec_parse_literal(text) == Some(value)
}

/// Whether `rule` is a rule for an operator, written or implicit, that is
/// bound to `function`.
pub open spec fn is_operator_of(rule: RuleView, function: FunctionView) -> bool {
    (rule.category == Category::Operators || rule.category == Category::ImplicitOperators) && (
    rule.binding matches Some((f, _)) && f == function)
}

/// What a function of two inputs yields on `x` and `y`.
pub open spec fn spec_apply<T: NumericType>(function: FunctionView, x: T, y: T) -> Result<T, Failure> {
    function.spec_evaluate(seq![x, y])
}

/// A literal token puts its number on the output and changes nothing else.
proof fn lemma_literal_step<T: NumericType>(w: WorkspaceView<T>, rule: RuleView, text: Seq<char>, value: T)
    requires
        is_literal(rule, text, value),
    ensures
        spec_accept(w, rule, text) == Ok::<_, Failure>(
            WorkspaceView { output: w.output.push(ExpressionView::Number(value)), ..w },
        ),
{
}

/// The entry that an operator token puts on the operator stack.
pub open spec fn spec_entry(rule: RuleView, function: FunctionView) -> PendingView {
    PendingView { category: rule.category, precedence: rule.precedence, atom: Some(function) }
}

/// An operator token on an empty operator stack waits there.
proof fn lemma_operator_on_empty<T: NumericType>(w: WorkspaceView<T>, rule: RuleView, text: Seq<char>, function: FunctionView)
    requires
        is_operator_of(rule, function),
        w.operators.len() == 0,
    ensures
        spec_accept(w, rule, text) == Ok::<_, Failure>(
            WorkspaceView { operators: seq![spec_entry(rule, function)], ..w },
        ),
{
    assert(spec_pop_yielding(w.operators, w.output, rule.precedence, rule.spec_left_associative()) == (
        w.operators,
        w.output,
    ));
    assert(w.operators.push(spec_entry(rule, function)) =~= seq![spec_entry(rule, function)]);
}

/// An operator token sends one waiting operator that yields to it to the output.
proof fn lemma_operator_after_yielding<T: NumericType>(
    w: WorkspaceView<T>,
    rule: RuleView,
    text: Seq<char>,
    function: FunctionView,
    waiting: PendingView,
)
    requires
        is_operator_of(rule, function),
        w.operators == seq![waiting],
        spec_yields(waiting, rule.precedence, rule.spec_left_associative()),
    ensures
        spec_accept(w, rule, text) == Ok::<_, Failure>(
            WorkspaceView {
                output: spec_emit(w.output, waiting),
                operators: seq![spec_entry(rule, function)],
                ..w
            },
        ),
{
    let left = rule.spec_left_associative();
    assert(w.operators.last() == waiting);
    assert(w.operators.drop_last() =~= Seq::<PendingView>::empty());
    assert(spec_pop_yielding(w.operators.drop_last(), spec_emit(w.output, waiting), rule.precedence, left) == (
        w.operators.drop_last(),
        spec_emit(w.output, waiting),
    ));
    assert(spec_pop_yielding(w.operators, w.output, rule.precedence, left) == (
        Seq::<PendingView>::empty(),
        spec_emit(w.output, waiting),
    ));
    assert(Seq::<PendingView>::empty().push(spec_entry(rule, function)) =~= seq![spec_entry(rule, function)]);
}

/// An operator token joins one waiting operator that does not yield to it.
proof fn lemma_operator_after_holding<T: NumericType>(
    w: WorkspaceView<T>,
    rule: RuleView,
    text: Seq<char>,
    function: FunctionView,
    waiting: PendingView,
)
    requires
        is_operator_of(rule, function),
        w.operators == seq![waiting],
        !spec_yields(waiting, rule.precedence, rule.spec_left_associative()),
    ensures
        spec_accept(w, rule, text) == Ok::<_, Failure>(
            WorkspaceView { operators: seq![waiting, spec_entry(rule, function)], ..w },
        ),
{
    let left = rule.spec_left_associative();
    assert(w.operators.last() == waiting);
    assert(spec_pop_yielding(w.operators, w.output, rule.precedence, left) == (w.operators, w.output));
    assert(w.operators.push(spec_entry(rule, function)) =~= seq![waiting, spec_entry(rule, function)]);
}

/// What is left on the operator stack moves to the output, topmost first.
proof fn lemma_finish_one<T>(output: Seq<ExpressionView<T>>, one: PendingView)
    requires
        one.category != Category::OpenBrackets,
    ensures
        spec_finish(seq![one], output) == Ok::<_, Failure>(spec_emit(output, one)),
{
    let operators = seq![one];
    assert(operators.last() == one);
    assert(operators.drop_last() =~= Seq::<PendingView>::empty());
    assert(spec_finish(operators.drop_last(), spec_emit(output, one)) == Ok::<_, Failure>(spec_emit(output, one)));
}

proof fn lemma_finish_two<T>(output: Seq<ExpressionView<T>>, lower: PendingView, upper: PendingView)
    requires
        lower.category != Category::OpenBrackets,
        upper.category != Category::OpenBrackets,
    ensures
        spec_finish(seq![lower, upper], output) == Ok::<_, Failure>(spec_emit(spec_emit(output, upper), lower)),
{
    let operators = seq![lower, upper];
    assert(operators.last() == upper);
    assert(operators.drop_last() =~= seq![lower]);
    lemma_finish_one(spec_emit(output, upper), lower);
}

/// Taking in one more token at the front.
proof fn lemma_accept_first<T: NumericType>(
    w: WorkspaceView<T>,
    first: (RuleView, Seq<char>),
    others: Seq<(RuleView, Seq<char>)>,
    next: WorkspaceView<T>,
)
    requires
        spec_accept(w, first.0, first.1) == Ok::<_, Failure>(next),
    ensures
        spec_accept_all(w, seq![first] + others) == spec_accept_all(next, others),
{
    let tokens = seq![first] + others;
    assert(tokens[0] == first);
    assert(tokens.drop_first() =~= others);
}

/// The program of `a first b second c`: that of `(a first b) second c` where
/// the first operator yields to the second, and that of `a first (b second
/// c)` where it does not.
proof fn lemma_infix_chain<T: NumericType>(
    leaf: RuleView,
    first: (RuleView, FunctionView, Seq<char>),
    second: (RuleView, FunctionView, Seq<char>),
    a: (Seq<char>, T),
    b: (Seq<char>, T),
    c: (Seq<char>, T),
)
    requires
        is_literal(leaf, a.0, a.1),
        is_literal(leaf, b.0, b.1),
        is_literal(leaf, c.0, c.1),
        is_operator_of(first.0, first.1),
        is_operator_of(second.0, second.1),
    ensures
        spec_program_of::<T>(
            seq![(leaf, a.0), (first.0, first.2), (leaf, b.0), (second.0, second.2), (leaf, c.0)],
        ) == Ok::<_, Failure>(
            if spec_yields(
                spec_entry(first.0, first.1),
                second.0.precedence,
                second.0.spec_left_associative(),
            ) {
                seq![
                    ExpressionView::Number(a.1),
                    ExpressionView::Number(b.1),
                    ExpressionView::Function(first.1),
                    ExpressionView::Number(c.1),
                    ExpressionView::Function(second.1),
                ]
            } else {
                seq![
                    ExpressionView::Number(a.1),
                    ExpressionView::Number(b.1),
                    ExpressionView::Number(c.1),
                    ExpressionView::Function(second.1),
                    ExpressionView::Function(first.1),
                ]
            },
        ),
{
    let na = ExpressionView::<T>::Number(a.1);
    let nb = ExpressionView::<T>::Number(b.1);
    let nc = ExpressionView::<T>::Number(c.1);
    let e1 = spec_entry(first.0, first.1);
    let e2 = spec_entry(second.0, second.1);
    let yields = spec_yields(e1, second.0.precedence, second.0.spec_left_associative());
    let w0 = spec_start::<T>();
    let w1 = WorkspaceView { output: w0.output.push(na), ..w0 };
    let w2 = WorkspaceView { operators: seq![e1], ..w1 };
    let w3 = WorkspaceView { output: w2.output.push(nb), ..w2 };
    let w4 = if yields {
        WorkspaceView { output: spec_emit(w3.output, e1), operators: seq![e2], ..w3 }
    } else {
        WorkspaceView { operators: seq![e1, e2], ..w3 }
    };
    let w5 = WorkspaceView { output: w4.output.push(nc), ..w4 };
    let none = Seq::<(RuleView, Seq<char>)>::empty();
    let t0 = (leaf, a.0);
    let t1 = (first.0, first.2);
    let t2 = (leaf, b.0);
    let t3 = (second.0, second.2);
    let t4 = (leaf, c.0);
    lemma_literal_step(w0, leaf, a.0, a.1);
    lemma_operator_on_empty(w1, first.0, first.2, first.1);
    lemma_literal_step(w2, leaf, b.0, b.1);
    if yields {
        lemma_operator_after_yielding(w3, second.0, second.2, second.1, e1);
    } else {
        lemma_operator_after_holding(w3, second.0, second.2, second.1, e1);
    }
    lemma_literal_step(w4, leaf, c.0, c.1);
    lemma_accept_first(w4, t4, none, w5);
    lemma_accept_first(w3, t3, seq![t4] + none, w4);
    lemma_accept_first(w2, t2, seq![t3] + (seq![t4] + none), w3);
    lemma_accept_first(w1, t1, seq![t2] + (seq![t3] + (seq![t4] + none)), w2);
    lemma_accept_first(w0, t0, seq![t1] + (seq![t2] + (seq![t3] + (seq![t4] + none))), w1);
    assert(seq![t0, t1, t2, t3, t4] =~= seq![t0] + (seq![t1] + (seq![t2] + (seq![t3] + (seq![t4] + none)))));
    if yields {
        lemma_finish_one(w5.output, e2);
        assert(spec_emit(w5.output, e2) =~= seq![na, nb, ExpressionView::Function(first.1), nc, ExpressionView::Function(
            second.1,
        )]);
    } else {
        lemma_finish_two(w5.output, e1, e2);
        assert(spec_emit(spec_emit(w5.output, e2), e1) =~= seq![na, nb, nc, ExpressionView::Function(
            second.1,
        ), ExpressionView::Function(first.1)]);
    }
}

/// What `outer(x, inner(y, z))` yields, for functions of two inputs.
pub open spec fn spec_nest_right<T: NumericType>(outer: FunctionView, inner: FunctionView, x: T, y: T, z: T) -> Result<
    T,
    Failure,
> {
    match spec_apply(inner, y, z) {
        Ok(m) => spec_apply(outer, x, m),
        Err(failure) => Err(failure),
    }
}

/// What `outer(inner(x, y), z)` yields, for functions of two inputs.
pub open spec fn spec_nest_left<T: NumericType>(outer: FunctionView, inner: FunctionView, x: T, y: T, z: T) -> Result<
    T,
    Failure,
> {
    match spec_apply(inner, x, y) {
        Ok(m) => spec_apply(outer, m, z),
        Err(failure) => Err(failure),
    }
}

/// A leaf pushes its value.
proof fn lemma_run_leaf<T: NumericType>(program: Seq<ExpressionView<T>>, cells: Seq<T>, stack: Seq<T>, value: T)
    requires
        program.len() > 0,
        program[0].spec_num_inputs() == 0,
        program[0].spec_evaluate(Seq::empty(), cells) == Ok::<T, Failure>(value),
    ensures
        spec_run(program, cells, stack) == spec_run(program.drop_first(), cells, stack.push(value)),
{
    assert(stack.skip(stack.len() as int) =~= Seq::<T>::empty());
    assert(stack.take(stack.len() as int) =~= stack);
}

/// A function of two inputs takes the two topmost values and pushes what it yields.
proof fn lemma_run_function<T: NumericType>(
    program: Seq<ExpressionView<T>>,
    cells: Seq<T>,
    base: Seq<T>,
    x: T,
    y: T,
    function: FunctionView,
)
    requires
        program.len() > 0,
        program[0] == ExpressionView::<T>::Function(function),
        function.num_inputs == 2,
    ensures
        spec_run(program, cells, base.push(x).push(y)) == match spec_apply(function, x, y) {
            Ok(m) => spec_run(program.drop_first(), cells, base.push(m)),
            Err(failure) => Err(failure),
        },
{
    let stack = base.push(x).push(y);
    assert(stack.skip(stack.len() - 2) =~= seq![x, y]);
    assert(stack.take(stack.len() - 2) =~= base);
}

/// The value of the program of `a op b`.
proof fn lemma_value_pair<T: NumericType>(first: ExpressionView<T>, second: ExpressionView<T>, function: FunctionView, x: T, y: T, cells: Seq<T>)
    requires
        function.num_inputs == 2,
        first.spec_num_inputs() == 0,
        second.spec_num_inputs() == 0,
        first.spec_evaluate(Seq::empty(), cells) == Ok::<T, Failure>(x),
        second.spec_evaluate(Seq::empty(), cells) == Ok::<T, Failure>(y),
    ensures
        spec_evaluate_program(seq![first, second, ExpressionView::Function(function)], cells) == spec_apply(
            function,
            x,
            y,
        ),
{
    let f = ExpressionView::<T>::Function(function);
    let tail0 = seq![first, second, f];
    let tail1 = seq![second, f];
    let tail2 = seq![f];
    let none = Seq::<T>::empty();
    assert(tail0.drop_first() =~= tail1);
    assert(tail1.drop_first() =~= tail2);
    assert(tail2.drop_first() =~= Seq::<ExpressionView<T>>::empty());
    lemma_run_leaf(tail0, cells, none, x);
    lemma_run_leaf(tail1, cells, none.push(x), y);
    lemma_run_function(tail2, cells, none, x, y, function);
    if let Ok(m) = spec_apply(function, x, y) {
        assert(none.push(m).len() == 1);
        assert(none.push(m)[0] == m);
    }
}

/// The value of the program of `(a inner b) outer c`.
proof fn lemma_value_left<T: NumericType>(outer: FunctionView, inner: FunctionView, x: T, y: T, z: T, cells: Seq<T>)
    requires
        outer.num_inputs == 2,
        inner.num_inputs == 2,
    ensures
        spec_evaluate_program(
            seq![
                ExpressionView::Number(x),
                ExpressionView::Number(y),
                ExpressionView::Function(inner),
                ExpressionView::Number(z),
                ExpressionView::Function(outer),
            ],
            cells,
        ) == spec_nest_left(outer, inner, x, y, z),
{
    let nx = ExpressionView::<T>::Number(x);
    let ny = ExpressionView::<T>::Number(y);
    let nz = ExpressionView::<T>::Number(z);
    let fi = ExpressionView::<T>::Function(inner);
    let fo = ExpressionView::<T>::Function(outer);
    let tail0 = seq![nx, ny, fi, nz, fo];
    let tail1 = seq![ny, fi, nz, fo];
    let tail2 = seq![fi, nz, fo];
    let tail3 = seq![nz, fo];
    let tail4 = seq![fo];
    let none = Seq::<T>::empty();
    assert(tail0.drop_first() =~= tail1);
    assert(tail1.drop_first() =~= tail2);
    assert(tail2.drop_first() =~= tail3);
    assert(tail3.drop_first() =~= tail4);
    assert(tail4.drop_first() =~= Seq::<ExpressionView<T>>::empty());
    lemma_run_leaf(tail0, cells, none, x);
    lemma_run_leaf(tail1, cells, none.push(x), y);
    lemma_run_function(tail2, cells, none, x, y, inner);
    if let Ok(m) = spec_apply(inner, x, y) {
        lemma_run_leaf(tail3, cells, none.push(m), z);
        lemma_run_function(tail4, cells, none, m, z, outer);
        if let Ok(r) = spec_apply(outer, m, z) {
            assert(none.push(r).len() == 1);
            assert(none.push(r)[0] == r);
        }
    }
}

/// The value of the program of `a outer (b inner c)`.
proof fn lemma_value_right<T: NumericType>(outer: FunctionView, inner: FunctionView, x: T, y: T, z: T, cells: Seq<T>)
    requires
        outer.num_inputs == 2,
        inner.num_inputs == 2,
    ensures
        spec_evaluate_program(
            seq![
                ExpressionView::Number(x),
                ExpressionView::Number(y),
                ExpressionView::Number(z),
                ExpressionView::Function(inner),
                ExpressionView::Function(outer),
            ],
            cells,
        ) == spec_nest_right(outer, inner, x, y, z),
{
    let nx = ExpressionView::<T>::Number(x);
    let ny = ExpressionView::<T>::Number(y);
    let nz = ExpressionView::<T>::Number(z);
    let fi = ExpressionView::<T>::Function(inner);
    let fo = ExpressionView::<T>::Function(outer);
    let tail0 = seq![nx, ny, nz, fi, fo];
    let tail1 = seq![ny, nz, fi, fo];
    let tail2 = seq![nz, fi, fo];
    let tail3 = seq![fi, fo];
    let tail4 = seq![fo];
    let none = Seq::<T>::empty();
    assert(tail0.drop_first() =~= tail1);
    assert(tail1.drop_first() =~= tail2);
    assert(tail2.drop_first() =~= tail3);
    assert(tail3.drop_first() =~= tail4);
    assert(tail4.drop_first() =~= Seq::<ExpressionView<T>>::empty());
    lemma_run_leaf(tail0, cells, none, x);
    lemma_run_leaf(tail1, cells, none.push(x), y);
    lemma_run_leaf(tail2, cells, none.push(x).push(y), z);
    lemma_run_function(tail3, cells, none.push(x), y, z, inner);
    if let Ok(m) = spec_apply(inner, y, z) {
        lemma_run_function(tail4, cells, none, x, m, outer);
        if let Ok(r) = spec_apply(outer, x, m) {
            assert(none.push(r).len() == 1);
            assert(none.push(r)[0] == r);
        }
    }
}

/// Precedence: of two operators of two inputs, the one of higher precedence
/// binds tighter, on whichever side it stands. The tokens `a lower b higher
/// c` convert to a program that computes `lower(a, higher(b, c))`, and the
/// tokens `a higher b lower c` to one that computes `lower(higher(a, b), c)`,
/// whatever the numbers `a`, `b` and `c` are.
pub proof fn higher_precedence_binds_tighter<T: NumericType>(
    leaf: RuleView,
    lower: (RuleView, FunctionView, Seq<char>),
    higher: (RuleView, FunctionView, Seq<char>),
    a: (Seq<char>, T),
    b: (Seq<char>, T),
    c: (Seq<char>, T),
    cells: Seq<T>,
)
    requires
        is_literal(leaf, a.0, a.1),
        is_literal(leaf, b.0, b.1),
        is_literal(leaf, c.0, c.1),
        is_operator_of(lower.0, lower.1),
        is_operator_of(higher.0, higher.1),
        lower.1.num_inputs == 2,
        higher.1.num_inputs == 2,
        higher.0.precedence > lower.0.precedence,
    ensures
        spec_program_of::<T>(
            seq![(leaf, a.0), (lower.0, lower.2), (leaf, b.0), (higher.0, higher.2), (leaf, c.0)],
        ) matches Ok(program) && spec_evaluate_program(program, cells) == spec_nest_right(
            lower.1,
            higher.1,
            a.1,
            b.1,
            c.1,
        ),
        spec_program_of::<T>(
            seq![(leaf, a.0), (higher.0, higher.2), (leaf, b.0), (lower.0, lower.2), (leaf, c.0)],
        ) matches Ok(program) && spec_evaluate_program(program, cells) == spec_nest_left(
            lower.1,
            higher.1,
            a.1,
            b.1,
            c.1,
        ),
{
    lemma_infix_chain(leaf, lower, higher, a, b, c);
    lemma_infix_chain(leaf, higher, lower, a, b, c);
    lemma_value_right(lower.1, higher.1, a.1, b.1, c.1, cells);
    lemma_value_left(lower.1, higher.1, a.1, b.1, c.1, cells);
}

/// Associativity: an operator of two inputs that stands twice is resolved
/// from the left where it is left-associative, and from the right where it
/// is not. The tokens `a op b op c` convert to a program that computes
/// `op(op(a, b), c)` in the first case and `op(a, op(b, c))` in the second.
pub proof fn associativity_orders_equal_operators<T: NumericType>(
    leaf: RuleView,
    op: (RuleView, FunctionView, Seq<char>),
    a: (Seq<char>, T),
    b: (Seq<char>, T),
    c: (Seq<char>, T),
    cells: Seq<T>,
)
    requires
        is_literal(leaf, a.0, a.1),
        is_literal(leaf, b.0, b.1),
        is_literal(leaf, c.0, c.1),
        is_operator_of(op.0, op.1),
        op.1.num_inputs == 2,
    ensures
        spec_program_of::<T>(
            seq![(leaf, a.0), (op.0, op.2), (leaf, b.0), (op.0, op.2), (leaf, c.0)],
        ) matches Ok(program) && spec_evaluate_program(program, cells) == if op.0.spec_left_associative() {
            spec_nest_left(op.1, op.1, a.1, b.1, c.1)
        } else {
            spec_nest_right(op.1, op.1, a.1, b.1, c.1)
        },
{
    lemma_infix_chain(leaf, op, op, a, b, c);
    lemma_value_right(op.1, op.1, a.1, b.1, c.1, cells);
    lemma_value_left(op.1, op.1, a.1, b.1, c.1, cells);
}

/// Implicit multiplication: an implicit operator between a number and a
/// variable converts to the same program as a written operator with the same
/// binding, and the program computes the binding's function of the number
/// and of what the variable holds, whatever that is.
pub proof fn implicit_operator_is_its_function<T: NumericType>(
    literal: RuleView,
    variable: RuleView,
    implicit: RuleView,
    written: (RuleView, Seq<char>),
    function: FunctionView,
    a: (Seq<char>, T),
    name: Seq<char>,
    value: T,
)
    requires
        is_literal(literal, a.0, a.1),
        variable.category == Category::Variables,
        implicit.category == Category::ImplicitOperators,
        written.0.category == Category::Operators,
        is_operator_of(implicit, function),
        is_operator_of(written.0, function),
        function.num_inputs == 2,
    ensures
        spec_program_of::<T>(seq![(literal, a.0), (implicit, Seq::empty()), (variable, name)]) == spec_program_of::<T>(
            seq![(literal, a.0), (written.0, written.1), (variable, name)],
        ),
        spec_program_of::<T>(
            seq![(literal, a.0), (implicit, Seq::empty()), (variable, name)],
        ) matches Ok(program) && spec_evaluate_program(program, seq![value]) == spec_apply(function, a.1, value),
{
    lemma_number_times_variable::<T>(literal, variable, implicit, function, a, Seq::empty(), name);
    lemma_number_times_variable::<T>(literal, variable, written.0, function, a, written.1, name);
    let atom = ExpressionView::<T>::Variable { label: name, cell: 0 };
    lemma_value_pair(ExpressionView::Number(a.1), atom, function, a.1, value, seq![value]);
}

/// The program of a number, an operator and a variable.
proof fn lemma_number_times_variable<T: NumericType>(
    literal: RuleView,
    variable: RuleView,
    op: RuleView,
    function: FunctionView,
    a: (Seq<char>, T),
    sign: Seq<char>,
    name: Seq<char>,
)
    requires
        is_literal(literal, a.0, a.1),
        variable.category == Category::Variables,
        is_operator_of(op, function),
    ensures
        spec_program_of::<T>(seq![(literal, a.0), (op, sign), (variable, name)]) == Ok::<_, Failure>(
            seq![
                ExpressionView::Number(a.1),
                ExpressionView::Variable { label: name, cell: 0 },
                ExpressionView::Function(function),
            ],
        ),
{
    let atom = ExpressionView::<T>::Variable { label: name, cell: 0 };
    let w0 = spec_start::<T>();
    let w1 = WorkspaceView { output: w0.output.push(ExpressionView::Number(a.1)), ..w0 };
    let w2 = WorkspaceView { operators: seq![spec_entry(op, function)], ..w1 };
    let w3 = WorkspaceView { output: w2.output.push(atom), names: w2.names.push(name), ..w2 };
    let none = Seq::<(RuleView, Seq<char>)>::empty();
    lemma_literal_step(w0, literal, a.0, a.1);
    lemma_operator_on_empty(w1, op, sign, function);
    assert(crate::equation::spec_position(w2.names, name).is_none());
    assert(spec_accept(w2, variable, name) == Ok::<_, Failure>(w3));
    lemma_accept_first(w2, (variable, name), none, w3);
    lemma_accept_first(w1, (op, sign), seq![(variable, name)] + none, w2);
    lemma_accept_first(w0, (literal, a.0), seq![(op, sign)] + (seq![(variable, name)] + none), w1);
    assert(seq![(literal, a.0), (op, sign), (variable, name)] =~= seq![(literal, a.0)] + (seq![(op, sign)] + (seq![
        (variable, name),
    ] + none)));
    lemma_finish_one(w3.output, spec_entry(op, function));
    assert(spec_emit(w3.output, spec_entry(op, function)) =~= seq![
        ExpressionView::Number(a.1),
        atom,
        ExpressionView::Function(function),
    ]);
}

} // verus!
