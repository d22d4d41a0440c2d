use vstd::prelude::*;
use vstd::string::StringExecFns;
use crate::equation::{cells_resolved, name_views, names_distinct, spec_position};
use crate::error::{fails_as, Error, ErrorType, Failure};
use crate::expressions::constant::Constant;
use crate::expressions::function::{Function, FunctionView};
use crate::expressions::number::Number;
use crate::expressions::variable::Variable;
use crate::expressions::{program_view, Expression, ExpressionView};
use crate::numeric::NumericType;
use crate::syntax::ruleset::rule::{Rule, RuleView};
use crate::syntax::Category;
use crate::text::same_text;

verus! {

/// An entry of the operator stack: an operator or a function that waits for
/// its operands, or an opening bracket, which has no atom.
#[derive(Debug)]
pub struct Pending {
    pub category: Category,
    pub precedence: u32,
    pub atom: Option<Function>,
}

/// An entry of the operator stack as contracts speak of it.
pub struct PendingView {
    pub category: Category,
    pub precedence: u32,
    pub atom: Option<FunctionView>,
}

impl View for Pending {
    type V = PendingView;

    open spec fn view(&self) -> PendingView {
        PendingView {
            category: self.category,
            precedence: self.precedence,
            atom: match self.atom {
                Some(f) => Some(f@),
                None => None,
            },
        }
    }
}

/// The views of the entries of an operator stack, bottom first.
pub open spec fn pending_views(entries: Seq<Pending>) -> Seq<PendingView> {
    Seq::new(entries.len(), |i: int| entries[i]@)
}

/// What the converter holds between two tokens, as contracts speak of it.
pub struct WorkspaceView<T> {
    /// The postfix program so far.
    pub output: Seq<ExpressionView<T>>,
    /// The operator stack, bottom first.
    pub operators: Seq<PendingView>,
    /// The contexts of the brackets that are open, outermost first.
    pub brackets: Seq<i32>,
    /// The names of the variables met so far, in the order of their cells.
    pub names: Seq<Seq<char>>,
}

/// What the converter holds between two tokens.
#[derive(Debug)]
pub struct Workspace<T: NumericType> {
    pub output: Vec<Expression<T>>,
    pub operators: Vec<Pending>,
    pub brackets: Vec<i32>,
    pub names: Vec<String>,
}

impl<T: NumericType> View for Workspace<T> {
    type V = WorkspaceView<T>;

    open spec fn view(&self) -> WorkspaceView<T> {
        WorkspaceView {
            output: program_view(self.output@),
            operators: pending_views(self.operators@),
            brackets: self.brackets@,
            names: name_views(self.names@),
        }
    }
}

/// What is reported for a token whose rule needs a binding and has none.
pub open spec fn spec_unbound_message(token: Seq<char>) -> Seq<char> {
    "Syntax rule is of functional type but has no function binding set: "@ + token
}

/// The atom that a token stands for, and the variable names after it: a
/// function atom for an operator or a function; for a constant the value
/// that its binding gives without arguments; for a literal the number that it
/// denotes, and a syntax error where it denotes none; for a variable an atom
/// that reads the cell of that name, a new cell where the name is new; no
/// atom for brackets, separators and fluff.
pub open spec fn spec_create_expression<T: NumericType>(rule: RuleView, token: Seq<char>, names: Seq<Seq<char>>) -> Result<
    (Option<ExpressionView<T>>, Seq<Seq<char>>),
    Failure,
> {
    match rule.category {
        Category::ImplicitOperators | Category::Operators | Category::Functions => match rule.binding {
            Some((f, _)) => Ok((Some(ExpressionView::Function(f)), names)),
            None => Err(Failure::Reported(ErrorType::InternalError, spec_unbound_message(token))),
        },
        Category::Constants => match rule.binding {
            Some((f, _)) => match f.function.spec_call::<T>(Seq::empty()) {
                Ok(v) => Ok((Some(ExpressionView::Constant(v)), names)),
                Err(failure) => Err(failure),
            },
            None => Err(Failure::Reported(ErrorType::InternalError, spec_unbound_message(token))),
        },
        Category::Literals => match T::spec_parse_literal(token) {
            Some(v) => Ok((Some(ExpressionView::Number(v)), names)),
            None => Err(
                Failure::Reported(ErrorType::SyntaxError, "Could not parse literal as a number: "@ + token),
            ),
        },
        Category::Variables => match spec_position(names, token) {
            Some(i) => Ok((Some(ExpressionView::Variable { label: token, cell: i as usize }), names)),
            None => Ok(
                (Some(ExpressionView::Variable { label: token, cell: names.len() as usize }), names.push(token)),
            ),
        },
        _ => Ok((None, names)),
    }
}

/// The output with the atom of a popped entry appended, if it has one.
pub open spec fn spec_emit<T>(output: Seq<ExpressionView<T>>, entry: PendingView) -> Seq<ExpressionView<T>> {
    match entry.atom {
        Some(f) => output.push(ExpressionView::Function(f)),
        None => output,
    }
}

/// Whether the entry on top of the operator stack leaves it before an
/// operator of the given precedence and associativity is pushed: it is no
/// opening bracket, and it binds tighter, or as tight where the new operator
/// is left-associative.
pub open spec fn spec_yields(top: PendingView, precedence: u32, left: bool) -> bool {
    top.category != Category::OpenBrackets && (top.precedence > precedence || (top.precedence == precedence
        && left))
}

/// The operator stack and the output after the entries that yield to a new
/// operator have moved to the output, topmost first.
pub open spec fn spec_pop_yielding<T>(
    operators: Seq<PendingView>,
    output: Seq<ExpressionView<T>>,
    precedence: u32,
    left: bool,
) -> (Seq<PendingView>, Seq<ExpressionView<T>>)
    decreases operators.len(),
{
    if operators.len() > 0 && spec_yields(operators.last(), precedence, left) {
        spec_pop_yielding(operators.drop_last(), spec_emit(output, operators.last()), precedence, left)
    } else {
        (operators, output)
    }
}

/// The operator stack and the output after the entries above the innermost
/// opening bracket have moved to the output, topmost first; all of them
/// where no bracket is open.
pub open spec fn spec_pop_to_opener<T>(operators: Seq<PendingView>, output: Seq<ExpressionView<T>>) -> (
    Seq<PendingView>,
    Seq<ExpressionView<T>>,
)
    decreases operators.len(),
{
    if operators.len() > 0 && operators.last().category != Category::OpenBrackets {
        spec_pop_to_opener(operators.drop_last(), spec_emit(output, operators.last()))
    } else {
        (operators, output)
    }
}

/// Whether a closing bracket of the context `closer` closes an opening
/// bracket of the context `opener`: the two are opposite numbers.
pub open spec fn spec_brackets_match(opener: i32, closer: i32) -> bool {
    opener + closer == 0
}

/// The workspace after a closing bracket of the context `context`: a syntax
/// error unless the innermost open bracket is of its family; the entries
/// above the opening bracket move to the output, the bracket is dropped, and
/// a function that stands right below it moves to the output too.
pub open spec fn spec_close<T>(w: WorkspaceView<T>, context: i32, token: Seq<char>) -> Result<
    WorkspaceView<T>,
    Failure,
> {
    if w.brackets.len() == 0 || !spec_brackets_match(w.brackets.last(), context) {
        Err(
            Failure::Reported(
                ErrorType::SyntaxError,
                "Bracket does not match the last opening bracket: "@ + token,
            ),
        )
    } else {
        let (operators, output) = spec_pop_to_opener(w.operators, w.output);
        if operators.len() == 0 {
            Err(
                Failure::Reported(
                    ErrorType::SyntaxError,
                    "Closing bracket used without opening bracket first: "@ + token,
                ),
            )
        } else {
            let below = operators.drop_last();
            if below.len() > 0 && below.last().category == Category::Functions {
                Ok(
                    WorkspaceView {
                        output: spec_emit(output, below.last()),
                        operators: below.drop_last(),
                        brackets: w.brackets.drop_last(),
                        names: w.names,
                    },
                )
            } else {
                Ok(WorkspaceView { output, operators: below, brackets: w.brackets.drop_last(), names: w.names })
            }
        }
    }
}

/// The workspace after the token `token` of the rule `rule`.
pub open spec fn spec_accept<T: NumericType>(w: WorkspaceView<T>, rule: RuleView, token: Seq<char>) -> Result<
    WorkspaceView<T>,
    Failure,
> {
    match spec_create_expression::<T>(rule, token, w.names) {
        Err(failure) => Err(failure),
        Ok((atom, names)) => {
            let entry = PendingView {
                category: rule.category,
                precedence: rule.precedence,
                atom: match atom {
                    Some(ExpressionView::Function(f)) => Some(f),
                    _ => None,
                },
            };
            match rule.category {
                Category::Fluff => Ok(w),
                Category::Literals | Category::Constants | Category::Variables => Ok(
                    WorkspaceView { output: w.output.push(atom.unwrap()), names, ..w },
                ),
                Category::Functions => Ok(WorkspaceView { operators: w.operators.push(entry), ..w }),
                Category::Operators | Category::ImplicitOperators => {
                    let (operators, output) = spec_pop_yielding(
                        w.operators,
                        w.output,
                        rule.precedence,
                        rule.spec_left_associative(),
                    );
                    Ok(WorkspaceView { output, operators: operators.push(entry), ..w })
                },
                Category::Separators => {
                    let (operators, output) = spec_pop_to_opener(w.operators, w.output);
                    Ok(WorkspaceView { output, operators, ..w })
                },
                Category::OpenBrackets => Ok(
                    WorkspaceView {
                        operators: w.operators.push(entry),
                        brackets: w.brackets.push(rule.context),
                        ..w
                    },
                ),
                Category::CloseBrackets => spec_close(w, rule.context, token),
            }
        },
    }
}

/// The program once the text has ended: what is left on the operator stack
/// moves to the output, topmost first; a bracket that is still open is a
/// syntax error.
pub open spec fn spec_finish<T>(operators: Seq<PendingView>, output: Seq<ExpressionView<T>>) -> Result<
    Seq<ExpressionView<T>>,
    Failure,
>
    decreases operators.len(),
{
    if operators.len() == 0 {
        Ok(output)
    } else if operators.last().category == Category::OpenBrackets {
        Err(Failure::Reported(ErrorType::SyntaxError, "Unclosed opening bracket"@))
    } else {
        spec_finish(operators.drop_last(), spec_emit(output, operators.last()))
    }
}

/// Pushing an atom onto a program pushes its view onto the program's view.
proof fn lemma_program_push<T: NumericType>(program: Seq<Expression<T>>, atom: Expression<T>)
    ensures
        program_view(program.push(atom)) == program_view(program).push(atom@),
{
    assert(program_view(program.push(atom)) =~= program_view(program).push(atom@));
}

/// Pushing an entry onto an operator stack pushes its view onto the stack's view.
proof fn lemma_pending_push(entries: Seq<Pending>, entry: Pending)
    ensures
        pending_views(entries.push(entry)) == pending_views(entries).push(entry@),
{
    assert(pending_views(entries.push(entry)) =~= pending_views(entries).push(entry@));
}

/// Popping an entry from an operator stack pops its view from the stack's view.
proof fn lemma_pending_pop(entries: Seq<Pending>)
    requires
        entries.len() > 0,
    ensures
        pending_views(entries.drop_last()) == pending_views(entries).drop_last(),
        pending_views(entries).last() == entries.last()@,
{
    assert(pending_views(entries.drop_last()) =~= pending_views(entries).drop_last());
}

/// Pushing a name onto a list of names pushes its view onto the list's view.
proof fn lemma_names_push(names: Seq<String>, name: String)
    ensures
        name_views(names.push(name)) == name_views(names).push(name@),
{
    assert(name_views(names.push(name)) =~= name_views(names).push(name@));
}

/// The atom for a token of `rule`; see `spec_create_expression`.
pub fn create_expression<T: NumericType>(rule: &Rule, token: &str, names: &mut Vec<String>) -> (r: Result<
    Option<Expression<T>>,
    Error,
>)
    requires
        names_distinct(name_views(old(names)@)),
    ensures
        names_distinct(name_views(final(names)@)),
        match r {
            Ok(atom) => spec_create_expression::<T>(rule@, token@, name_views(old(names)@)) == Ok::<_, Failure>(
                (
                    match atom {
                        Some(e) => Some(e@),
                        None => None,
                    },
                    name_views(final(names)@),
                ),
            ),
            Err(e) => final(names)@ == old(names)@ && (spec_create_expression::<T>(
                rule@,
                token@,
                name_views(old(names)@),
            ) matches Err(failure) && fails_as(e, failure)),
        },
{
    match rule.category {
        Category::ImplicitOperators | Category::Operators | Category::Functions => match &rule.binding {
            Some((f, _)) => Ok(Some(Expression::Function(f.duplicate()))),
            None => Err(
                Error::with_detail(
                    ErrorType::InternalError,
                    "Syntax rule is of functional type but has no function binding set: ",
                    token,
                ),
            ),
        },
        Category::Constants => match &rule.binding {
            Some((f, _)) => {
                let nothing: Vec<T> = Vec::new();
                let value = f.function.call::<T>(nothing.as_slice())?;
                Ok(Some(Expression::Constant(Constant::new(value))))
            },
            None => Err(
                Error::with_detail(
                    ErrorType::InternalError,
                    "Syntax rule is of functional type but has no function binding set: ",
                    token,
                ),
            ),
        },
        Category::Literals => match T::parse_literal(token) {
            Some(value) => Ok(Some(Expression::Number(Number::new(value)))),
            None => Err(
                Error::with_detail(ErrorType::SyntaxError, "Could not parse literal as a number: ", token),
            ),
        },
        Category::Variables => {
            let ghost known = name_views(names@);
            let mut i: usize = 0;
            while i < names.len()
                invariant
                    rule.category == Category::Variables,
                    i <= names@.len(),
                    names@ == old(names)@,
                    known == name_views(names@),
                    names_distinct(known),
                    forall|j: int| 0 <= j < i ==> #[trigger] known[j] != token@,
                decreases names@.len() - i,
            {
                if same_text(names[i].as_str(), token) {
                    assert(spec_position(known, token@) == Some(i as int)) by {
                        assert(known[i as int] == token@);
                        let c = choose|c: int| 0 <= c < known.len() && known[c] == token@;
                        if c > i {
                            assert(known[i as int] != known[c]);
                        }
                    }
                    return Ok(Some(Expression::Variable(Variable::new(token, i))));
                }
                i += 1;
            }
            let name = String::from_str(token);
            proof {
                lemma_names_push(names@, name);
            }
            names.push(name);
            assert(names_distinct(name_views(names@))) by {
                let after = name_views(names@);
                assert forall|a: int, b: int| 0 <= a < b < after.len() implies #[trigger] after[a] != #[trigger] after[b] by {
                    if b < known.len() {
                        assert(known[a] != known[b]);
                    } else {
                        assert(known[a] != token@);
                    }
                }
            }
            Ok(Some(Expression::Variable(Variable::new(token, i))))
        },
        _ => Ok(None),
    }
}

impl<T: NumericType> Workspace<T> {
    /// No name occurs twice, and every variable atom of the output reads the
    /// cell of its name.
    pub open spec fn wf(&self) -> bool {
        &&& names_distinct(self@.names)
        &&& cells_resolved(self@.output, self@.names)
    }

    /// An empty workspace.
    pub fn new() -> (w: Workspace<T>)
        ensures
            w.wf(),
            w@ == (WorkspaceView::<T> {
                output: Seq::empty(),
                operators: Seq::empty(),
                brackets: Seq::empty(),
                names: Seq::empty(),
            }),
    {
        let w = Workspace { output: Vec::new(), operators: Vec::new(), brackets: Vec::new(), names: Vec::new() };
        assert(w@.output =~= Seq::empty());
        assert(w@.operators =~= Seq::empty());
        assert(w@.names =~= Seq::empty());
        w
    }

    /// Moves the top of the operator stack to the output.
    fn pop_to_output(&mut self)
        requires
            old(self).wf(),
            old(self).operators@.len() > 0,
        ensures
            final(self).wf(),
            final(self)@ == (WorkspaceView {
                output: spec_emit(old(self)@.output, old(self)@.operators.last()),
                operators: old(self)@.operators.drop_last(),
                ..old(self)@
            }),
    {
        proof {
            lemma_pending_pop(self.operators@);
        }
        let entry = self.operators.pop().unwrap();
        match entry.atom {
            Some(f) => {
                let atom = Expression::Function(f);
                proof {
                    lemma_program_push(self.output@, atom);
                }
                self.output.push(atom);
            },
            None => {},
        }
    }

    /// Whether the top of the operator stack yields to a new operator.
    fn top_yields(&self, precedence: u32, left: bool) -> (r: bool)
        ensures
            r == (self@.operators.len() > 0 && spec_yields(self@.operators.last(), precedence, left)),
    {
        let n = self.operators.len();
        if n == 0 {
            return false;
        }
        proof {
            lemma_pending_pop(self.operators@);
        }
        let top = &self.operators[n - 1];
        top.category != Category::OpenBrackets && (top.precedence > precedence || (top.precedence == precedence
            && left))
    }

    /// Whether an entry that is no opening bracket is on top of the operator stack.
    fn top_is_operator(&self) -> (r: bool)
        ensures
            r == (self@.operators.len() > 0 && self@.operators.last().category != Category::OpenBrackets),
    {
        let n = self.operators.len();
        if n == 0 {
            return false;
        }
        proof {
            lemma_pending_pop(self.operators@);
        }
        self.operators[n - 1].category != Category::OpenBrackets
    }

    /// Moves the entries that yield to a new operator to the output.
    fn pop_yielding(&mut self, precedence: u32, left: bool)
        requires
            old(self).wf(),
        ensures
            final(self).wf(),
            final(self)@ == (WorkspaceView {
                output: spec_pop_yielding(old(self)@.operators, old(self)@.output, precedence, left).1,
                operators: spec_pop_yielding(old(self)@.operators, old(self)@.output, precedence, left).0,
                ..old(self)@
            }),
    {
        let mut go = self.top_yields(precedence, left);
        while go
            invariant
                self.wf(),
                go == (self@.operators.len() > 0 && spec_yields(self@.operators.last(), precedence, left)),
                self@.brackets == old(self)@.brackets,
                self@.names == old(self)@.names,
                spec_pop_yielding(old(self)@.operators, old(self)@.output, precedence, left) == spec_pop_yielding(
                    self@.operators,
                    self@.output,
                    precedence,
                    left,
                ),
            decreases self@.operators.len(),
        {
            self.pop_to_output();
            go = self.top_yields(precedence, left);
        }
    }

    /// Moves the entries above the innermost opening bracket to the output.
    fn pop_to_opener(&mut self)
        requires
            old(self).wf(),
        ensures
            final(self).wf(),
            final(self)@ == (WorkspaceView {
                output: spec_pop_to_opener(old(self)@.operators, old(self)@.output).1,
                operators: spec_pop_to_opener(old(self)@.operators, old(self)@.output).0,
                ..old(self)@
            }),
    {
        let mut go = self.top_is_operator();
        while go
            invariant
                self.wf(),
                go == (self@.operators.len() > 0 && self@.operators.last().category != Category::OpenBrackets),
                self@.brackets == old(self)@.brackets,
                self@.names == old(self)@.names,
                spec_pop_to_opener(old(self)@.operators, old(self)@.output) == spec_pop_to_opener(
                    self@.operators,
                    self@.output,
                ),
            decreases self@.operators.len(),
        {
            self.pop_to_output();
            go = self.top_is_operator();
        }
    }
    /// Handles a closing bracket of the context `context`; see `spec_close`.
    fn close(&mut self, context: i32, token: &str) -> (r: Result<(), Error>)
        requires
            old(self).wf(),
        ensures
            final(self).wf(),
            match r {
                Ok(()) => spec_close(old(self)@, context, token@) == Ok::<_, Failure>(final(self)@),
                Err(e) => spec_close(old(self)@, context, token@) matches Err(failure) && fails_as(e, failure),
            },
    {
        let n = self.brackets.len();
        if n == 0 || (self.brackets[n - 1] as i64) + (context as i64) != 0 {
            return Err(
                Error::with_detail(ErrorType::SyntaxError, "Bracket does not match the last opening bracket: ", token),
            );
        }
        self.brackets.pop();
        self.pop_to_opener();
        if self.operators.len() == 0 {
            return Err(
                Error::with_detail(
                    ErrorType::SyntaxError,
                    "Closing bracket used without opening bracket first: ",
                    token,
                ),
            );
        }
        proof {
            lemma_pending_pop(self.operators@);
        }
        self.operators.pop();
        let m = self.operators.len();
        if m > 0 {
            proof {
                lemma_pending_pop(self.operators@);
            }
            if self.operators[m - 1].category == Category::Functions {
                self.pop_to_output();
            }
        }
        Ok(())
    }

    /// Takes in the token `token` of the rule `rule`; see `spec_accept`.
    pub fn accept(&mut self, rule: &Rule, token: &str) -> (r: Result<(), Error>)
        requires
            old(self).wf(),
        ensures
            final(self).wf(),
            match r {
                Ok(()) => spec_accept(old(self)@, rule@, token@) == Ok::<_, Failure>(final(self)@),
                Err(e) => spec_accept(old(self)@, rule@, token@) matches Err(failure) && fails_as(e, failure),
            },
    {
        let ghost before = self@;
        let atom = match create_expression::<T>(rule, token, &mut self.names) {
            Ok(atom) => atom,
            Err(e) => {
                return Err(e);
            },
        };
        let ghost names = name_views(self.names@);
        let count = self.names.len();
        proof {
            assert(names.len() == count);
            lemma_names_extend(before.output, before.names, token@);
            assert(names == before.names || names == before.names.push(token@));
            assert(cells_resolved(before.output, names));
        }
        match rule.category {
            Category::Fluff => {},
            Category::Literals | Category::Constants | Category::Variables => match atom {
                Some(atom) => {
                    proof {
                        lemma_program_push(self.output@, atom);
                        if rule.category == Category::Variables {
                            lemma_position(before.names, token@);
                        }
                        lemma_resolved_push(before.output, names, atom@);
                    }
                    self.output.push(atom);
                },
                None => {},
            },
            Category::Functions => {
                let entry = Pending { category: rule.category, precedence: rule.precedence, atom: function_of(atom) };
                proof {
                    lemma_pending_push(self.operators@, entry);
                }
                self.operators.push(entry);
            },
            Category::Operators | Category::ImplicitOperators => {
                self.pop_yielding(rule.precedence, rule.left_associative());
                let entry = Pending { category: rule.category, precedence: rule.precedence, atom: function_of(atom) };
                proof {
                    lemma_pending_push(self.operators@, entry);
                }
                self.operators.push(entry);
            },
            Category::Separators => {
                self.pop_to_opener();
            },
            Category::OpenBrackets => {
                let entry = Pending { category: rule.category, precedence: rule.precedence, atom: None };
                proof {
                    lemma_pending_push(self.operators@, entry);
                }
                self.brackets.push(rule.context);
                self.operators.push(entry);
            },
            Category::CloseBrackets => {
                return self.close(rule.context, token);
            },
        }
        Ok(())
    }

    /// Ends the conversion: the program and the names of its variables; see
    /// `spec_finish`.
    pub fn finish(self) -> (r: Result<(Vec<Expression<T>>, Vec<String>), Error>)
        requires
            self.wf(),
        ensures
            match r {
                Ok((program, names)) => spec_finish(self@.operators, self@.output) == Ok::<_, Failure>(
                    program_view(program@),
                ) && name_views(names@) == self@.names && names_distinct(name_views(names@)) && cells_resolved(
                    program_view(program@),
                    name_views(names@),
                ),
                Err(e) => spec_finish(self@.operators, self@.output) matches Err(failure) && fails_as(e, failure),
            },
    {
        let mut w = self;
        while w.operators.len() > 0
            invariant
                w.wf(),
                w@.names == self@.names,
                spec_finish(self@.operators, self@.output) == spec_finish(w@.operators, w@.output),
            decreases w@.operators.len(),
        {
            let n = w.operators.len();
            proof {
                lemma_pending_pop(w.operators@);
            }
            if w.operators[n - 1].category == Category::OpenBrackets {
                return Err(Error::new(ErrorType::SyntaxError, "Unclosed opening bracket"));
            }
            w.pop_to_output();
        }
        Ok((w.output, w.names))
    }
}

/// The function of a function atom.
fn function_of<T: NumericType>(atom: Option<Expression<T>>) -> (r: Option<Function>)
    ensures
        match r {
            Some(f) => atom matches Some(Expression::Function(g)) && f == g,
            None => !(atom matches Some(Expression::Function(_))),
        },
{
    match atom {
        Some(Expression::Function(f)) => Some(f),
        _ => None,
    }
}

/// Where `label` is among `names`, `spec_position` gives a place that holds it.
proof fn lemma_position(names: Seq<Seq<char>>, label: Seq<char>)
    ensures
        spec_position(names, label) matches Some(i) ==> 0 <= i < names.len() && names[i] == label,
        spec_position(names, label).is_none() ==> forall|i: int| 0 <= i < names.len() ==> names[i] != label,
{
}

/// A program whose variable atoms read cells of `names` still does so once
/// an atom is added that is no variable or reads the cell of its name.
proof fn lemma_resolved_push<T: NumericType>(program: Seq<ExpressionView<T>>, names: Seq<Seq<char>>, atom: ExpressionView<T>)
    requires
        cells_resolved(program, names),
        atom matches ExpressionView::Variable { label, cell } ==> cell < names.len() && names[cell as int] == label,
    ensures
        cells_resolved(program.push(atom), names),
{
    let after = program.push(atom);
    assert forall|i: int| 0 <= i < after.len() implies (#[trigger] after[i] matches ExpressionView::Variable {
        label,
        cell,
    } ==> cell < names.len() && names[cell as int] == label) by {
        if i < program.len() {
            assert(after[i] == program[i]);
        }
    }
}

/// A program whose variable atoms read cells of `names` reads the same cells
/// once a name is added.
proof fn lemma_names_extend<T: NumericType>(program: Seq<ExpressionView<T>>, names: Seq<Seq<char>>, name: Seq<char>)
    requires
        cells_resolved(program, names),
    ensures
        cells_resolved(program, names.push(name)),
{
    assert forall|i: int| 0 <= i < program.len() implies (#[trigger] program[i] matches ExpressionView::Variable {
        label,
        cell,
    } ==> cell < names.push(name).len() && names.push(name)[cell as int] == label) by {
        if let ExpressionView::Variable { label, cell } = program[i] {
            assert(names.push(name)[cell as int] == names[cell as int]);
        }
    }
}

} // verus!
