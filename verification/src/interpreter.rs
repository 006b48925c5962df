//! The interpreter: a tree walk over the statements against one variable
//! environment, which stops at the first error.
//!
//! The interpreter does no arithmetic that rounds. Where a statement needs
//! the double that a numeral denotes, or the sum, difference, product or
//! quotient of two doubles, the result is the work of the host, which hands
//! it in as an answer. A run takes the answers given so far, in the order in
//! which they were asked for. When it reaches an operation whose answer is
//! not there yet, it stops and says which operation it is waiting for; the
//! host computes it, adds it to the answers and runs the program again.

use vstd::prelude::*;
use vstd::string::StringExecFns;
use crate::environment::{
    read, written, Environment, RuntimeError, RuntimeErrorView, Value, ValueView,
};
use crate::expr::{
    size, stmt_views, BinOpType, BinaryOp, Expr, ExprView, Literal, LiteralView, Numeral,
    NumeralView, Stmt, StmtView, UnaryOp, UniOpType,
};
use crate::number::{
    at_most, is_negligible, is_zero, less, less_equal, less_than, negate, negated, negligible,
    zero,
};

verus! {

/// An operation that the host carries out on doubles.
#[derive(Debug)]
pub enum Request {
    /// The double that is nearest to the numeral.
    Convert(Numeral),
    /// The sum (`Add`), difference (`Sub`), product (`Mult`) or quotient
    /// (`Div`) of two doubles, given as bit patterns.
    Compute(BinOpType, u64, u64),
}

/// The mathematical content of a [`Request`].
pub enum RequestView {
    Convert(NumeralView),
    Compute(BinOpType, u64, u64),
}

impl View for Request {
    type V = RequestView;

    open spec fn view(&self) -> RequestView {
        match self {
            Request::Convert(n) => RequestView::Convert(n@),
            Request::Compute(op, a, b) => RequestView::Compute(*op, *a, *b),
        }
    }
}

/// Why a run stopped before the end of the program.
#[derive(Debug)]
pub enum Stop {
    /// An error of evaluation.
    Failed(RuntimeError),
    /// The answers do not reach as far as this operation.
    Waiting(Request),
}

/// The mathematical content of a [`Stop`].
pub enum StopView {
    Failed(RuntimeErrorView),
    Waiting(RequestView),
}

impl View for Stop {
    type V = StopView;

    open spec fn view(&self) -> StopView {
        match self {
            Stop::Failed(e) => StopView::Failed(e@),
            Stop::Waiting(r) => StopView::Waiting(r@),
        }
    }
}

/// One line of output: text as it is to be written, or a number that the
/// host is to write in decimal.
#[derive(Debug)]
pub enum Printed {
    Text(String),
    Number(u64),
}

/// The mathematical content of a [`Printed`].
pub enum PrintedView {
    Text(Seq<char>),
    Number(u64),
}

impl View for Printed {
    type V = PrintedView;

    open spec fn view(&self) -> PrintedView {
        match self {
            Printed::Text(s) => PrintedView::Text(s@),
            Printed::Number(n) => PrintedView::Number(*n),
        }
    }
}

/// The views of the lines of output, in order.
pub open spec fn printed_views(lines: Seq<Printed>) -> Seq<PrintedView> {
    lines.map_values(|line: Printed| line@)
}

// ---------------------------------------------------------------------------
// What evaluation means
// ---------------------------------------------------------------------------

/// The state of a run: the variables, the number of answers used so far and
/// the lines printed so far.
pub struct State {
    pub env: Map<Seq<char>, Option<ValueView>>,
    pub used: nat,
    pub output: Seq<PrintedView>,
}

/// The outcome of evaluating an expression, and the state it leaves.
pub struct Evaluated {
    pub result: Result<ValueView, StopView>,
    pub state: State,
}

/// The outcome of executing statements, and the state it leaves.
pub struct Executed {
    pub result: Result<(), StopView>,
    pub state: State,
}

/// A value, in a state.
pub open spec fn value(v: ValueView, state: State) -> Evaluated {
    Evaluated { result: Ok(v), state }
}

/// An error, in a state.
pub open spec fn failed(e: RuntimeErrorView, state: State) -> Evaluated {
    Evaluated { result: Err(StopView::Failed(e)), state }
}

/// The number that the host gave for `request`: the next unused answer. When
/// every answer is used, the run waits for this one.
pub open spec fn asked(request: RequestView, s: State, answers: Seq<u64>) -> Evaluated {
    if s.used < answers.len() {
        value(
            ValueView::Number(answers[s.used as int]),
            State { env: s.env, used: s.used + 1, output: s.output },
        )
    } else {
        Evaluated { result: Err(StopView::Waiting(request)), state: s }
    }
}

/// The value of a literal.
pub open spec fn literal_value(l: LiteralView, s: State, answers: Seq<u64>) -> Evaluated {
    match l {
        LiteralView::Number(n) => asked(RequestView::Convert(n), s, answers),
        LiteralView::String(text) => value(ValueView::String(text), s),
        LiteralView::True => value(ValueView::Bool(true), s),
        LiteralView::False => value(ValueView::Bool(false), s),
        LiteralView::Null => value(ValueView::Null, s),
    }
}

/// A prefix operator applied to a value: `-` negates a number, `!` a
/// boolean. Nothing is coerced.
pub open spec fn unary_value(op: UnaryOp, v: ValueView) -> Result<ValueView, StopView> {
    match (op.u_type, v) {
        (UniOpType::Minus, ValueView::Number(n)) => Ok(ValueView::Number(negated(n))),
        (UniOpType::Bang, ValueView::Bool(b)) => Ok(ValueView::Bool(!b)),
        (UniOpType::Minus, _) => Err(
            StopView::Failed(
                RuntimeErrorView::NotANumber { line: op.line as int, column: op.column as int },
            ),
        ),
        (UniOpType::Bang, _) => Err(
            StopView::Failed(
                RuntimeErrorView::NotABoolean { line: op.line as int, column: op.column as int },
            ),
        ),
    }
}

/// Structural equality of two values. Two numbers are equal when their
/// difference, `gap`, is smaller in absolute value than the machine epsilon;
/// `gap` is read in that case only. Strings and booleans are equal when they
/// are the same, null equals null, and values of different types are never
/// equal.
pub open spec fn equal_values(left: ValueView, right: ValueView, gap: u64) -> bool {
    match (left, right) {
        (ValueView::Number(_), ValueView::Number(_)) => negligible(gap),
        (ValueView::String(s1), ValueView::String(s2)) => s1 == s2,
        (ValueView::Bool(b1), ValueView::Bool(b2)) => b1 == b2,
        (ValueView::Null, ValueView::Null) => true,
        (_, _) => false,
    }
}

/// The outcome of `==` and of `!=`, which compute the same boolean: whether
/// the operands are equal. For two numbers the host gives their difference.
pub open spec fn compared(
    left: ValueView,
    right: ValueView,
    s: State,
    answers: Seq<u64>,
) -> Evaluated {
    match (left, right) {
        (ValueView::Number(a), ValueView::Number(b)) => {
            let gap = asked(RequestView::Compute(BinOpType::Sub, a, b), s, answers);
            match gap.result {
                Ok(ValueView::Number(d)) => value(
                    ValueView::Bool(equal_values(left, right, d)),
                    gap.state,
                ),
                _ => gap,
            }
        },
        _ => value(ValueView::Bool(equal_values(left, right, 0)), s),
    }
}

/// An infix operator applied to two values.
///
/// The relational operators take two numbers and give a boolean. `+` takes
/// two numbers or two strings, `-`, `*` and `/` take two numbers; dividing
/// by zero is an error. `==` and `!=` take any two values. Every other
/// pairing is an error.
pub open spec fn binary_value(
    op: BinaryOp,
    left: ValueView,
    right: ValueView,
    s: State,
    answers: Seq<u64>,
) -> Evaluated {
    match (left, op.b_type, right) {
        (ValueView::Number(l), BinOpType::Less, ValueView::Number(r)) => value(
            ValueView::Bool(less(l, r)),
            s,
        ),
        (ValueView::Number(l), BinOpType::LessEqual, ValueView::Number(r)) => value(
            ValueView::Bool(less_equal(l, r)),
            s,
        ),
        (ValueView::Number(l), BinOpType::Greater, ValueView::Number(r)) => value(
            ValueView::Bool(less(r, l)),
            s,
        ),
        (ValueView::Number(l), BinOpType::GreaterEqual, ValueView::Number(r)) => value(
            ValueView::Bool(less_equal(r, l)),
            s,
        ),
        (ValueView::Number(l), BinOpType::Sub, ValueView::Number(r)) => asked(
            RequestView::Compute(BinOpType::Sub, l, r),
            s,
            answers,
        ),
        (ValueView::Number(l), BinOpType::Add, ValueView::Number(r)) => asked(
            RequestView::Compute(BinOpType::Add, l, r),
            s,
            answers,
        ),
        (ValueView::Number(l), BinOpType::Mult, ValueView::Number(r)) => asked(
            RequestView::Compute(BinOpType::Mult, l, r),
            s,
            answers,
        ),
        (ValueView::Number(l), BinOpType::Div, ValueView::Number(r)) => {
            if is_zero(r) {
                failed(
                    RuntimeErrorView::DivisionByZero {
                        line: op.line as int,
                        column: op.column as int,
                    },
                    s,
                )
            } else {
                asked(RequestView::Compute(BinOpType::Div, l, r), s, answers)
            }
        },
        (ValueView::String(l), BinOpType::Add, ValueView::String(r)) => value(
            ValueView::String(l + r),
            s,
        ),
        (_, BinOpType::EqualEqual, _) => compared(left, right, s, answers),
        (_, BinOpType::NotEqual, _) => compared(left, right, s, answers),
        _ => failed(
            RuntimeErrorView::UnsupportedOperands {
                op: op.b_type,
                line: op.line as int,
                column: op.column as int,
            },
            s,
        ),
    }
}

/// The value of an expression in a state, given the host's answers.
///
/// The operands of an operator are evaluated from left to right, and each
/// in the state that the one before it left.
pub open spec fn eval(e: ExprView, s: State, answers: Seq<u64>) -> Evaluated
    decreases e,
{
    match e {
        ExprView::Literal(l) => literal_value(l, s, answers),
        ExprView::Grouping(inner) => eval(*inner, s, answers),
        ExprView::Unary(op, operand) => {
            let v = eval(*operand, s, answers);
            match v.result {
                Ok(x) => Evaluated { result: unary_value(op, x), state: v.state },
                Err(_) => v,
            }
        },
        ExprView::Binary(left, op, right) => {
            let l = eval(*left, s, answers);
            match l.result {
                Ok(x) => {
                    let r = eval(*right, l.state, answers);
                    match r.result {
                        Ok(y) => binary_value(op, x, y, r.state, answers),
                        Err(_) => r,
                    }
                },
                Err(_) => l,
            }
        },
        ExprView::Variable(sym) => Evaluated {
            result: match read(s.env, sym.name) {
                Ok(v) => Ok(v),
                Err(e) => Err(StopView::Failed(e)),
            },
            state: s,
        },
        ExprView::Assignment(sym, expr) => {
            let v = eval(*expr, s, answers);
            match v.result {
                Ok(x) => {
                    let (env, outcome) = written(v.state.env, sym, x);
                    Evaluated {
                        result: match outcome {
                            Ok(()) => Ok(x),
                            Err(e) => Err(StopView::Failed(e)),
                        },
                        state: State { env, used: v.state.used, output: v.state.output },
                    }
                },
                Err(_) => v,
            }
        },
    }
}

/// The line that printing a value gives. A number is left for the host to
/// write; a string is written as it is, a boolean as `true` or `false`,
/// null as `null`.
pub open spec fn printed(v: ValueView) -> PrintedView {
    match v {
        ValueView::Number(n) => PrintedView::Number(n),
        ValueView::String(s) => PrintedView::Text(s),
        ValueView::Bool(b) => PrintedView::Text(
            if b {
                "true"@
            } else {
                "false"@
            },
        ),
        ValueView::Null => PrintedView::Text("null"@),
    }
}

/// The effect of one statement.
pub open spec fn execute_spec(stmt: StmtView, s: State, answers: Seq<u64>) -> Executed {
    match stmt {
        StmtView::Print(e) => {
            let v = eval(e, s, answers);
            match v.result {
                Ok(x) => Executed {
                    result: Ok(()),
                    state: State {
                        env: v.state.env,
                        used: v.state.used,
                        output: v.state.output.push(printed(x)),
                    },
                },
                Err(stop) => Executed { result: Err(stop), state: v.state },
            }
        },
        StmtView::Expression(e) => {
            let v = eval(e, s, answers);
            match v.result {
                Ok(_) => Executed { result: Ok(()), state: v.state },
                Err(stop) => Executed { result: Err(stop), state: v.state },
            }
        },
        StmtView::VarDeclaration(sym, None) => Executed {
            result: Ok(()),
            state: State { env: s.env.insert(sym.name, None), used: s.used, output: s.output },
        },
        StmtView::VarDeclaration(sym, Some(e)) => {
            let v = eval(e, s, answers);
            match v.result {
                Ok(x) => Executed {
                    result: Ok(()),
                    state: State {
                        env: v.state.env.insert(sym.name, Some(x)),
                        used: v.state.used,
                        output: v.state.output,
                    },
                },
                Err(stop) => Executed { result: Err(stop), state: v.state },
            }
        },
    }
}

/// The effect of the statements from index `from` on, in order, up to the
/// first that stops.
pub open spec fn run_from(stmts: Seq<StmtView>, from: int, s: State, answers: Seq<u64>) -> Executed
    decreases stmts.len() - from,
{
    if 0 <= from < stmts.len() {
        let first = execute_spec(stmts[from], s, answers);
        match first.result {
            Ok(()) => run_from(stmts, from + 1, first.state, answers),
            Err(_) => first,
        }
    } else {
        Executed { result: Ok(()), state: s }
    }
}

/// The state in which a run starts: nothing declared, no answer used,
/// nothing printed.
pub open spec fn start() -> State {
    State { env: Map::empty(), used: 0, output: Seq::empty() }
}

/// The mathematical content of a [`Run`].
pub struct RunView {
    pub output: Seq<PrintedView>,
    pub result: Result<(), StopView>,
}

/// A run of a whole program from the start.
pub open spec fn interpret_spec(stmts: Seq<StmtView>, answers: Seq<u64>) -> RunView {
    let end = run_from(stmts, 0, start(), answers);
    RunView { output: end.state.output, result: end.result }
}

/// Parentheses do not change what an expression evaluates to.
pub proof fn lemma_grouping_is_transparent(e: ExprView, s: State, answers: Seq<u64>)
    ensures
        eval(ExprView::Grouping(Box::new(e)), s, answers) == eval(e, s, answers),
{
}

/// The run waits for an answer.
pub open spec fn waits<T>(result: Result<T, StopView>) -> bool {
    result matches Err(StopView::Waiting(_))
}

/// How an evaluation uses the answers: in order and never beyond their
/// end; when it waits, it has used them all; and when it does not wait,
/// further answers change nothing.
pub proof fn lemma_eval_answers(e: ExprView, s: State, answers: Seq<u64>, more: Seq<u64>)
    ensures
        s.used <= eval(e, s, answers).state.used,
        s.used <= answers.len() ==> eval(e, s, answers).state.used <= answers.len(),
        waits(eval(e, s, answers).result) ==> eval(e, s, answers).state.used >= answers.len(),
        !waits(eval(e, s, answers).result) ==> eval(e, s, answers + more) == eval(e, s, answers),
    decreases e,
{
    match e {
        ExprView::Literal(_) => {},
        ExprView::Grouping(inner) => {
            lemma_eval_answers(*inner, s, answers, more);
        },
        ExprView::Unary(_, operand) => {
            lemma_eval_answers(*operand, s, answers, more);
        },
        ExprView::Binary(left, _, right) => {
            lemma_eval_answers(*left, s, answers, more);
            let l = eval(*left, s, answers);
            if l.result is Ok {
                lemma_eval_answers(*right, l.state, answers, more);
            }
        },
        ExprView::Variable(_) => {},
        ExprView::Assignment(_, expr) => {
            lemma_eval_answers(*expr, s, answers, more);
        },
    }
}

/// How the statements use the answers: as an evaluation does.
pub proof fn lemma_run_answers(
    stmts: Seq<StmtView>,
    from: int,
    s: State,
    answers: Seq<u64>,
    more: Seq<u64>,
)
    ensures
        s.used <= run_from(stmts, from, s, answers).state.used,
        s.used <= answers.len() ==> run_from(stmts, from, s, answers).state.used <= answers.len(),
        waits(run_from(stmts, from, s, answers).result) ==> run_from(
            stmts,
            from,
            s,
            answers,
        ).state.used >= answers.len(),
        !waits(run_from(stmts, from, s, answers).result) ==> run_from(
            stmts,
            from,
            s,
            answers + more,
        ) == run_from(stmts, from, s, answers),
    decreases stmts.len() - from,
{
    if 0 <= from < stmts.len() {
        match stmts[from] {
            StmtView::Print(e) => lemma_eval_answers(e, s, answers, more),
            StmtView::Expression(e) => lemma_eval_answers(e, s, answers, more),
            StmtView::VarDeclaration(_, Some(e)) => lemma_eval_answers(e, s, answers, more),
            StmtView::VarDeclaration(_, None) => {},
        }
        let first = execute_spec(stmts[from], s, answers);
        if first.result is Ok {
            lemma_run_answers(stmts, from + 1, first.state, answers, more);
        }
    }
}

/// A run that does not wait is final: whatever answers the host adds, the
/// program prints the same lines and ends in the same way.
pub proof fn lemma_finished_run_is_final(stmts: Seq<StmtView>, answers: Seq<u64>, more: Seq<u64>)
    requires
        !waits(interpret_spec(stmts, answers).result),
    ensures
        interpret_spec(stmts, answers + more) == interpret_spec(stmts, answers),
{
    lemma_run_answers(stmts, 0, start(), answers, more);
}

/// A run that waits has used every answer it was given: the next answer
/// that the host adds is the one it waits for.
pub proof fn lemma_waiting_run_used_all(stmts: Seq<StmtView>, answers: Seq<u64>)
    requires
        waits(interpret_spec(stmts, answers).result),
    ensures
        run_from(stmts, 0, start(), answers).state.used == answers.len(),
{
    lemma_run_answers(stmts, 0, start(), answers, Seq::empty());
}

/// The most operations that evaluating an expression can ask of the host:
/// one for each numeral and one for each infix operator.
pub open spec fn demand(e: ExprView) -> nat
    decreases e,
{
    match e {
        ExprView::Literal(LiteralView::Number(_)) => 1,
        ExprView::Literal(_) => 0,
        ExprView::Grouping(inner) => demand(*inner),
        ExprView::Unary(_, operand) => demand(*operand),
        ExprView::Binary(left, _, right) => demand(*left) + demand(*right) + 1,
        ExprView::Variable(_) => 0,
        ExprView::Assignment(_, expr) => demand(*expr),
    }
}

/// The most operations that executing a statement can ask of the host.
pub open spec fn statement_demand(stmt: StmtView) -> nat {
    match stmt {
        StmtView::Print(e) => demand(e),
        StmtView::Expression(e) => demand(e),
        StmtView::VarDeclaration(_, Some(e)) => demand(e),
        StmtView::VarDeclaration(_, None) => 0,
    }
}

/// The most operations that the statements from index `from` on can ask of
/// the host.
pub open spec fn program_demand(stmts: Seq<StmtView>, from: int) -> nat
    decreases stmts.len() - from,
{
    if 0 <= from < stmts.len() {
        statement_demand(stmts[from]) + program_demand(stmts, from + 1)
    } else {
        0
    }
}

/// An evaluation uses no more answers than the expression can ask for, and
/// fewer when it waits.
pub proof fn lemma_eval_demand(e: ExprView, s: State, answers: Seq<u64>)
    ensures
        eval(e, s, answers).state.used <= s.used + demand(e),
        waits(eval(e, s, answers).result) ==> eval(e, s, answers).state.used < s.used + demand(e),
    decreases e,
{
    match e {
        ExprView::Literal(_) => {},
        ExprView::Grouping(inner) => {
            lemma_eval_demand(*inner, s, answers);
        },
        ExprView::Unary(_, operand) => {
            lemma_eval_demand(*operand, s, answers);
        },
        ExprView::Binary(left, _, right) => {
            lemma_eval_demand(*left, s, answers);
            let l = eval(*left, s, answers);
            if l.result is Ok {
                lemma_eval_demand(*right, l.state, answers);
            }
        },
        ExprView::Variable(_) => {},
        ExprView::Assignment(_, expr) => {
            lemma_eval_demand(*expr, s, answers);
        },
    }
}

/// The statements use no more answers than they can ask for, and fewer when
/// the run waits.
pub proof fn lemma_run_demand(stmts: Seq<StmtView>, from: int, s: State, answers: Seq<u64>)
    ensures
        run_from(stmts, from, s, answers).state.used <= s.used + program_demand(stmts, from),
        waits(run_from(stmts, from, s, answers).result) ==> run_from(
            stmts,
            from,
            s,
            answers,
        ).state.used < s.used + program_demand(stmts, from),
    decreases stmts.len() - from,
{
    if 0 <= from < stmts.len() {
        match stmts[from] {
            StmtView::Print(e) => lemma_eval_demand(e, s, answers),
            StmtView::Expression(e) => lemma_eval_demand(e, s, answers),
            StmtView::VarDeclaration(_, Some(e)) => lemma_eval_demand(e, s, answers),
            StmtView::VarDeclaration(_, None) => {},
        }
        let first = execute_spec(stmts[from], s, answers);
        if first.result is Ok {
            lemma_run_demand(stmts, from + 1, first.state, answers);
        }
    }
}

/// With as many answers as the program can ask for, a run does not wait:
/// the host that adds one answer at a time comes to an end.
pub proof fn lemma_enough_answers(stmts: Seq<StmtView>, answers: Seq<u64>)
    requires
        answers.len() >= program_demand(stmts, 0),
    ensures
        !waits(interpret_spec(stmts, answers).result),
{
    lemma_run_demand(stmts, 0, start(), answers);
    lemma_run_answers(stmts, 0, start(), answers, Seq::empty());
}

// ---------------------------------------------------------------------------
// The interpreter
// ---------------------------------------------------------------------------

/// The view of the result of evaluating an expression.
pub open spec fn value_outcome(r: Result<Value, Stop>) -> Result<ValueView, StopView> {
    match r {
        Ok(v) => Ok(v@),
        Err(stop) => Err(stop@),
    }
}

/// The view of the result of executing statements.
pub open spec fn stop_outcome(r: Result<(), Stop>) -> Result<(), StopView> {
    match r {
        Ok(()) => Ok(()),
        Err(stop) => Err(stop@),
    }
}

/// What a run of a program gave: the lines it printed, and whether it
/// reached the end.
#[derive(Debug)]
pub struct Run {
    pub output: Vec<Printed>,
    pub result: Result<(), Stop>,
}

impl View for Run {
    type V = RunView;

    open spec fn view(&self) -> RunView {
        RunView { output: printed_views(self.output@), result: stop_outcome(self.result) }
    }
}

impl Value {
    /// The line that printing the value gives.
    pub fn printed(&self) -> (line: Printed)
        ensures
            line@ == printed(self@),
    {
        match self {
            Value::Number(n) => Printed::Number(*n),
            Value::String(s) => Printed::Text(s.clone()),
            Value::Bool(b) => Printed::Text(
                if *b {
                    String::from_str("true")
                } else {
                    String::from_str("false")
                },
            ),
            Value::Null => Printed::Text(String::from_str("null")),
        }
    }
}

/// One run of a program.
pub struct Interpreter<'a> {
    env: Environment,
    answers: &'a Vec<u64>,
    used: usize,
    output: Vec<Printed>,
}

/// Runs a program from the start with the answers that the host has given
/// so far.
pub fn interpret(stmts: &Vec<Stmt>, answers: &Vec<u64>) -> (run: Run)
    ensures
        run@ == interpret_spec(stmt_views(stmts@), answers@),
{
    let mut i = Interpreter::new(answers);
    let result = i.interpret(stmts);
    Run { output: i.output, result }
}

impl<'a> Interpreter<'a> {
    /// The state of the run.
    pub closed spec fn state(&self) -> State {
        State { env: self.env@, used: self.used as nat, output: printed_views(self.output@) }
    }

    /// The answers that the host has given.
    pub closed spec fn answers(&self) -> Seq<u64> {
        self.answers@
    }

    /// No more answers are used than were given.
    pub closed spec fn well_formed(&self) -> bool {
        self.used <= self.answers@.len()
    }

    /// The interpreter has gone from the state `before` to the state that
    /// `e` tells.
    pub open spec fn follows(&self, before: &Interpreter, state: State) -> bool {
        &&& self.well_formed()
        &&& self.answers() == before.answers()
        &&& self.state() == state
    }

    /// An interpreter at the start of a run.
    pub fn new(answers: &'a Vec<u64>) -> (i: Interpreter<'a>)
        ensures
            i.well_formed(),
            i.answers() == answers@,
            i.state() == start(),
    {
        let i = Interpreter {
            env: Default::default(),
            answers,
            used: 0,
            output: Vec::new(),
        };
        assert(printed_views(i.output@) =~= Seq::empty());
        i
    }

    /// Executes the statements in order, up to the first that stops.
    pub fn interpret(&mut self, stmts: &Vec<Stmt>) -> (r: Result<(), Stop>)
        requires
            old(self).well_formed(),
        ensures
            final(self).follows(
                old(self),
                run_from(stmt_views(stmts@), 0, old(self).state(), old(self).answers()).state,
            ),
            stop_outcome(r) == run_from(
                stmt_views(stmts@),
                0,
                old(self).state(),
                old(self).answers(),
            ).result,
    {
        let ghost views = stmt_views(stmts@);
        let ghost goal = run_from(views, 0, self.state(), self.answers());
        let mut i: usize = 0;
        while i < stmts.len()
            invariant
                i <= stmts.len(),
                views == stmt_views(stmts@),
                self.well_formed(),
                self.answers() == old(self).answers(),
                goal == run_from(views, 0, old(self).state(), old(self).answers()),
                goal == run_from(views, i as int, self.state(), self.answers()),
            decreases stmts.len() - i,
        {
            self.execute(&stmts[i])?;
            i += 1;
        }
        Ok(())
    }

    /// Executes one statement.
    pub fn execute(&mut self, stmt: &Stmt) -> (r: Result<(), Stop>)
        requires
            old(self).well_formed(),
        ensures
            final(self).follows(
                old(self),
                execute_spec(stmt@, old(self).state(), old(self).answers()).state,
            ),
            stop_outcome(r) == execute_spec(stmt@, old(self).state(), old(self).answers()).result,
    {
        match stmt {
            Stmt::Print(e) => match self.interpret_expr(e) {
                Ok(v) => {
                    let ghost before = printed_views(self.output@);
                    let line = v.printed();
                    self.output.push(line);
                    assert(printed_views(self.output@) =~= before.push(printed(v@)));
                    Ok(())
                },
                Err(err) => Err(err),
            },
            Stmt::Expression(e) => match self.interpret_expr(e) {
                Ok(_) => Ok(()),
                Err(err) => Err(err),
            },
            Stmt::VarDeclaration(s, e) => {
                let val = match e {
                    Some(expr) => Some(self.interpret_expr(expr)?),
                    None => None,
                };
                self.env.define(s.clone(), val);
                Ok(())
            },
        }
    }

    /// Evaluates an expression.
    pub fn interpret_expr(&mut self, expr: &Expr) -> (r: Result<Value, Stop>)
        requires
            old(self).well_formed(),
        ensures
            final(self).follows(
                old(self),
                eval(expr@, old(self).state(), old(self).answers()).state,
            ),
            value_outcome(r) == eval(expr@, old(self).state(), old(self).answers()).result,
        decreases size(expr@), 0int,
    {
        match expr {
            Expr::Literal(lit) => self.interpret_literal(lit),
            Expr::Grouping(e) => self.interpret_expr(e),
            Expr::Unary(op, e) => self.interpret_unary(*op, e),
            Expr::Binary(left, op, right) => self.interpret_binary(*op, left, right),
            Expr::Variable(sym) => match self.env.get(&sym.name) {
                Ok(v) => Ok(v),
                Err(e) => Err(Stop::Failed(e)),
            },
            Expr::Assignment(sym, expr) => {
                let val = self.interpret_expr(expr)?;
                match self.env.assign(sym.clone(), &val) {
                    Ok(()) => Ok(val),
                    Err(e) => Err(Stop::Failed(e)),
                }
            },
        }
    }

    /// The value of a literal.
    fn interpret_literal(&mut self, lit: &Literal) -> (r: Result<Value, Stop>)
        requires
            old(self).well_formed(),
        ensures
            final(self).follows(
                old(self),
                literal_value(lit@, old(self).state(), old(self).answers()).state,
            ),
            value_outcome(r) == literal_value(lit@, old(self).state(), old(self).answers()).result,
    {
        match lit {
            Literal::Number(n) => self.ask(Request::Convert(n.clone())),
            Literal::String(s) => Ok(Value::String(s.clone())),
            Literal::True => Ok(Value::Bool(true)),
            Literal::False => Ok(Value::Bool(false)),
            Literal::Null => Ok(Value::Null),
        }
    }

    /// Evaluates the operand and applies the prefix operator.
    fn interpret_unary(&mut self, op: UnaryOp, e: &Expr) -> (r: Result<Value, Stop>)
        requires
            old(self).well_formed(),
        ensures
            final(self).follows(
                old(self),
                eval(
                    ExprView::Unary(op, Box::new(e@)),
                    old(self).state(),
                    old(self).answers(),
                ).state,
            ),
            value_outcome(r) == eval(
                ExprView::Unary(op, Box::new(e@)),
                old(self).state(),
                old(self).answers(),
            ).result,
        decreases size(e@), 1int,
    {
        let val = self.interpret_expr(e)?;

        match (op.u_type, &val) {
            (UniOpType::Minus, Value::Number(n)) => Ok(Value::Number(negate(*n))),
            (UniOpType::Bang, Value::Bool(b)) => Ok(Value::Bool(!*b)),
            (UniOpType::Minus, _) => Err(
                Stop::Failed(RuntimeError::NotANumber { line: op.line, column: op.column }),
            ),
            (UniOpType::Bang, _) => Err(
                Stop::Failed(RuntimeError::NotABoolean { line: op.line, column: op.column }),
            ),
        }
    }

    /// Evaluates both operands, the left one first, and applies the infix
    /// operator.
    fn interpret_binary(&mut self, op: BinaryOp, left: &Expr, right: &Expr) -> (r: Result<
        Value,
        Stop,
    >)
        requires
            old(self).well_formed(),
        ensures
            final(self).follows(
                old(self),
                eval(
                    ExprView::Binary(Box::new(left@), op, Box::new(right@)),
                    old(self).state(),
                    old(self).answers(),
                ).state,
            ),
            value_outcome(r) == eval(
                ExprView::Binary(Box::new(left@), op, Box::new(right@)),
                old(self).state(),
                old(self).answers(),
            ).result,
        decreases size(left@) + size(right@), 1int,
    {
        let l = self.interpret_expr(left)?;
        let r = self.interpret_expr(right)?;

        match (&l, op.b_type, &r) {
            (Value::Number(l), BinOpType::Less, Value::Number(r)) => Ok(
                Value::Bool(less_than(*l, *r)),
            ),
            (Value::Number(l), BinOpType::LessEqual, Value::Number(r)) => Ok(
                Value::Bool(at_most(*l, *r)),
            ),
            (Value::Number(l), BinOpType::Greater, Value::Number(r)) => Ok(
                Value::Bool(less_than(*r, *l)),
            ),
            (Value::Number(l), BinOpType::GreaterEqual, Value::Number(r)) => Ok(
                Value::Bool(at_most(*r, *l)),
            ),
            (Value::Number(l), BinOpType::Sub, Value::Number(r)) => self.ask(
                Request::Compute(BinOpType::Sub, *l, *r),
            ),
            (Value::Number(l), BinOpType::Add, Value::Number(r)) => self.ask(
                Request::Compute(BinOpType::Add, *l, *r),
            ),
            (Value::Number(l), BinOpType::Mult, Value::Number(r)) => self.ask(
                Request::Compute(BinOpType::Mult, *l, *r),
            ),
            (Value::Number(l), BinOpType::Div, Value::Number(r)) => {
                if zero(*r) {
                    Err(
                        Stop::Failed(
                            RuntimeError::DivisionByZero { line: op.line, column: op.column },
                        ),
                    )
                } else {
                    self.ask(Request::Compute(BinOpType::Div, *l, *r))
                }
            },
            (Value::String(l), BinOpType::Add, Value::String(r)) => {
                let mut joined = l.clone();
                joined.append(r.as_str());
                Ok(Value::String(joined))
            },
            (_, BinOpType::EqualEqual, _) => self.compare(&l, &r),
            (_, BinOpType::NotEqual, _) => self.compare(&l, &r),
            _ => Err(
                Stop::Failed(
                    RuntimeError::UnsupportedOperands {
                        op: op.b_type,
                        line: op.line,
                        column: op.column,
                    },
                ),
            ),
        }
    }

    /// Compares two values for equality. For two numbers the host gives the
    /// difference first.
    fn compare(&mut self, left: &Value, right: &Value) -> (r: Result<Value, Stop>)
        requires
            old(self).well_formed(),
        ensures
            final(self).follows(
                old(self),
                compared(left@, right@, old(self).state(), old(self).answers()).state,
            ),
            value_outcome(r) == compared(
                left@,
                right@,
                old(self).state(),
                old(self).answers(),
            ).result,
    {
        match (left, right) {
            (Value::Number(a), Value::Number(b)) => {
                match self.ask(Request::Compute(BinOpType::Sub, *a, *b)) {
                    Ok(Value::Number(gap)) => Ok(
                        Value::Bool(Interpreter::equals(left, right, gap)),
                    ),
                    other => other,
                }
            },
            _ => Ok(Value::Bool(Interpreter::equals(left, right, 0))),
        }
    }

    /// Structural equality of two values, given the difference of the two
    /// if they are numbers.
    pub fn equals(left: &Value, right: &Value, gap: u64) -> (r: bool)
        ensures
            r == equal_values(left@, right@, gap),
    {
        match (left, right) {
            (Value::Number(_), Value::Number(_)) => is_negligible(gap),
            (Value::String(s1), Value::String(s2)) => *s1 == *s2,
            (Value::Bool(b1), Value::Bool(b2)) => b1 == b2,
            (Value::Null, Value::Null) => true,
            (_, _) => false,
        }
    }

    /// Takes the host's next answer, or stops to wait for it.
    fn ask(&mut self, request: Request) -> (r: Result<Value, Stop>)
        requires
            old(self).well_formed(),
        ensures
            final(self).follows(
                old(self),
                asked(request@, old(self).state(), old(self).answers()).state,
            ),
            value_outcome(r) == asked(request@, old(self).state(), old(self).answers()).result,
    {
        if self.used < self.answers.len() {
            let answer = self.answers[self.used];
            self.used += 1;
            Ok(Value::Number(answer))
        } else {
            Err(Stop::Waiting(request))
        }
    }
}

} // verus!
