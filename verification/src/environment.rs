//! Runtime values, runtime errors and the variable environment.

use vstd::prelude::*;
use vstd::hash_map::StringHashMap;
use vstd::string::StringExecFns;
use crate::expr::{binop_symbol, BinOpType, Symbol, SymbolView};
use crate::text::{decimal, push_decimal, push_signed_decimal, signed_decimal};

verus! {

/// A runtime value. A number is the 64-bit pattern of a double.
#[derive(Debug)]
pub enum Value {
    Number(u64),
    String(String),
    Bool(bool),
    Null,
}

/// The mathematical content of a [`Value`].
pub enum ValueView {
    Number(u64),
    String(Seq<char>),
    Bool(bool),
    Null,
}

impl View for Value {
    type V = ValueView;

    open spec fn view(&self) -> ValueView {
        match self {
            Value::Number(n) => ValueView::Number(*n),
            Value::String(s) => ValueView::String(s@),
            Value::Bool(b) => ValueView::Bool(*b),
            Value::Null => ValueView::Null,
        }
    }
}

impl Clone for Value {
    fn clone(&self) -> (r: Self)
        ensures
            r@ == self@,
    {
        match self {
            Value::Number(n) => Value::Number(*n),
            Value::String(s) => Value::String(s.clone()),
            Value::Bool(b) => Value::Bool(*b),
            Value::Null => Value::Null,
        }
    }
}

/// The view of what a variable holds: nothing yet, or a value.
pub open spec fn slot_view(slot: Option<Value>) -> Option<ValueView> {
    match slot {
        Some(v) => Some(v@),
        None => None,
    }
}

/// An error of evaluation.
#[derive(Debug)]
pub enum RuntimeError {
    /// A variable was read that was never declared, or that holds no value
    /// yet.
    UndefinedVariable { name: String },
    /// A variable was assigned to that was never declared.
    UndefinedTarget { name: String, line: usize, column: i64 },
    /// The operand of `-` is not a number.
    NotANumber { line: usize, column: i64 },
    /// The operand of `!` is not a boolean.
    NotABoolean { line: usize, column: i64 },
    /// The operator is not defined on operands of these types.
    UnsupportedOperands { op: BinOpType, line: usize, column: i64 },
    /// The right operand of `/` is zero.
    DivisionByZero { line: usize, column: i64 },
}

/// The mathematical content of a [`RuntimeError`].
pub enum RuntimeErrorView {
    UndefinedVariable { name: Seq<char> },
    UndefinedTarget { name: Seq<char>, line: int, column: int },
    NotANumber { line: int, column: int },
    NotABoolean { line: int, column: int },
    UnsupportedOperands { op: BinOpType, line: int, column: int },
    DivisionByZero { line: int, column: int },
}

impl View for RuntimeError {
    type V = RuntimeErrorView;

    open spec fn view(&self) -> RuntimeErrorView {
        match self {
            RuntimeError::UndefinedVariable { name } => RuntimeErrorView::UndefinedVariable {
                name: name@,
            },
            RuntimeError::UndefinedTarget { name, line, column } => {
                RuntimeErrorView::UndefinedTarget {
                    name: name@,
                    line: *line as int,
                    column: *column as int,
                }
            },
            RuntimeError::NotANumber { line, column } => RuntimeErrorView::NotANumber {
                line: *line as int,
                column: *column as int,
            },
            RuntimeError::NotABoolean { line, column } => RuntimeErrorView::NotABoolean {
                line: *line as int,
                column: *column as int,
            },
            RuntimeError::UnsupportedOperands { op, line, column } => {
                RuntimeErrorView::UnsupportedOperands {
                    op: *op,
                    line: *line as int,
                    column: *column as int,
                }
            },
            RuntimeError::DivisionByZero { line, column } => RuntimeErrorView::DivisionByZero {
                line: *line as int,
                column: *column as int,
            },
        }
    }
}

/// The variables of one run: each declared name with the value it holds, if
/// it holds one. There is a single flat scope.
pub struct Environment {
    pub values: StringHashMap<Option<Value>>,
}

impl View for Environment {
    type V = Map<Seq<char>, Option<ValueView>>;

    open spec fn view(&self) -> Map<Seq<char>, Option<ValueView>> {
        self.values@.map_values(|slot: Option<Value>| slot_view(slot))
    }
}

impl Default for Environment {
    /// The environment in which nothing is declared.
    fn default() -> (env: Environment)
        ensures
            env@ == Map::<Seq<char>, Option<ValueView>>::empty(),
    {
        let env = Environment { values: StringHashMap::new() };
        assert(env@ =~= Map::<Seq<char>, Option<ValueView>>::empty());
        env
    }
}

/// What reading the variable `name` gives: its value, or the error when it
/// is not declared or holds no value.
pub open spec fn read(env: Map<Seq<char>, Option<ValueView>>, name: Seq<char>) -> Result<
    ValueView,
    RuntimeErrorView,
> {
    if env.contains_key(name) && env[name] is Some {
        Ok(env[name]->0)
    } else {
        Err(RuntimeErrorView::UndefinedVariable { name })
    }
}

/// What assigning `value` to the variable `sym` gives: the environment
/// with the variable bound anew, or, when it is not declared, the
/// environment as it was and the error.
pub open spec fn written(
    env: Map<Seq<char>, Option<ValueView>>,
    sym: SymbolView,
    value: ValueView,
) -> (Map<Seq<char>, Option<ValueView>>, Result<(), RuntimeErrorView>) {
    if env.contains_key(sym.name) {
        (env.insert(sym.name, Some(value)), Ok(()))
    } else {
        (
            env,
            Err(
                RuntimeErrorView::UndefinedTarget {
                    name: sym.name,
                    line: sym.line,
                    column: sym.column,
                },
            ),
        )
    }
}

/// The view of a result without a value.
pub open spec fn unit_outcome(r: Result<(), RuntimeError>) -> Result<(), RuntimeErrorView> {
    match r {
        Ok(()) => Ok(()),
        Err(e) => Err(e@),
    }
}

impl Environment {
    /// Declares a variable, with or without a value. A name that is already
    /// declared is bound anew.
    pub fn define(&mut self, sym: Symbol, value: Option<Value>)
        ensures
            final(self)@ == old(self)@.insert(sym@.name, slot_view(value)),
    {
        self.values.insert(sym.name, value);
        assert(self@ =~= old(self)@.insert(sym@.name, slot_view(value)));
    }

    /// Gives a declared variable a new value. Assigning never declares.
    pub fn assign(&mut self, sym: Symbol, val: &Value) -> (r: Result<(), RuntimeError>)
        ensures
            final(self)@ == written(old(self)@, sym@, val@).0,
            unit_outcome(r) == written(old(self)@, sym@, val@).1,
    {
        if self.values.contains_key(sym.name.as_str()) {
            self.define(sym, Some(val.clone()));
            return Ok(());
        }
        Err(RuntimeError::UndefinedTarget { name: sym.name, line: sym.line, column: sym.column })
    }

    /// Reads a variable: a copy of its value, or the error when it is not
    /// declared or holds no value yet.
    pub fn get(&self, name: &String) -> (r: Result<Value, RuntimeError>)
        ensures
            match r {
                Ok(v) => read(self@, name@) == Ok::<ValueView, RuntimeErrorView>(v@),
                Err(e) => read(self@, name@) == Err::<ValueView, RuntimeErrorView>(e@),
            },
    {
        match self.values.get(name.as_str()) {
            Some(Some(v)) => Ok(v.clone()),
            _ => Err(RuntimeError::UndefinedVariable { name: name.clone() }),
        }
    }
}


/// How a runtime message names a place in the source.
pub open spec fn place_text(line: int, column: int) -> Seq<char> {
    "[line: "@ + decimal(line as nat) + " Column: "@ + signed_decimal(column) + "] "@
}

/// The message of a runtime error.
pub open spec fn runtime_error_text(e: RuntimeErrorView) -> Seq<char> {
    match e {
        RuntimeErrorView::UndefinedVariable { name } => "Undefined variable "@ + name,
        RuntimeErrorView::UndefinedTarget { name, line, column } => {
            "attempted to assign to an undefined variable"@
        },
        RuntimeErrorView::NotANumber { line, column } => "NaN"@,
        RuntimeErrorView::NotABoolean { line, column } => "Not a boolean"@,
        RuntimeErrorView::UnsupportedOperands { op, line, column } => place_text(line, column)
            + "Unsupported operands for "@ + binop_symbol(op),
        RuntimeErrorView::DivisionByZero { line, column } => place_text(line, column)
            + "Can't divide by zero"@,
    }
}

/// Starts a message with the place it speaks of.
fn place(line: usize, column: i64) -> (text: String)
    ensures
        text@ == place_text(line as int, column as int),
{
    let mut text = String::from_str("[line: ");
    push_decimal(&mut text, line as u64);
    text.append(" Column: ");
    push_signed_decimal(&mut text, column);
    text.append("] ");
    text
}

impl RuntimeError {
    /// The message of the error.
    pub fn message(&self) -> (text: String)
        ensures
            text@ == runtime_error_text(self@),
    {
        match self {
            RuntimeError::UndefinedVariable { name } => {
                let mut text = String::from_str("Undefined variable ");
                text.append(name.as_str());
                text
            },
            RuntimeError::UndefinedTarget { name, line, column } => String::from_str(
                "attempted to assign to an undefined variable",
            ),
            RuntimeError::NotANumber { line, column } => String::from_str("NaN"),
            RuntimeError::NotABoolean { line, column } => String::from_str("Not a boolean"),
            RuntimeError::UnsupportedOperands { op, line, column } => {
                let mut text = place(*line, *column);
                text.append("Unsupported operands for ");
                text.append(op.symbol());
                text
            },
            RuntimeError::DivisionByZero { line, column } => {
                let mut text = place(*line, *column);
                text.append("Can't divide by zero");
                text
            },
        }
    }
}

} // verus!
