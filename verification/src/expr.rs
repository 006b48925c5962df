//! The abstract syntax tree: expressions and statements.

use vstd::prelude::*;
use vstd::std_specs::cmp::PartialEqSpecImpl;
use crate::token::{Decimal, DecimalView};

verus! {

/// A place in the source text.
#[derive(Debug, Copy, Clone, PartialEq, Eq, Structural)]
pub struct SourceLocation {
    pub line: usize,
    pub col: i64,
}

/// One occurrence of a variable: its name and where it stands. Two symbols
/// are equal when they name the same variable.
#[derive(Debug)]
pub struct Symbol {
    pub name: String,
    pub line: usize,
    pub column: i64,
}

/// The mathematical content of a [`Symbol`].
pub struct SymbolView {
    pub name: Seq<char>,
    pub line: int,
    pub column: int,
}

impl View for Symbol {
    type V = SymbolView;

    open spec fn view(&self) -> SymbolView {
        SymbolView { name: self.name@, line: self.line as int, column: self.column as int }
    }
}

impl Clone for Symbol {
    fn clone(&self) -> (r: Self)
        ensures
            r@ == self@,
    {
        Symbol { name: self.name.clone(), line: self.line, column: self.column }
    }
}

impl PartialEq for Symbol {
    fn eq(&self, other: &Self) -> (r: bool) {
        self.name == other.name
    }
}

impl Eq for Symbol {

}

impl PartialEqSpecImpl for Symbol {
    open spec fn obeys_eq_spec() -> bool {
        true
    }

    open spec fn eq_spec(&self, other: &Self) -> bool {
        self.name@ == other.name@
    }
}

impl Symbol {
    /// Where the symbol stands.
    pub fn location(&self) -> (at: SourceLocation)
        ensures
            at == (SourceLocation { line: self.line, col: self.column }),
    {
        SourceLocation { line: self.line, col: self.column }
    }
}

/// A prefix operator and where it stands.
#[derive(Debug, Copy, Clone, PartialEq, Eq, Structural)]
pub struct UnaryOp {
    pub u_type: UniOpType,
    pub line: usize,
    pub column: i64,
}

/// The prefix operators.
#[derive(Debug, Copy, Clone, PartialEq, Eq, Structural)]
pub enum UniOpType {
    Minus,
    Bang,
}

impl UnaryOp {
    /// Where the operator stands.
    pub fn location(&self) -> (at: SourceLocation)
        ensures
            at == (SourceLocation { line: self.line, col: self.column }),
    {
        SourceLocation { line: self.line, col: self.column }
    }
}

/// An infix operator and where it stands.
#[derive(Debug, Copy, Clone, PartialEq, Eq, Structural)]
pub struct BinaryOp {
    pub b_type: BinOpType,
    pub line: usize,
    pub column: i64,
}

/// The infix operators.
#[derive(Debug, Copy, Clone, PartialEq, Eq, Structural)]
pub enum BinOpType {
    EqualEqual,
    NotEqual,
    Less,
    LessEqual,
    Greater,
    GreaterEqual,
    Add,
    Sub,
    Mult,
    Div,
}

impl BinaryOp {
    /// Where the operator stands.
    pub fn location(&self) -> (at: SourceLocation)
        ensures
            at == (SourceLocation { line: self.line, col: self.column }),
    {
        SourceLocation { line: self.line, col: self.column }
    }
}

/// A numeric literal as written: an integer, or a decimal numeral with a
/// fraction. The interpreter's host turns it into a double on demand.
#[derive(Debug, PartialEq)]
pub enum Numeral {
    Integer(u64),
    Decimal(Decimal),
}

/// The mathematical content of a [`Numeral`].
pub enum NumeralView {
    Integer(u64),
    Decimal(DecimalView),
}

impl View for Numeral {
    type V = NumeralView;

    open spec fn view(&self) -> NumeralView {
        match self {
            Numeral::Integer(n) => NumeralView::Integer(*n),
            Numeral::Decimal(d) => NumeralView::Decimal(d@),
        }
    }
}

impl Clone for Numeral {
    fn clone(&self) -> (r: Self)
        ensures
            r@ == self@,
    {
        match self {
            Numeral::Integer(n) => Numeral::Integer(*n),
            Numeral::Decimal(d) => Numeral::Decimal(d.clone()),
        }
    }
}

/// A literal expression.
#[derive(Debug, PartialEq)]
pub enum Literal {
    Number(Numeral),
    String(String),
    True,
    False,
    Null,
}

/// The mathematical content of a [`Literal`].
pub enum LiteralView {
    Number(NumeralView),
    String(Seq<char>),
    True,
    False,
    Null,
}

impl View for Literal {
    type V = LiteralView;

    open spec fn view(&self) -> LiteralView {
        match self {
            Literal::Number(n) => LiteralView::Number(n@),
            Literal::String(s) => LiteralView::String(s@),
            Literal::True => LiteralView::True,
            Literal::False => LiteralView::False,
            Literal::Null => LiteralView::Null,
        }
    }
}

impl Clone for Literal {
    fn clone(&self) -> (r: Self)
        ensures
            r@ == self@,
    {
        match self {
            Literal::Number(n) => Literal::Number(n.clone()),
            Literal::String(s) => Literal::String(s.clone()),
            Literal::True => Literal::True,
            Literal::False => Literal::False,
            Literal::Null => Literal::Null,
        }
    }
}

/// An expression: a finite tree in which each node owns its children.
#[derive(Debug, PartialEq)]
pub enum Expr {
    Literal(Literal),
    Unary(UnaryOp, Box<Expr>),
    Binary(Box<Expr>, BinaryOp, Box<Expr>),
    Assignment(Symbol, Box<Expr>),
    Grouping(Box<Expr>),
    Variable(Symbol),
}

/// The mathematical content of an [`Expr`].
pub enum ExprView {
    Literal(LiteralView),
    Unary(UnaryOp, Box<ExprView>),
    Binary(Box<ExprView>, BinaryOp, Box<ExprView>),
    Assignment(SymbolView, Box<ExprView>),
    Grouping(Box<ExprView>),
    Variable(SymbolView),
}

/// The view of an expression, node by node.
pub open spec fn expr_view(e: Expr) -> ExprView
    decreases e,
{
    match e {
        Expr::Literal(l) => ExprView::Literal(l@),
        Expr::Unary(op, operand) => ExprView::Unary(op, Box::new(expr_view(*operand))),
        Expr::Binary(left, op, right) => ExprView::Binary(
            Box::new(expr_view(*left)),
            op,
            Box::new(expr_view(*right)),
        ),
        Expr::Assignment(target, value) => ExprView::Assignment(
            target@,
            Box::new(expr_view(*value)),
        ),
        Expr::Grouping(inner) => ExprView::Grouping(Box::new(expr_view(*inner))),
        Expr::Variable(name) => ExprView::Variable(name@),
    }
}

/// The number of nodes of an expression.
pub open spec fn size(e: ExprView) -> nat
    decreases e,
{
    match e {
        ExprView::Literal(_) => 1,
        ExprView::Grouping(inner) => 1 + size(*inner),
        ExprView::Unary(_, operand) => 1 + size(*operand),
        ExprView::Binary(left, _, right) => 1 + size(*left) + size(*right),
        ExprView::Variable(_) => 1,
        ExprView::Assignment(_, expr) => 1 + size(*expr),
    }
}

impl View for Expr {
    type V = ExprView;

    open spec fn view(&self) -> ExprView {
        expr_view(*self)
    }
}

impl Clone for Expr {
    fn clone(&self) -> (r: Self)
        ensures
            r@ == self@,
        decreases self,
    {
        match self {
            Expr::Literal(l) => Expr::Literal(l.clone()),
            Expr::Unary(op, operand) => Expr::Unary(*op, Box::new((**operand).clone())),
            Expr::Binary(left, op, right) => Expr::Binary(
                Box::new((**left).clone()),
                *op,
                Box::new((**right).clone()),
            ),
            Expr::Assignment(target, value) => Expr::Assignment(
                target.clone(),
                Box::new((**value).clone()),
            ),
            Expr::Grouping(inner) => Expr::Grouping(Box::new((**inner).clone())),
            Expr::Variable(name) => Expr::Variable(name.clone()),
        }
    }
}

/// A statement.
#[derive(Debug, PartialEq)]
pub enum Stmt {
    Expression(Expr),
    Print(Expr),
    VarDeclaration(Symbol, Option<Expr>),
}

/// The mathematical content of a [`Stmt`].
pub enum StmtView {
    Expression(ExprView),
    Print(ExprView),
    VarDeclaration(SymbolView, Option<ExprView>),
}

impl View for Stmt {
    type V = StmtView;

    open spec fn view(&self) -> StmtView {
        match self {
            Stmt::Expression(e) => StmtView::Expression(e@),
            Stmt::Print(e) => StmtView::Print(e@),
            Stmt::VarDeclaration(name, initializer) => StmtView::VarDeclaration(
                name@,
                match initializer {
                    Some(e) => Some(e@),
                    None => None,
                },
            ),
        }
    }
}

impl Clone for Stmt {
    fn clone(&self) -> (r: Self)
        ensures
            r@ == self@,
    {
        match self {
            Stmt::Expression(e) => Stmt::Expression(e.clone()),
            Stmt::Print(e) => Stmt::Print(e.clone()),
            Stmt::VarDeclaration(name, initializer) => Stmt::VarDeclaration(
                name.clone(),
                match initializer {
                    Some(e) => Some(e.clone()),
                    None => None,
                },
            ),
        }
    }
}

/// The views of a run of statements, in order.
pub open spec fn stmt_views(stmts: Seq<Stmt>) -> Seq<StmtView> {
    stmts.map_values(|s: Stmt| s@)
}


/// The sign of a prefix operator.
pub open spec fn uniop_symbol(op: UniOpType) -> Seq<char> {
    match op {
        UniOpType::Minus => "-"@,
        UniOpType::Bang => "!"@,
    }
}

impl UniOpType {
    /// The operator as it is written.
    pub fn symbol(&self) -> (text: &'static str)
        ensures
            text@ == uniop_symbol(*self),
    {
        match self {
            UniOpType::Minus => "-",
            UniOpType::Bang => "!",
        }
    }
}

/// The sign of an infix operator.
pub open spec fn binop_symbol(op: BinOpType) -> Seq<char> {
    match op {
        BinOpType::EqualEqual => "=="@,
        BinOpType::NotEqual => "!="@,
        BinOpType::Less => "<"@,
        BinOpType::LessEqual => "<="@,
        BinOpType::Greater => ">"@,
        BinOpType::GreaterEqual => ">="@,
        BinOpType::Add => "+"@,
        BinOpType::Sub => "-"@,
        BinOpType::Mult => "*"@,
        BinOpType::Div => "/"@,
    }
}

impl BinOpType {
    /// The operator as it is written.
    pub fn symbol(&self) -> (text: &'static str)
        ensures
            text@ == binop_symbol(*self),
    {
        match self {
            BinOpType::EqualEqual => "==",
            BinOpType::NotEqual => "!=",
            BinOpType::Less => "<",
            BinOpType::LessEqual => "<=",
            BinOpType::Greater => ">",
            BinOpType::GreaterEqual => ">=",
            BinOpType::Add => "+",
            BinOpType::Sub => "-",
            BinOpType::Mult => "*",
            BinOpType::Div => "/",
        }
    }
}

} // verus!
