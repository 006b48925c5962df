//! The parser: recursive descent with one token of lookahead over the
//! precedence ladder assignment, equality, comparison, term, factor, unary,
//! primary.
//!
//! ```text
//! program      = declaration* EOF
//! declaration  = "var" IDENTIFIER ("=" expression)? ";"   | statement
//! statement    = "print" expression ";"  | expression ";"
//! expression   = assignment
//! assignment   = equality ("=" assignment)?
//! equality     = comparison (("!="|"==") comparison)*
//! comparison   = term ((">"|">="|"<"|"<=") term)*
//! term         = factor (("-"|"+") factor)*
//! factor       = unary (("/"|"*") unary)*
//! unary        = ("!"|"-") unary | primary
//! primary      = "true"|"false"|"null"|NUMBER|STRING|IDENTIFIER|"(" expression ")"
//! ```

use vstd::prelude::*;
use vstd::string::StringExecFns;
use crate::expr::{
    BinOpType, BinaryOp, Expr, ExprView, Literal, LiteralView, Numeral, NumeralView, Stmt,
    StmtView, Symbol, SymbolView, UnaryOp, UniOpType, stmt_views,
};
use crate::text::{decimal, push_decimal, push_signed_decimal, signed_decimal};
use crate::token::{self, closed_stream, kind_name, token_text, Token, TokenType, TokenView};

verus! {

/// A syntax error. Each kind says where it arose.
#[derive(Debug)]
pub enum SyntaxError {
    /// A token that cannot stand where it was found.
    UnexpectedToken(Token),
    /// A token of one kind was required and another was found.
    TokenMismatch { expected: TokenType, found: Token, maybe_err: Option<String> },
    /// A token that is no infix operator was used as one.
    InvalidTokenInBinaryOp { token_type: TokenType, line: usize, column: i64 },
    /// A token that is no prefix operator was used as one.
    InvalidTokenInUnaryOp { token_type: TokenType, line: usize, column: i64 },
    /// No expression can start with the token found.
    ExpectedExpression { token_type: TokenType, line: usize, column: i64 },
    /// The left side of an assignment is not a variable.
    InvalidAssignment { line: usize, column: i64 },
}

/// The mathematical content of a [`SyntaxError`].
pub enum SyntaxErrorView {
    UnexpectedToken(TokenView),
    TokenMismatch { expected: TokenType, found: TokenView, maybe_err: Option<Seq<char>> },
    InvalidTokenInBinaryOp { token_type: TokenType, line: int, column: int },
    InvalidTokenInUnaryOp { token_type: TokenType, line: int, column: int },
    ExpectedExpression { token_type: TokenType, line: int, column: int },
    InvalidAssignment { line: int, column: int },
}

impl View for SyntaxError {
    type V = SyntaxErrorView;

    open spec fn view(&self) -> SyntaxErrorView {
        match self {
            SyntaxError::UnexpectedToken(t) => SyntaxErrorView::UnexpectedToken(t@),
            SyntaxError::TokenMismatch { expected, found, maybe_err } => {
                SyntaxErrorView::TokenMismatch {
                    expected: *expected,
                    found: found@,
                    maybe_err: match maybe_err {
                        Some(s) => Some(s@),
                        None => None,
                    },
                }
            },
            SyntaxError::InvalidTokenInBinaryOp { token_type, line, column } => {
                SyntaxErrorView::InvalidTokenInBinaryOp {
                    token_type: *token_type,
                    line: *line as int,
                    column: *column as int,
                }
            },
            SyntaxError::InvalidTokenInUnaryOp { token_type, line, column } => {
                SyntaxErrorView::InvalidTokenInUnaryOp {
                    token_type: *token_type,
                    line: *line as int,
                    column: *column as int,
                }
            },
            SyntaxError::ExpectedExpression { token_type, line, column } => {
                SyntaxErrorView::ExpectedExpression {
                    token_type: *token_type,
                    line: *line as int,
                    column: *column as int,
                }
            },
            SyntaxError::InvalidAssignment { line, column } => SyntaxErrorView::InvalidAssignment {
                line: *line as int,
                column: *column as int,
            },
        }
    }
}

// ---------------------------------------------------------------------------
// What parsing means
// ---------------------------------------------------------------------------

/// The outcome of parsing one construct: the tree or the error, and the
/// index of the token at which the parser then stands.
pub struct Parsed<T> {
    pub outcome: Result<T, SyntaxErrorView>,
    pub next: int,
}

/// A construct was parsed.
pub open spec fn done<T>(value: T, next: int) -> Parsed<T> {
    Parsed { outcome: Ok(value), next }
}

/// Parsing stopped on an error.
pub open spec fn fail<T>(error: SyntaxErrorView, next: int) -> Parsed<T> {
    Parsed { outcome: Err(error), next }
}

/// The token at `pos` is of the given kind. The end-of-file marker is never
/// matched.
pub open spec fn check_spec(ts: Seq<Token>, pos: int, kind: TokenType) -> bool {
    ts[pos].token_type != TokenType::Eof && ts[pos].token_type == kind
}

/// Nothing, if the token at `pos` is of the required kind; else the mismatch.
pub open spec fn expect(ts: Seq<Token>, pos: int, kind: TokenType, message: Seq<char>) -> Option<
    SyntaxErrorView,
> {
    if check_spec(ts, pos, kind) {
        None
    } else {
        Some(
            SyntaxErrorView::TokenMismatch {
                expected: kind,
                found: ts[pos]@,
                maybe_err: Some(message),
            },
        )
    }
}

/// The infix operator that a token kind stands for.
pub open spec fn binop_of(kind: TokenType) -> Option<BinOpType> {
    match kind {
        TokenType::EqualEqual => Some(BinOpType::EqualEqual),
        TokenType::BangEqual => Some(BinOpType::NotEqual),
        TokenType::Less => Some(BinOpType::Less),
        TokenType::LessEqual => Some(BinOpType::LessEqual),
        TokenType::Greater => Some(BinOpType::Greater),
        TokenType::GreaterEqual => Some(BinOpType::GreaterEqual),
        TokenType::Plus => Some(BinOpType::Add),
        TokenType::Minus => Some(BinOpType::Sub),
        TokenType::Star => Some(BinOpType::Mult),
        TokenType::Slash => Some(BinOpType::Div),
        _ => None,
    }
}

/// The prefix operator that a token kind stands for.
pub open spec fn uniop_of(kind: TokenType) -> Option<UniOpType> {
    match kind {
        TokenType::Bang => Some(UniOpType::Bang),
        TokenType::Minus => Some(UniOpType::Minus),
        _ => None,
    }
}

/// The four left-associative levels of infix operators, from the loosest
/// binding to the tightest.
pub enum Level {
    Equality,
    Comparison,
    Term,
    Factor,
}

/// The operators of a level.
pub open spec fn in_level(level: Level, kind: TokenType) -> bool {
    match level {
        Level::Equality => kind == TokenType::EqualEqual || kind == TokenType::BangEqual,
        Level::Comparison => kind == TokenType::Less || kind == TokenType::LessEqual || kind
            == TokenType::Greater || kind == TokenType::GreaterEqual,
        Level::Term => kind == TokenType::Plus || kind == TokenType::Minus,
        Level::Factor => kind == TokenType::Star || kind == TokenType::Slash,
    }
}

/// How tightly a level binds.
pub open spec fn tightness(level: Level) -> int {
    match level {
        Level::Equality => 1,
        Level::Comparison => 2,
        Level::Term => 3,
        Level::Factor => 4,
    }
}

/// The infix operator that the token `t` is, with its place.
pub open spec fn binary_op(t: Token) -> BinaryOp {
    BinaryOp { b_type: binop_of(t.token_type)->0, line: t.line, column: t.column }
}

/// The variable that an identifier token names.
pub open spec fn symbol_of(name: String, t: Token) -> SymbolView {
    SymbolView { name: name@, line: t.line as int, column: t.column as int }
}

/// primary = "true" | "false" | "null" | NUMBER | STRING | IDENTIFIER
///         | "(" expression ")"
///
/// A literal token that lacks the literal of its kind is unexpected.
pub open spec fn primary_spec(ts: Seq<Token>, pos: int) -> Parsed<ExprView>
    decreases ts.len() - pos, 0int,
    when 0 <= pos < ts.len()
{
    let t = ts[pos];
    match t.token_type {
        TokenType::False => done(ExprView::Literal(LiteralView::False), pos + 1),
        TokenType::True => done(ExprView::Literal(LiteralView::True), pos + 1),
        TokenType::Null => done(ExprView::Literal(LiteralView::Null), pos + 1),
        TokenType::Int => match t.literal {
            Some(token::Literal::Int(n)) => done(
                ExprView::Literal(LiteralView::Number(NumeralView::Integer(n))),
                pos + 1,
            ),
            _ => fail(SyntaxErrorView::UnexpectedToken(t@), pos + 1),
        },
        TokenType::Float => match t.literal {
            Some(token::Literal::Float(d)) => done(
                ExprView::Literal(LiteralView::Number(NumeralView::Decimal(d@))),
                pos + 1,
            ),
            _ => fail(SyntaxErrorView::UnexpectedToken(t@), pos + 1),
        },
        TokenType::String => match t.literal {
            Some(token::Literal::Str(s)) => done(
                ExprView::Literal(LiteralView::String(s@)),
                pos + 1,
            ),
            _ => fail(SyntaxErrorView::UnexpectedToken(t@), pos + 1),
        },
        TokenType::Identifier => match t.literal {
            Some(token::Literal::Identifier(s)) => done(
                ExprView::Variable(symbol_of(s, t)),
                pos + 1,
            ),
            _ => fail(SyntaxErrorView::UnexpectedToken(t@), pos + 1),
        },
        TokenType::LeftParen => {
            let inner = expression_spec(ts, pos + 1);
            match inner.outcome {
                Err(e) => fail(e, inner.next),
                Ok(e) => match expect(
                    ts,
                    inner.next,
                    TokenType::RightParen,
                    "Expected ')' after expression"@,
                ) {
                    Some(mismatch) => fail(mismatch, inner.next),
                    None => done(ExprView::Grouping(Box::new(e)), inner.next + 1),
                },
            }
        },
        _ => fail(
            SyntaxErrorView::ExpectedExpression {
                token_type: t.token_type,
                line: t.line as int,
                column: t.column as int,
            },
            pos,
        ),
    }
}

/// unary = ("!" | "-") unary | primary
pub open spec fn unary_spec(ts: Seq<Token>, pos: int) -> Parsed<ExprView>
    decreases ts.len() - pos, 1int,
    when 0 <= pos < ts.len()
{
    let t = ts[pos];
    if t.token_type == TokenType::Minus || t.token_type == TokenType::Bang {
        let operand = unary_spec(ts, pos + 1);
        match operand.outcome {
            Err(e) => fail(e, operand.next),
            Ok(e) => done(
                ExprView::Unary(
                    UnaryOp { u_type: uniop_of(t.token_type)->0, line: t.line, column: t.column },
                    Box::new(e),
                ),
                operand.next,
            ),
        }
    } else {
        primary_spec(ts, pos)
    }
}

/// An operand of a level: an expression of the next tighter level.
pub open spec fn operand_spec(level: Level, ts: Seq<Token>, pos: int) -> Parsed<ExprView>
    decreases ts.len() - pos, 2 * (5 - tightness(level)),
    when 0 <= pos < ts.len()
{
    match level {
        Level::Equality => binary_spec(Level::Comparison, ts, pos),
        Level::Comparison => binary_spec(Level::Term, ts, pos),
        Level::Term => binary_spec(Level::Factor, ts, pos),
        Level::Factor => unary_spec(ts, pos),
    }
}

/// What follows the first operand of a level: as long as an operator of the
/// level comes next, the expression so far becomes the left operand of a new
/// node. This is what makes the level left-associative.
///
/// The test on the position of the right operand's end always holds; it is
/// there to show that the definition is well-founded.
pub open spec fn binary_rest(level: Level, ts: Seq<Token>, pos: int, left: ExprView) -> Parsed<
    ExprView,
>
    decreases ts.len() - pos, 2 * (5 - tightness(level)),
    when 0 <= pos < ts.len()
{
    let t = ts[pos];
    if in_level(level, t.token_type) {
        let right = operand_spec(level, ts, pos + 1);
        match right.outcome {
            Err(e) => fail(e, right.next),
            Ok(r) => {
                let folded = ExprView::Binary(Box::new(left), binary_op(t), Box::new(r));
                if pos < right.next < ts.len() {
                    binary_rest(level, ts, right.next, folded)
                } else {
                    done(folded, right.next)
                }
            },
        }
    } else {
        done(left, pos)
    }
}

/// level = operand (operator operand)*
///
/// The test on the position of the first operand's end always holds; it is
/// there to show that the definition is well-founded.
pub open spec fn binary_spec(level: Level, ts: Seq<Token>, pos: int) -> Parsed<ExprView>
    decreases ts.len() - pos, 2 * (5 - tightness(level)) + 1,
    when 0 <= pos < ts.len()
{
    let first = operand_spec(level, ts, pos);
    match first.outcome {
        Err(e) => fail(e, first.next),
        Ok(left) => if pos <= first.next < ts.len() {
            binary_rest(level, ts, first.next, left)
        } else {
            first
        },
    }
}

/// assignment = equality ("=" assignment)?
///
/// The value is parsed before the target is judged: a target that is not a
/// variable is an error at the place of the `=`.
pub open spec fn assignment_spec(ts: Seq<Token>, pos: int) -> Parsed<ExprView>
    decreases ts.len() - pos, 10int,
    when 0 <= pos < ts.len()
{
    let target = binary_spec(Level::Equality, ts, pos);
    match target.outcome {
        Err(e) => fail(e, target.next),
        Ok(expr) => if pos <= target.next < ts.len() && check_spec(
            ts,
            target.next,
            TokenType::Equal,
        ) {
            let equals = ts[target.next];
            let value = assignment_spec(ts, target.next + 1);
            match value.outcome {
                Err(e) => fail(e, value.next),
                Ok(v) => match expr {
                    ExprView::Variable(sym) => done(
                        ExprView::Assignment(sym, Box::new(v)),
                        value.next,
                    ),
                    _ => fail(
                        SyntaxErrorView::InvalidAssignment {
                            line: equals.line as int,
                            column: equals.column as int,
                        },
                        value.next,
                    ),
                },
            }
        } else {
            target
        },
    }
}

/// expression = assignment
pub open spec fn expression_spec(ts: Seq<Token>, pos: int) -> Parsed<ExprView>
    decreases ts.len() - pos, 11int,
    when 0 <= pos < ts.len()
{
    assignment_spec(ts, pos)
}

/// An expression closed by ";", after the keyword `print`.
pub open spec fn print_statement_spec(ts: Seq<Token>, pos: int) -> Parsed<StmtView> {
    let value = expression_spec(ts, pos);
    match value.outcome {
        Err(e) => fail(e, value.next),
        Ok(e) => match expect(ts, value.next, TokenType::Semicolon, "Expected ';'"@) {
            Some(mismatch) => fail(mismatch, value.next),
            None => done(StmtView::Print(e), value.next + 1),
        },
    }
}

/// An expression closed by ";".
pub open spec fn expression_statement_spec(ts: Seq<Token>, pos: int) -> Parsed<StmtView> {
    let value = expression_spec(ts, pos);
    match value.outcome {
        Err(e) => fail(e, value.next),
        Ok(e) => match expect(ts, value.next, TokenType::Semicolon, "Expected ';'"@) {
            Some(mismatch) => fail(mismatch, value.next),
            None => done(StmtView::Expression(e), value.next + 1),
        },
    }
}

/// statement = "print" expression ";" | expression ";"
pub open spec fn statement_spec(ts: Seq<Token>, pos: int) -> Parsed<StmtView> {
    if check_spec(ts, pos, TokenType::Print) {
        print_statement_spec(ts, pos + 1)
    } else {
        expression_statement_spec(ts, pos)
    }
}

/// The optional initializer of a declaration.
pub open spec fn initializer_spec(ts: Seq<Token>, pos: int) -> Parsed<Option<ExprView>> {
    if check_spec(ts, pos, TokenType::Equal) {
        let value = expression_spec(ts, pos + 1);
        match value.outcome {
            Err(e) => fail(e, value.next),
            Ok(e) => done(Some(e), value.next),
        }
    } else {
        done(None, pos)
    }
}

/// IDENTIFIER ("=" expression)? ";", after the keyword `var`.
pub open spec fn var_declaration_spec(ts: Seq<Token>, pos: int) -> Parsed<StmtView> {
    match expect(ts, pos, TokenType::Identifier, "Expected variable name."@) {
        Some(mismatch) => fail(mismatch, pos),
        None => match ts[pos].literal {
            Some(token::Literal::Identifier(name)) => {
                let initializer = initializer_spec(ts, pos + 1);
                match initializer.outcome {
                    Err(e) => fail(e, initializer.next),
                    Ok(value) => match expect(
                        ts,
                        initializer.next,
                        TokenType::Semicolon,
                        "Expected ';' after variable declaration."@,
                    ) {
                        Some(mismatch) => fail(mismatch, initializer.next),
                        None => done(
                            StmtView::VarDeclaration(symbol_of(name, ts[pos]), value),
                            initializer.next + 1,
                        ),
                    },
                }
            },
            _ => fail(SyntaxErrorView::UnexpectedToken(ts[pos]@), pos + 1),
        },
    }
}

/// declaration = "var" IDENTIFIER ("=" expression)? ";" | statement
pub open spec fn declaration_spec(ts: Seq<Token>, pos: int) -> Parsed<StmtView> {
    if check_spec(ts, pos, TokenType::Var) {
        var_declaration_spec(ts, pos + 1)
    } else {
        statement_spec(ts, pos)
    }
}

/// declaration*, up to the end-of-file marker. The first error ends parsing.
///
/// The test on the position of a declaration's end always holds; it is there
/// to show that the definition is well-founded.
pub open spec fn statements_spec(ts: Seq<Token>, pos: int) -> Parsed<Seq<StmtView>>
    decreases ts.len() - pos,
    when 0 <= pos < ts.len()
{
    if ts[pos].token_type == TokenType::Eof {
        done(Seq::empty(), pos)
    } else {
        let first = declaration_spec(ts, pos);
        match first.outcome {
            Err(e) => fail(e, first.next),
            Ok(s) => if pos < first.next < ts.len() {
                let rest = statements_spec(ts, first.next);
                match rest.outcome {
                    Err(e) => fail(e, rest.next),
                    Ok(more) => done(seq![s] + more, rest.next),
                }
            } else {
                done(seq![s], first.next)
            },
        }
    }
}

/// program = declaration* EOF
pub open spec fn parse_spec(ts: Seq<Token>) -> Result<Seq<StmtView>, SyntaxErrorView> {
    statements_spec(ts, 0).outcome
}

/// A run of statements followed by the outcome of parsing the rest.
pub open spec fn prepended(prefix: Seq<StmtView>, rest: Parsed<Seq<StmtView>>) -> Parsed<
    Seq<StmtView>,
> {
    match rest.outcome {
        Ok(more) => done(prefix + more, rest.next),
        Err(e) => fail(e, rest.next),
    }
}

/// The parser stays inside the stream and does not go back, and a construct
/// that was parsed took at least one token.
pub open spec fn advances<T>(ts: Seq<Token>, pos: int, parsed: Parsed<T>) -> bool {
    pos <= parsed.next < ts.len() && (parsed.outcome is Ok ==> pos < parsed.next)
}

/// Parsing a primary expression advances.
pub proof fn lemma_primary_advances(ts: Seq<Token>, pos: int)
    requires
        closed_stream(ts),
        0 <= pos < ts.len(),
    ensures
        advances(ts, pos, primary_spec(ts, pos)),
    decreases ts.len() - pos, 0int,
{
    if ts[pos].token_type == TokenType::LeftParen {
        lemma_expression_advances(ts, pos + 1);
    }
}

/// Parsing a unary expression advances.
pub proof fn lemma_unary_advances(ts: Seq<Token>, pos: int)
    requires
        closed_stream(ts),
        0 <= pos < ts.len(),
    ensures
        advances(ts, pos, unary_spec(ts, pos)),
    decreases ts.len() - pos, 1int,
{
    if ts[pos].token_type == TokenType::Minus || ts[pos].token_type == TokenType::Bang {
        lemma_unary_advances(ts, pos + 1);
    } else {
        lemma_primary_advances(ts, pos);
    }
}

/// Parsing an operand of a level advances.
pub proof fn lemma_operand_advances(level: Level, ts: Seq<Token>, pos: int)
    requires
        closed_stream(ts),
        0 <= pos < ts.len(),
    ensures
        advances(ts, pos, operand_spec(level, ts, pos)),
    decreases ts.len() - pos, 2 * (5 - tightness(level)),
{
    match level {
        Level::Equality => lemma_binary_advances(Level::Comparison, ts, pos),
        Level::Comparison => lemma_binary_advances(Level::Term, ts, pos),
        Level::Term => lemma_binary_advances(Level::Factor, ts, pos),
        Level::Factor => lemma_unary_advances(ts, pos),
    }
}

/// What follows the first operand of a level stays inside the stream, and
/// the test in `binary_rest` holds: after an operator and its right operand
/// the rest is what follows the folded expression.
pub proof fn lemma_binary_rest_advances(level: Level, ts: Seq<Token>, pos: int, left: ExprView)
    requires
        closed_stream(ts),
        0 <= pos < ts.len(),
    ensures
        pos <= binary_rest(level, ts, pos, left).next < ts.len(),
        in_level(level, ts[pos].token_type) ==> match operand_spec(level, ts, pos + 1).outcome {
            Ok(right) => binary_rest(level, ts, pos, left) == binary_rest(
                level,
                ts,
                operand_spec(level, ts, pos + 1).next,
                ExprView::Binary(Box::new(left), binary_op(ts[pos]), Box::new(right)),
            ),
            Err(e) => binary_rest(level, ts, pos, left) == fail::<ExprView>(
                e,
                operand_spec(level, ts, pos + 1).next,
            ),
        },
        !in_level(level, ts[pos].token_type) ==> binary_rest(level, ts, pos, left) == done(
            left,
            pos,
        ),
    decreases ts.len() - pos, 2 * (5 - tightness(level)),
{
    if in_level(level, ts[pos].token_type) {
        lemma_operand_advances(level, ts, pos + 1);
        let right = operand_spec(level, ts, pos + 1);
        if let Ok(r) = right.outcome {
            lemma_binary_rest_advances(
                level,
                ts,
                right.next,
                ExprView::Binary(Box::new(left), binary_op(ts[pos]), Box::new(r)),
            );
        }
    }
}

/// Parsing a level of infix operators advances, and the test in
/// `binary_spec` holds.
pub proof fn lemma_binary_advances(level: Level, ts: Seq<Token>, pos: int)
    requires
        closed_stream(ts),
        0 <= pos < ts.len(),
    ensures
        advances(ts, pos, binary_spec(level, ts, pos)),
        operand_spec(level, ts, pos).outcome matches Ok(left) ==> binary_spec(level, ts, pos)
            == binary_rest(level, ts, operand_spec(level, ts, pos).next, left),
    decreases ts.len() - pos, 2 * (5 - tightness(level)) + 1,
{
    lemma_operand_advances(level, ts, pos);
    let first = operand_spec(level, ts, pos);
    if let Ok(left) = first.outcome {
        lemma_binary_rest_advances(level, ts, first.next, left);
    }
}

/// Parsing an assignment advances.
pub proof fn lemma_assignment_advances(ts: Seq<Token>, pos: int)
    requires
        closed_stream(ts),
        0 <= pos < ts.len(),
    ensures
        advances(ts, pos, assignment_spec(ts, pos)),
    decreases ts.len() - pos, 10int,
{
    lemma_binary_advances(Level::Equality, ts, pos);
    let target = binary_spec(Level::Equality, ts, pos);
    if target.outcome is Ok && check_spec(ts, target.next, TokenType::Equal) {
        lemma_assignment_advances(ts, target.next + 1);
    }
}

/// Parsing an expression advances.
pub proof fn lemma_expression_advances(ts: Seq<Token>, pos: int)
    requires
        closed_stream(ts),
        0 <= pos < ts.len(),
    ensures
        advances(ts, pos, expression_spec(ts, pos)),
    decreases ts.len() - pos, 11int,
{
    lemma_assignment_advances(ts, pos);
}

/// Parsing a declaration or a statement advances.
pub proof fn lemma_declaration_advances(ts: Seq<Token>, pos: int)
    requires
        closed_stream(ts),
        0 <= pos < ts.len(),
    ensures
        advances(ts, pos, declaration_spec(ts, pos)),
{
    if check_spec(ts, pos, TokenType::Var) {
        if check_spec(ts, pos + 1, TokenType::Identifier) && check_spec(
            ts,
            pos + 2,
            TokenType::Equal,
        ) {
            lemma_expression_advances(ts, pos + 3);
        }
    } else if check_spec(ts, pos, TokenType::Print) {
        lemma_expression_advances(ts, pos + 1);
    } else {
        lemma_expression_advances(ts, pos);
    }
}

/// Parsing a program stays inside the stream, and the test in
/// `statements_spec` holds: a program that does not start at the end is its
/// first declaration followed by the rest.
pub proof fn lemma_statements_advance(ts: Seq<Token>, pos: int)
    requires
        closed_stream(ts),
        0 <= pos < ts.len(),
    ensures
        pos <= statements_spec(ts, pos).next < ts.len(),
        statements_spec(ts, pos).outcome is Ok ==> ts[statements_spec(ts, pos).next].token_type
            == TokenType::Eof,
        ts[pos].token_type != TokenType::Eof ==> match declaration_spec(ts, pos).outcome {
            Ok(first) => statements_spec(ts, pos) == prepended(
                seq![first],
                statements_spec(ts, declaration_spec(ts, pos).next),
            ),
            Err(e) => statements_spec(ts, pos).outcome == Err::<Seq<StmtView>, SyntaxErrorView>(e),
        },
    decreases ts.len() - pos,
{
    if ts[pos].token_type != TokenType::Eof {
        lemma_declaration_advances(ts, pos);
        let first = declaration_spec(ts, pos);
        if first.outcome is Ok {
            lemma_statements_advance(ts, first.next);
        }
    }
}

/// The token kinds at which a statement starts.
pub open spec fn starts_statement(kind: TokenType) -> bool {
    kind == TokenType::Class || kind == TokenType::Func || kind == TokenType::Var || kind
        == TokenType::If || kind == TokenType::For || kind == TokenType::While || kind
        == TokenType::Print || kind == TokenType::Return
}

/// The first position at or after `pos` where parsing can resume: just
/// behind a ";", at a token that starts a statement, or at the end.
pub open spec fn boundary_from(ts: Seq<Token>, pos: int) -> int
    decreases ts.len() - pos,
{
    if 0 < pos < ts.len() && ts[pos].token_type != TokenType::Eof && ts[pos - 1].token_type
        != TokenType::Semicolon && !starts_statement(ts[pos].token_type) {
        boundary_from(ts, pos + 1)
    } else {
        pos
    }
}

/// Where the parser stands after resynchronising from `pos`: it skips the
/// offending token and goes on to the next boundary.
pub open spec fn synchronize_spec(ts: Seq<Token>, pos: int) -> int {
    if ts[pos].token_type == TokenType::Eof {
        pos
    } else {
        boundary_from(ts, pos + 1)
    }
}

/// The view of the result of parsing an expression.
pub open spec fn expr_outcome(r: Result<Expr, SyntaxError>) -> Result<ExprView, SyntaxErrorView> {
    match r {
        Ok(e) => Ok(e@),
        Err(e) => Err(e@),
    }
}

/// The view of the result of parsing a statement.
pub open spec fn stmt_outcome(r: Result<Stmt, SyntaxError>) -> Result<StmtView, SyntaxErrorView> {
    match r {
        Ok(s) => Ok(s@),
        Err(e) => Err(e@),
    }
}

/// The view of the result of parsing a program.
pub open spec fn program_outcome(r: Result<Vec<Stmt>, SyntaxError>) -> Result<
    Seq<StmtView>,
    SyntaxErrorView,
> {
    match r {
        Ok(stmts) => Ok(stmt_views(stmts@)),
        Err(e) => Err(e@),
    }
}


// ---------------------------------------------------------------------------
// The parser
// ---------------------------------------------------------------------------

/// One more statement parsed moves from the rest to the prefix.
proof fn lemma_prepended_step(ts: Seq<Token>, here: int, before: Seq<StmtView>, view: StmtView)
    requires
        0 <= here < ts.len(),
        ts[here].token_type != TokenType::Eof,
        declaration_spec(ts, here).outcome == Ok::<StmtView, SyntaxErrorView>(view),
        here < declaration_spec(ts, here).next < ts.len(),
    ensures
        prepended(before, statements_spec(ts, here)) == prepended(
            before.push(view),
            statements_spec(ts, declaration_spec(ts, here).next),
        ),
{
    let rest = statements_spec(ts, declaration_spec(ts, here).next);
    match rest.outcome {
        Ok(more) => assert(before + (seq![view] + more) =~= before.push(view) + more),
        Err(_) => {},
    }
}

/// A cursor over a token stream.
pub struct Parser {
    tokens: Vec<Token>,
    current: usize,
}

/// Parses a whole token stream into its statements, or stops at the first
/// syntax error.
pub fn parse(tokens: Vec<Token>) -> (r: Result<Vec<Stmt>, SyntaxError>)
    requires
        closed_stream(tokens@),
    ensures
        program_outcome(r) == parse_spec(tokens@),
{
    let mut p = Parser::new(tokens);
    let result = p.parse()?;

    // a program that parsed leaves the parser at the end-of-file marker
    if !p.is_at_end() {
        return Err(SyntaxError::UnexpectedToken(p.peek().clone()));
    }
    Ok(result)
}

impl Parser {
    /// The token stream that the parser walks.
    pub closed spec fn tokens(&self) -> Seq<Token> {
        self.tokens@
    }

    /// The index of the token at which the parser stands.
    pub closed spec fn cursor(&self) -> int {
        self.current as int
    }

    /// The stream is closed by the end-of-file marker and the parser stands
    /// inside it.
    pub open spec fn well_formed(&self) -> bool {
        closed_stream(self.tokens()) && 0 <= self.cursor() < self.tokens().len()
    }

    /// The parser has gone from where it stood in `before` to where `parsed`
    /// says, over the same tokens and never backwards.
    pub open spec fn arrived<T>(&self, before: &Parser, parsed: Parsed<T>) -> bool {
        &&& self.tokens() == before.tokens()
        &&& self.well_formed()
        &&& self.cursor() == parsed.next
        &&& before.cursor() <= self.cursor()
    }

    /// A parser at the start of a token stream.
    pub fn new(tokens: Vec<Token>) -> (p: Parser)
        requires
            closed_stream(tokens@),
        ensures
            p.well_formed(),
            p.tokens() == tokens@,
            p.cursor() == 0,
    {
        Parser { tokens, current: 0 }
    }

    /// program = declaration* EOF
    pub fn parse(&mut self) -> (r: Result<Vec<Stmt>, SyntaxError>)
        requires
            old(self).well_formed(),
        ensures
            final(self).arrived(old(self), statements_spec(old(self).tokens(), old(self).cursor())),
            program_outcome(r) == statements_spec(old(self).tokens(), old(self).cursor()).outcome,
            r is Ok ==> final(self).tokens()[final(self).cursor()].token_type == TokenType::Eof,
    {
        let ghost ts = self.tokens();
        let ghost start = self.cursor();
        let mut statements: Vec<Stmt> = Vec::new();
        assert(stmt_views(statements@) =~= Seq::empty());
        assert(prepended(Seq::empty(), statements_spec(ts, start)) == statements_spec(ts, start))
            by {
            match statements_spec(ts, start).outcome {
                Ok(more) => assert(Seq::<StmtView>::empty() + more =~= more),
                Err(_) => {},
            }
        }
        while !self.is_at_end()
            invariant
                self.well_formed(),
                self.tokens() == ts,
                ts == old(self).tokens(),
                start == old(self).cursor(),
                start <= self.cursor(),
                statements_spec(ts, start) == prepended(
                    stmt_views(statements@),
                    statements_spec(ts, self.cursor()),
                ),
            decreases ts.len() - self.cursor(),
        {
            let ghost here = self.cursor();
            let ghost before = stmt_views(statements@);
            let statement = self.declaration()?;
            let ghost view = statement@;
            statements.push(statement);
            proof {
                assert(stmt_views(statements@) =~= before.push(view));
                lemma_prepended_step(ts, here, before, view);
            }
        }
        assert(stmt_views(statements@) + Seq::<StmtView>::empty() =~= stmt_views(statements@));
        Ok(statements)
    }

    /// declaration = "var" IDENTIFIER ("=" expression)? ";" | statement
    pub fn declaration(&mut self) -> (r: Result<Stmt, SyntaxError>)
        requires
            old(self).well_formed(),
        ensures
            final(self).arrived(
                old(self),
                declaration_spec(old(self).tokens(), old(self).cursor()),
            ),
            stmt_outcome(r) == declaration_spec(old(self).tokens(), old(self).cursor()).outcome,
            r is Ok ==> old(self).cursor() < final(self).cursor(),
    {
        if self.matches(TokenType::Var) {
            return self.var_declaration();
        }
        self.statement()
    }

    /// IDENTIFIER ("=" expression)? ";", after the keyword `var`.
    pub fn var_declaration(&mut self) -> (r: Result<Stmt, SyntaxError>)
        requires
            old(self).well_formed(),
        ensures
            final(self).arrived(
                old(self),
                var_declaration_spec(old(self).tokens(), old(self).cursor()),
            ),
            stmt_outcome(r) == var_declaration_spec(
                old(self).tokens(),
                old(self).cursor(),
            ).outcome,
            r is Ok ==> old(self).cursor() < final(self).cursor(),
    {
        self.consume(TokenType::Identifier, "Expected variable name.")?;
        let name = self.previous().clone();
        let symbol = match &name.literal {
            Some(token::Literal::Identifier(s)) => Symbol {
                name: s.clone(),
                line: name.line,
                column: name.column,
            },
            _ => return Err(SyntaxError::UnexpectedToken(name)),
        };

        let initializer = if self.matches(TokenType::Equal) {
            Some(self.expression()?)
        } else {
            None
        };

        self.consume(TokenType::Semicolon, "Expected ';' after variable declaration.")?;
        Ok(Stmt::VarDeclaration(symbol, initializer))
    }

    /// statement = "print" expression ";" | expression ";"
    pub fn statement(&mut self) -> (r: Result<Stmt, SyntaxError>)
        requires
            old(self).well_formed(),
        ensures
            final(self).arrived(old(self), statement_spec(old(self).tokens(), old(self).cursor())),
            stmt_outcome(r) == statement_spec(old(self).tokens(), old(self).cursor()).outcome,
            r is Ok ==> old(self).cursor() < final(self).cursor(),
    {
        if self.matches(TokenType::Print) {
            return self.print_statement();
        }
        self.expression_statement()
    }

    /// An expression closed by ";", after the keyword `print`.
    pub fn print_statement(&mut self) -> (r: Result<Stmt, SyntaxError>)
        requires
            old(self).well_formed(),
        ensures
            final(self).arrived(
                old(self),
                print_statement_spec(old(self).tokens(), old(self).cursor()),
            ),
            stmt_outcome(r) == print_statement_spec(
                old(self).tokens(),
                old(self).cursor(),
            ).outcome,
            r is Ok ==> old(self).cursor() < final(self).cursor(),
    {
        let val = self.expression()?;
        self.consume(TokenType::Semicolon, "Expected ';'")?;
        Ok(Stmt::Print(val))
    }

    /// An expression closed by ";".
    pub fn expression_statement(&mut self) -> (r: Result<Stmt, SyntaxError>)
        requires
            old(self).well_formed(),
        ensures
            final(self).arrived(
                old(self),
                expression_statement_spec(old(self).tokens(), old(self).cursor()),
            ),
            stmt_outcome(r) == expression_statement_spec(
                old(self).tokens(),
                old(self).cursor(),
            ).outcome,
            r is Ok ==> old(self).cursor() < final(self).cursor(),
    {
        let val = self.expression()?;
        self.consume(TokenType::Semicolon, "Expected ';'")?;
        Ok(Stmt::Expression(val))
    }

    /// expression = assignment
    pub fn expression(&mut self) -> (r: Result<Expr, SyntaxError>)
        requires
            old(self).well_formed(),
        ensures
            final(self).arrived(
                old(self),
                expression_spec(old(self).tokens(), old(self).cursor()),
            ),
            expr_outcome(r) == expression_spec(old(self).tokens(), old(self).cursor()).outcome,
            r is Ok ==> old(self).cursor() < final(self).cursor(),
        decreases old(self).tokens().len() - old(self).cursor(), 11int,
    {
        self.assignment()
    }

    /// assignment = equality ("=" assignment)?
    pub fn assignment(&mut self) -> (r: Result<Expr, SyntaxError>)
        requires
            old(self).well_formed(),
        ensures
            final(self).arrived(
                old(self),
                assignment_spec(old(self).tokens(), old(self).cursor()),
            ),
            expr_outcome(r) == assignment_spec(old(self).tokens(), old(self).cursor()).outcome,
            r is Ok ==> old(self).cursor() < final(self).cursor(),
        decreases old(self).tokens().len() - old(self).cursor(), 10int,
    {
        let expr = self.equality()?;

        if self.matches(TokenType::Equal) {
            let equals = self.previous().clone();
            let value = self.assignment()?;

            if let Expr::Variable(sym) = &expr {
                return Ok(Expr::Assignment(sym.clone(), Box::new(value)));
            } else {
                return Err(
                    SyntaxError::InvalidAssignment { line: equals.line, column: equals.column },
                );
            }
        }
        Ok(expr)
    }

    /// equality = comparison (("!=" | "==") comparison)*
    pub fn equality(&mut self) -> (r: Result<Expr, SyntaxError>)
        requires
            old(self).well_formed(),
        ensures
            final(self).arrived(
                old(self),
                binary_spec(Level::Equality, old(self).tokens(), old(self).cursor()),
            ),
            expr_outcome(r) == binary_spec(
                Level::Equality,
                old(self).tokens(),
                old(self).cursor(),
            ).outcome,
            r is Ok ==> old(self).cursor() < final(self).cursor(),
        decreases old(self).tokens().len() - old(self).cursor(), 9int,
    {
        let ghost ts = self.tokens();
        let ghost start = self.cursor();
        let mut expr: Expr = self.comparison()?;

        while self.match_one_of(vec![TokenType::EqualEqual, TokenType::BangEqual])
            invariant
                self.well_formed(),
                self.tokens() == ts,
                ts == old(self).tokens(),
                start == old(self).cursor(),
                0 <= start < self.cursor(),
                binary_rest(Level::Equality, ts, self.cursor(), expr@) == binary_spec(
                    Level::Equality,
                    ts,
                    start,
                ),
            decreases ts.len() - self.cursor(),
        {
            proof {
                lemma_binary_rest_advances(Level::Equality, ts, self.cursor() - 1, expr@);
            }
            let operator: Token = self.previous().clone();
            let right = Box::new(self.comparison()?);

            let binop = Parser::op_token_to_binop(&operator)?;
            let left = Box::new(expr);
            expr = Expr::Binary(left, binop, right);
        }
        proof {
            lemma_binary_rest_advances(Level::Equality, ts, self.cursor(), expr@);
        }
        Ok(expr)
    }

    /// comparison = term ((">" | ">=" | "<" | "<=") term)*
    pub fn comparison(&mut self) -> (r: Result<Expr, SyntaxError>)
        requires
            old(self).well_formed(),
        ensures
            final(self).arrived(
                old(self),
                binary_spec(Level::Comparison, old(self).tokens(), old(self).cursor()),
            ),
            expr_outcome(r) == binary_spec(
                Level::Comparison,
                old(self).tokens(),
                old(self).cursor(),
            ).outcome,
            r is Ok ==> old(self).cursor() < final(self).cursor(),
        decreases old(self).tokens().len() - old(self).cursor(), 7int,
    {
        let ghost ts = self.tokens();
        let ghost start = self.cursor();
        let mut expr: Expr = self.term()?;

        while self.match_one_of(
            vec![
                TokenType::Less,
                TokenType::LessEqual,
                TokenType::Greater,
                TokenType::GreaterEqual,
            ],
        )
            invariant
                self.well_formed(),
                self.tokens() == ts,
                ts == old(self).tokens(),
                start == old(self).cursor(),
                0 <= start < self.cursor(),
                binary_rest(Level::Comparison, ts, self.cursor(), expr@) == binary_spec(
                    Level::Comparison,
                    ts,
                    start,
                ),
            decreases ts.len() - self.cursor(),
        {
            proof {
                lemma_binary_rest_advances(Level::Comparison, ts, self.cursor() - 1, expr@);
            }
            let operator: Token = self.previous().clone();
            let right = Box::new(self.term()?);

            let binop = Parser::op_token_to_binop(&operator)?;
            let left = Box::new(expr);
            expr = Expr::Binary(left, binop, right);
        }
        proof {
            lemma_binary_rest_advances(Level::Comparison, ts, self.cursor(), expr@);
        }
        Ok(expr)
    }

    /// term = factor (("-" | "+") factor)*
    pub fn term(&mut self) -> (r: Result<Expr, SyntaxError>)
        requires
            old(self).well_formed(),
        ensures
            final(self).arrived(
                old(self),
                binary_spec(Level::Term, old(self).tokens(), old(self).cursor()),
            ),
            expr_outcome(r) == binary_spec(
                Level::Term,
                old(self).tokens(),
                old(self).cursor(),
            ).outcome,
            r is Ok ==> old(self).cursor() < final(self).cursor(),
        decreases old(self).tokens().len() - old(self).cursor(), 5int,
    {
        let ghost ts = self.tokens();
        let ghost start = self.cursor();
        let mut expr: Expr = self.factor()?;

        while self.match_one_of(vec![TokenType::Plus, TokenType::Minus])
            invariant
                self.well_formed(),
                self.tokens() == ts,
                ts == old(self).tokens(),
                start == old(self).cursor(),
                0 <= start < self.cursor(),
                binary_rest(Level::Term, ts, self.cursor(), expr@) == binary_spec(
                    Level::Term,
                    ts,
                    start,
                ),
            decreases ts.len() - self.cursor(),
        {
            proof {
                lemma_binary_rest_advances(Level::Term, ts, self.cursor() - 1, expr@);
            }
            let operator: Token = self.previous().clone();
            let right = Box::new(self.factor()?);

            let binop = Parser::op_token_to_binop(&operator)?;
            let left = Box::new(expr);
            expr = Expr::Binary(left, binop, right);
        }
        proof {
            lemma_binary_rest_advances(Level::Term, ts, self.cursor(), expr@);
        }
        Ok(expr)
    }

    /// factor = unary (("/" | "*") unary)*
    pub fn factor(&mut self) -> (r: Result<Expr, SyntaxError>)
        requires
            old(self).well_formed(),
        ensures
            final(self).arrived(
                old(self),
                binary_spec(Level::Factor, old(self).tokens(), old(self).cursor()),
            ),
            expr_outcome(r) == binary_spec(
                Level::Factor,
                old(self).tokens(),
                old(self).cursor(),
            ).outcome,
            r is Ok ==> old(self).cursor() < final(self).cursor(),
        decreases old(self).tokens().len() - old(self).cursor(), 3int,
    {
        let ghost ts = self.tokens();
        let ghost start = self.cursor();
        let mut expr: Expr = self.unary()?;

        while self.match_one_of(vec![TokenType::Star, TokenType::Slash])
            invariant
                self.well_formed(),
                self.tokens() == ts,
                ts == old(self).tokens(),
                start == old(self).cursor(),
                0 <= start < self.cursor(),
                binary_rest(Level::Factor, ts, self.cursor(), expr@) == binary_spec(
                    Level::Factor,
                    ts,
                    start,
                ),
            decreases ts.len() - self.cursor(),
        {
            proof {
                lemma_binary_rest_advances(Level::Factor, ts, self.cursor() - 1, expr@);
            }
            let operator: Token = self.previous().clone();
            let right = Box::new(self.unary()?);

            let binop = Parser::op_token_to_binop(&operator)?;
            let left = Box::new(expr);
            expr = Expr::Binary(left, binop, right);
        }
        proof {
            lemma_binary_rest_advances(Level::Factor, ts, self.cursor(), expr@);
        }
        Ok(expr)
    }

    /// unary = ("!" | "-") unary | primary
    pub fn unary(&mut self) -> (r: Result<Expr, SyntaxError>)
        requires
            old(self).well_formed(),
        ensures
            final(self).arrived(old(self), unary_spec(old(self).tokens(), old(self).cursor())),
            expr_outcome(r) == unary_spec(old(self).tokens(), old(self).cursor()).outcome,
            r is Ok ==> old(self).cursor() < final(self).cursor(),
        decreases old(self).tokens().len() - old(self).cursor(), 1int,
    {
        let kinds = vec![TokenType::Minus, TokenType::Bang];
        if self.match_one_of(kinds) {
            let operator: Token = self.previous().clone();
            let right = Box::new(self.unary()?);

            let uniop = Parser::op_token_to_uniop(&operator)?;
            return Ok(Expr::Unary(uniop, right));
        }
        self.primary()
    }

    /// primary = "true" | "false" | "null" | NUMBER | STRING | IDENTIFIER
    ///         | "(" expression ")"
    pub fn primary(&mut self) -> (r: Result<Expr, SyntaxError>)
        requires
            old(self).well_formed(),
        ensures
            final(self).arrived(old(self), primary_spec(old(self).tokens(), old(self).cursor())),
            expr_outcome(r) == primary_spec(old(self).tokens(), old(self).cursor()).outcome,
            r is Ok ==> old(self).cursor() < final(self).cursor(),
        decreases old(self).tokens().len() - old(self).cursor(), 0int,
    {
        if self.matches(TokenType::False) {
            return Ok(Expr::Literal(Literal::False));
        }
        if self.matches(TokenType::True) {
            return Ok(Expr::Literal(Literal::True));
        }
        if self.matches(TokenType::Null) {
            return Ok(Expr::Literal(Literal::Null));
        }
        if self.matches(TokenType::Int) {
            match &self.previous().literal {
                Some(token::Literal::Int(n)) => {
                    return Ok(Expr::Literal(Literal::Number(Numeral::Integer(*n))))
                },
                _ => return Err(SyntaxError::UnexpectedToken(self.previous().clone())),
            }
        }
        if self.matches(TokenType::Float) {
            match &self.previous().literal {
                Some(token::Literal::Float(d)) => {
                    return Ok(Expr::Literal(Literal::Number(Numeral::Decimal(d.clone()))))
                },
                _ => return Err(SyntaxError::UnexpectedToken(self.previous().clone())),
            }
        }
        if self.matches(TokenType::String) {
            match &self.previous().literal {
                Some(token::Literal::Str(s)) => {
                    return Ok(Expr::Literal(Literal::String(s.clone())))
                },
                _ => return Err(SyntaxError::UnexpectedToken(self.previous().clone())),
            }
        }
        if self.matches(TokenType::Identifier) {
            match &self.previous().literal {
                Some(token::Literal::Identifier(s)) => {
                    return Ok(
                        Expr::Variable(
                            Symbol {
                                name: s.clone(),
                                line: self.previous().line,
                                column: self.previous().column,
                            },
                        ),
                    )
                },
                _ => return Err(SyntaxError::UnexpectedToken(self.previous().clone())),
            }
        }
        if self.matches(TokenType::LeftParen) {
            let expr = self.expression()?;
            self.consume(TokenType::RightParen, "Expected ')' after expression")?;
            return Ok(Expr::Grouping(Box::new(expr)));
        }
        Err(
            SyntaxError::ExpectedExpression {
                token_type: self.peek().token_type,
                line: self.peek().line,
                column: self.peek().column,
            },
        )
    }

    /// Skips the offending token and goes on to the next place where a
    /// statement can start: just behind a ";", at a keyword that opens a
    /// statement, or at the end.
    pub fn synchronize(&mut self)
        requires
            old(self).well_formed(),
        ensures
            final(self).well_formed(),
            final(self).tokens() == old(self).tokens(),
            final(self).cursor() == synchronize_spec(old(self).tokens(), old(self).cursor()),
    {
        let ghost ts = self.tokens();
        let ghost goal = synchronize_spec(ts, self.cursor());
        self.advance();

        while !self.is_at_end()
            invariant
                self.well_formed(),
                self.tokens() == ts,
                ts == old(self).tokens(),
                goal == synchronize_spec(ts, old(self).cursor()),
                self.cursor() > 0 || ts[self.cursor()].token_type == TokenType::Eof,
                boundary_from(ts, self.cursor()) == goal || (ts[self.cursor()].token_type
                    == TokenType::Eof && goal == self.cursor()),
            decreases ts.len() - self.cursor(),
        {
            if self.previous().token_type == TokenType::Semicolon {
                return ;
            }
            match self.peek().token_type {
                TokenType::Class => return ,
                TokenType::Func => return ,
                TokenType::Var => return ,
                TokenType::If => return ,
                TokenType::For => return ,
                TokenType::While => return ,
                TokenType::Print => return ,
                TokenType::Return => return ,
                _ => {},
            }

            self.advance();
        }
    }

    /// The infix operator that a token is, with the token's place; a token
    /// of any other kind is an error.
    pub fn op_token_to_binop(op: &Token) -> (r: Result<BinaryOp, SyntaxError>)
        ensures
            match binop_of(op.token_type) {
                Some(b_type) => r == Ok::<BinaryOp, SyntaxError>(
                    BinaryOp { b_type, line: op.line, column: op.column },
                ),
                None => r matches Err(e) && e@ == (SyntaxErrorView::InvalidTokenInBinaryOp {
                    token_type: op.token_type,
                    line: op.line as int,
                    column: op.column as int,
                }),
            },
    {
        match op.token_type {
            TokenType::EqualEqual => Ok(
                BinaryOp { b_type: BinOpType::EqualEqual, line: op.line, column: op.column },
            ),
            TokenType::BangEqual => Ok(
                BinaryOp { b_type: BinOpType::NotEqual, line: op.line, column: op.column },
            ),
            TokenType::Less => Ok(
                BinaryOp { b_type: BinOpType::Less, line: op.line, column: op.column },
            ),
            TokenType::LessEqual => Ok(
                BinaryOp { b_type: BinOpType::LessEqual, line: op.line, column: op.column },
            ),
            TokenType::Greater => Ok(
                BinaryOp { b_type: BinOpType::Greater, line: op.line, column: op.column },
            ),
            TokenType::GreaterEqual => Ok(
                BinaryOp { b_type: BinOpType::GreaterEqual, line: op.line, column: op.column },
            ),
            TokenType::Plus => Ok(
                BinaryOp { b_type: BinOpType::Add, line: op.line, column: op.column },
            ),
            TokenType::Minus => Ok(
                BinaryOp { b_type: BinOpType::Sub, line: op.line, column: op.column },
            ),
            TokenType::Star => Ok(
                BinaryOp { b_type: BinOpType::Mult, line: op.line, column: op.column },
            ),
            TokenType::Slash => Ok(
                BinaryOp { b_type: BinOpType::Div, line: op.line, column: op.column },
            ),
            _ => Err(
                SyntaxError::InvalidTokenInBinaryOp {
                    token_type: op.token_type,
                    line: op.line,
                    column: op.column,
                },
            ),
        }
    }

    /// The prefix operator that a token is, with the token's place; a token
    /// of any other kind is an error.
    pub fn op_token_to_uniop(op: &Token) -> (r: Result<UnaryOp, SyntaxError>)
        ensures
            match uniop_of(op.token_type) {
                Some(u_type) => r == Ok::<UnaryOp, SyntaxError>(
                    UnaryOp { u_type, line: op.line, column: op.column },
                ),
                None => r matches Err(e) && e@ == (SyntaxErrorView::InvalidTokenInUnaryOp {
                    token_type: op.token_type,
                    line: op.line as int,
                    column: op.column as int,
                }),
            },
    {
        match op.token_type {
            TokenType::Bang => Ok(
                UnaryOp { u_type: UniOpType::Bang, line: op.line, column: op.column },
            ),
            TokenType::Minus => Ok(
                UnaryOp { u_type: UniOpType::Minus, line: op.line, column: op.column },
            ),
            _ => Err(
                SyntaxError::InvalidTokenInUnaryOp {
                    token_type: op.token_type,
                    line: op.line,
                    column: op.column,
                },
            ),
        }
    }

    /// Consumes the next token if its kind is one of `types`.
    fn match_one_of(&mut self, types: Vec<TokenType>) -> (found: bool)
        requires
            old(self).well_formed(),
        ensures
            found == (old(self).tokens()[old(self).cursor()].token_type != TokenType::Eof
                && types@.contains(old(self).tokens()[old(self).cursor()].token_type)),
            final(self).tokens() == old(self).tokens(),
            final(self).well_formed(),
            final(self).cursor() == old(self).cursor() + if found {
                1int
            } else {
                0int
            },
    {
        let mut i: usize = 0;
        while i < types.len()
            invariant
                i <= types.len(),
                *self == *old(self),
                self.well_formed(),
                forall|j: int|
                    0 <= j < i ==> !check_spec(self.tokens(), self.cursor(), #[trigger] types@[j]),
            decreases types.len() - i,
        {
            if self.matches(types[i]) {
                return true;
            }
            i += 1;
        }
        false
    }

    /// Consumes the next token if it is of kind `t`.
    fn matches(&mut self, t: TokenType) -> (found: bool)
        requires
            old(self).well_formed(),
        ensures
            found == check_spec(old(self).tokens(), old(self).cursor(), t),
            !found ==> *final(self) == *old(self),
            final(self).tokens() == old(self).tokens(),
            final(self).well_formed(),
            final(self).cursor() == old(self).cursor() + if found {
                1int
            } else {
                0int
            },
    {
        if self.check(t) {
            self.advance();
            return true;
        }
        false
    }

    /// Steps over the next token, unless it is the end-of-file marker.
    fn advance(&mut self)
        requires
            old(self).well_formed(),
        ensures
            final(self).tokens() == old(self).tokens(),
            final(self).well_formed(),
            final(self).cursor() == if old(self).tokens()[old(self).cursor()].token_type
                == TokenType::Eof {
                old(self).cursor()
            } else {
                old(self).cursor() + 1
            },
    {
        if !self.is_at_end() {
            assert(self.current < self.tokens.len());
            self.current += 1
        }
    }

    /// Consumes the next token, which must be of kind `t`.
    fn consume(&mut self, t: TokenType, message: &str) -> (r: Result<(), SyntaxError>)
        requires
            old(self).well_formed(),
        ensures
            final(self).tokens() == old(self).tokens(),
            final(self).well_formed(),
            match expect(old(self).tokens(), old(self).cursor(), t, message@) {
                None => r is Ok && final(self).cursor() == old(self).cursor() + 1,
                Some(mismatch) => r matches Err(e) && e@ == mismatch && final(self).cursor()
                    == old(self).cursor(),
            },
    {
        if self.check(t) {
            self.advance();
            return Ok(());
        }
        Err(
            SyntaxError::TokenMismatch {
                expected: t,
                found: self.peek().clone(),
                maybe_err: Some(String::from_str(message)),
            },
        )
    }

    /// Tells whether the next token is of kind `t`.
    fn check(&self, t: TokenType) -> (found: bool)
        requires
            self.well_formed(),
        ensures
            found == check_spec(self.tokens(), self.cursor(), t),
    {
        if self.is_at_end() {
            return false;
        }
        self.peek().token_type == t
    }

    /// Tells whether the next token is the end-of-file marker.
    fn is_at_end(&self) -> (at_end: bool)
        requires
            self.well_formed(),
        ensures
            at_end == (self.tokens()[self.cursor()].token_type == TokenType::Eof),
    {
        self.peek().token_type == TokenType::Eof
    }

    /// The next token.
    fn peek(&self) -> (t: &Token)
        requires
            self.well_formed(),
        ensures
            *t == self.tokens()[self.cursor()],
    {
        &self.tokens[self.current]
    }

    /// The token consumed last.
    fn previous(&self) -> (t: &Token)
        requires
            self.well_formed(),
            self.cursor() > 0,
        ensures
            *t == self.tokens()[self.cursor() - 1],
    {
        &self.tokens[self.current - 1]
    }
}


/// How a message names a place in the source.
pub open spec fn position_text(line: int, column: int) -> Seq<char> {
    "[line: "@ + decimal(line as nat) + ", Column: "@ + signed_decimal(column) + "] "@
}

/// The message of a syntax error.
pub open spec fn syntax_error_text(e: SyntaxErrorView) -> Seq<char> {
    match e {
        SyntaxErrorView::UnexpectedToken(token) => position_text(token.line, token.column)
            + "Unexpected "@ + token_text(token) + " found for this place"@,
        SyntaxErrorView::TokenMismatch { expected, found, maybe_err } => position_text(
            found.line,
            found.column,
        ) + "Expected token "@ + kind_name(expected) + " but found "@ + kind_name(found.token_type)
            + match maybe_err {
            Some(context) => ": "@ + context,
            None => Seq::empty(),
        },
        SyntaxErrorView::InvalidTokenInBinaryOp { token_type, line, column } => position_text(
            line,
            column,
        ) + "Invalid Binary Operator: "@ + kind_name(token_type),
        SyntaxErrorView::InvalidTokenInUnaryOp { token_type, line, column } => position_text(
            line,
            column,
        ) + "Invalid Unary Operator: "@ + kind_name(token_type),
        SyntaxErrorView::ExpectedExpression { token_type, line, column } => position_text(
            line,
            column,
        ) + "Expected Expression, found "@ + kind_name(token_type),
        SyntaxErrorView::InvalidAssignment { line, column } => position_text(line, column)
            + "Assignment target is Invalide"@,
    }
}

/// Starts a message with the place it speaks of.
fn position(line: usize, column: i64) -> (text: String)
    ensures
        text@ == position_text(line as int, column as int),
{
    let mut text = String::from_str("[line: ");
    push_decimal(&mut text, line as u64);
    text.append(", Column: ");
    push_signed_decimal(&mut text, column);
    text.append("] ");
    text
}

impl SyntaxError {
    /// The message of the error: the place, then what was found there.
    pub fn message(&self) -> (text: String)
        ensures
            text@ == syntax_error_text(self@),
    {
        match self {
            SyntaxError::UnexpectedToken(token) => {
                let mut text = position(token.line, token.column);
                text.append("Unexpected ");
                text.append(token.describe().as_str());
                text.append(" found for this place");
                text
            },
            SyntaxError::TokenMismatch { expected, found, maybe_err } => {
                let mut text = position(found.line, found.column);
                text.append("Expected token ");
                text.append(expected.name());
                text.append(" but found ");
                text.append(found.token_type.name());
                match maybe_err {
                    Some(context) => {
                        let ghost before = text@;
                        text.append(": ");
                        text.append(context.as_str());
                        assert(text@ =~= before + (": "@ + context@));
                    },
                    None => {
                        assert(text@ + Seq::<char>::empty() =~= text@);
                    },
                }
                text
            },
            SyntaxError::InvalidTokenInBinaryOp { token_type, line, column } => {
                let mut text = position(*line, *column);
                text.append("Invalid Binary Operator: ");
                text.append(token_type.name());
                text
            },
            SyntaxError::InvalidTokenInUnaryOp { token_type, line, column } => {
                let mut text = position(*line, *column);
                text.append("Invalid Unary Operator: ");
                text.append(token_type.name());
                text
            },
            SyntaxError::ExpectedExpression { token_type, line, column } => {
                let mut text = position(*line, *column);
                text.append("Expected Expression, found ");
                text.append(token_type.name());
                text
            },
            SyntaxError::InvalidAssignment { line, column } => {
                let mut text = position(*line, *column);
                text.append("Assignment target is Invalide");
                text
            },
        }
    }
}

} // verus!
