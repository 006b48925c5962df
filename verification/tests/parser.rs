use aprn::expr::{BinOpType, BinaryOp, Expr, Literal, Numeral, Stmt, Symbol, UnaryOp, UniOpType};
use aprn::parser::{parse, Parser, SyntaxError};
use aprn::scanner::scan;
use aprn::token::{Decimal, Token, TokenType};

fn tokens(source: &str) -> Vec<Token> {
    scan(source.to_string()).unwrap()
}

fn program(source: &str) -> Vec<Stmt> {
    parse(tokens(source)).unwrap()
}

fn failure(source: &str) -> SyntaxError {
    match parse(tokens(source)) {
        Ok(stmts) => panic!("unexpected program: {:?}", stmts),
        Err(e) => e,
    }
}

fn integer(n: u64) -> Expr {
    Expr::Literal(Literal::Number(Numeral::Integer(n)))
}

fn binary(left: Expr, b_type: BinOpType, column: i64, right: Expr) -> Expr {
    Expr::Binary(Box::new(left), BinaryOp { b_type, line: 1, column }, Box::new(right))
}

fn variable(name: &str, column: i64) -> Symbol {
    Symbol { name: name.to_string(), line: 1, column }
}

fn token(token_type: TokenType, lexeme: &str) -> Token {
    Token { token_type, lexeme: lexeme.as_bytes().to_vec(), literal: None, line: 1, column: 0 }
}

#[test]
fn multiplication_binds_tighter_than_addition() {
    let stmts = program("1 + 2 * 3;");
    assert_eq!(
        stmts,
        vec![Stmt::Expression(binary(
            integer(1),
            BinOpType::Add,
            2,
            binary(integer(2), BinOpType::Mult, 6, integer(3))
        ))]
    );
}

#[test]
fn subtraction_associates_to_the_left() {
    let stmts = program("1 - 2 - 3;");
    assert_eq!(
        stmts,
        vec![Stmt::Expression(binary(
            binary(integer(1), BinOpType::Sub, 2, integer(2)),
            BinOpType::Sub,
            6,
            integer(3)
        ))]
    );
}

#[test]
fn every_level_of_the_ladder() {
    let stmts = program("1 == 2 < 3 + 4 / -5;");
    assert_eq!(
        stmts,
        vec![Stmt::Expression(binary(
            integer(1),
            BinOpType::EqualEqual,
            3,
            binary(
                integer(2),
                BinOpType::Less,
                7,
                binary(
                    integer(3),
                    BinOpType::Add,
                    11,
                    binary(
                        integer(4),
                        BinOpType::Div,
                        15,
                        Expr::Unary(
                            UnaryOp { u_type: UniOpType::Minus, line: 1, column: 17 },
                            Box::new(integer(5))
                        )
                    )
                )
            )
        ))]
    );
}

#[test]
fn all_infix_operators() {
    for (text, b_type) in [
        ("==", BinOpType::EqualEqual),
        ("!=", BinOpType::NotEqual),
        ("<", BinOpType::Less),
        ("<=", BinOpType::LessEqual),
        (">", BinOpType::Greater),
        (">=", BinOpType::GreaterEqual),
        ("+", BinOpType::Add),
        ("-", BinOpType::Sub),
        ("*", BinOpType::Mult),
        ("/", BinOpType::Div),
    ] {
        let stmts = program(&format!("1 {} 2;", text));
        assert_eq!(
            stmts,
            vec![Stmt::Expression(binary(integer(1), b_type, 1 + text.len() as i64, integer(2)))]
        );
    }
}

#[test]
fn invalid_assignment_target() {
    match failure("1 = 2;") {
        SyntaxError::InvalidAssignment { line, column } => {
            assert_eq!(line, 1);
            assert_eq!(column, 2);
        }
        other => panic!("wrong error: {:?}", other),
    }
    match failure("(a) = 2;") {
        SyntaxError::InvalidAssignment { line, column } => {
            assert_eq!((line, column), (1, 4));
        }
        other => panic!("wrong error: {:?}", other),
    }
}

#[test]
fn assignment_associates_to_the_right() {
    let stmts = program("a = b = 3;");
    assert_eq!(
        stmts,
        vec![Stmt::Expression(Expr::Assignment(
            variable("a", 0),
            Box::new(Expr::Assignment(variable("b", 4), Box::new(integer(3))))
        ))]
    );
    match &stmts[0] {
        Stmt::Expression(Expr::Assignment(target, _)) => {
            assert_eq!((target.line, target.column), (1, 0));
        }
        other => panic!("not an assignment: {:?}", other),
    }
}

#[test]
fn unary_operators_nest() {
    let stmts = program("--1; !true;");
    assert_eq!(
        stmts,
        vec![
            Stmt::Expression(Expr::Unary(
                UnaryOp { u_type: UniOpType::Minus, line: 1, column: 0 },
                Box::new(Expr::Unary(
                    UnaryOp { u_type: UniOpType::Minus, line: 1, column: 1 },
                    Box::new(integer(1))
                ))
            )),
            Stmt::Expression(Expr::Unary(
                UnaryOp { u_type: UniOpType::Bang, line: 1, column: 5 },
                Box::new(Expr::Literal(Literal::True))
            )),
        ]
    );
}

#[test]
fn primary_expressions() {
    let stmts = program("true; false; null; 7; 2.50; \"text\"; name; (1);");
    assert_eq!(
        stmts,
        vec![
            Stmt::Expression(Expr::Literal(Literal::True)),
            Stmt::Expression(Expr::Literal(Literal::False)),
            Stmt::Expression(Expr::Literal(Literal::Null)),
            Stmt::Expression(integer(7)),
            Stmt::Expression(Expr::Literal(Literal::Number(Numeral::Decimal(Decimal {
                whole: b"2".to_vec(),
                fraction: b"50".to_vec(),
            })))),
            Stmt::Expression(Expr::Literal(Literal::String("text".to_string()))),
            Stmt::Expression(Expr::Variable(variable("name", 39))),
            Stmt::Expression(Expr::Grouping(Box::new(integer(1)))),
        ]
    );
    match &stmts[6] {
        Stmt::Expression(Expr::Variable(sym)) => assert_eq!((sym.line, sym.column), (1, 39)),
        other => panic!("not a variable: {:?}", other),
    }
}

#[test]
fn statements_and_declarations() {
    let stmts = program("var x; var y = 1 + 2; print y; y;");
    assert_eq!(
        stmts,
        vec![
            Stmt::VarDeclaration(variable("x", 4), None),
            Stmt::VarDeclaration(
                variable("y", 11),
                Some(binary(integer(1), BinOpType::Add, 17, integer(2)))
            ),
            Stmt::Print(Expr::Variable(variable("y", 28))),
            Stmt::Expression(Expr::Variable(variable("y", 31))),
        ]
    );
    match &stmts[1] {
        Stmt::VarDeclaration(sym, _) => assert_eq!((sym.line, sym.column), (1, 11)),
        other => panic!("not a declaration: {:?}", other),
    }
}

#[test]
fn empty_program() {
    assert_eq!(program(""), vec![]);
    assert_eq!(program("// only a comment\n"), vec![]);
}

#[test]
fn expected_expression() {
    match failure("print ;") {
        SyntaxError::ExpectedExpression { token_type, line, column } => {
            assert_eq!(token_type, TokenType::Semicolon);
            assert_eq!((line, column), (1, 6));
        }
        other => panic!("wrong error: {:?}", other),
    }
    match failure("1 +") {
        SyntaxError::ExpectedExpression { token_type, line, column } => {
            assert_eq!(token_type, TokenType::Eof);
            assert_eq!((line, column), (1, 2));
        }
        other => panic!("wrong error: {:?}", other),
    }
    match failure("1 = ;") {
        SyntaxError::ExpectedExpression { token_type, .. } => {
            assert_eq!(token_type, TokenType::Semicolon)
        }
        other => panic!("wrong error: {:?}", other),
    }
}

#[test]
fn token_mismatch() {
    match failure("(1 + 2;") {
        SyntaxError::TokenMismatch { expected, found, maybe_err } => {
            assert_eq!(expected, TokenType::RightParen);
            assert_eq!(found.token_type, TokenType::Semicolon);
            assert_eq!(maybe_err.as_deref(), Some("Expected ')' after expression"));
        }
        other => panic!("wrong error: {:?}", other),
    }
    match failure("1 + 2") {
        SyntaxError::TokenMismatch { expected, found, maybe_err } => {
            assert_eq!(expected, TokenType::Semicolon);
            assert_eq!(found.token_type, TokenType::Eof);
            assert_eq!(maybe_err.as_deref(), Some("Expected ';'"));
        }
        other => panic!("wrong error: {:?}", other),
    }
    match failure("var 1;") {
        SyntaxError::TokenMismatch { expected, found, maybe_err } => {
            assert_eq!(expected, TokenType::Identifier);
            assert_eq!(found.token_type, TokenType::Int);
            assert_eq!(maybe_err.as_deref(), Some("Expected variable name."));
        }
        other => panic!("wrong error: {:?}", other),
    }
    match failure("var x = 1") {
        SyntaxError::TokenMismatch { expected, maybe_err, .. } => {
            assert_eq!(expected, TokenType::Semicolon);
            assert_eq!(maybe_err.as_deref(), Some("Expected ';' after variable declaration."));
        }
        other => panic!("wrong error: {:?}", other),
    }
}

#[test]
fn first_error_ends_parsing() {
    match failure("print 1; 2 3; ) ;") {
        SyntaxError::TokenMismatch { expected, found, .. } => {
            assert_eq!(expected, TokenType::Semicolon);
            assert_eq!(found.token_type, TokenType::Int);
            assert_eq!(found.column, 11);
        }
        other => panic!("wrong error: {:?}", other),
    }
}

#[test]
fn literal_token_without_its_literal() {
    let stream = vec![token(TokenType::Int, "1"), token(TokenType::Eof, "")];
    match parse(stream) {
        Err(SyntaxError::UnexpectedToken(found)) => assert_eq!(found.token_type, TokenType::Int),
        other => panic!("wrong result: {:?}", other),
    }
}

#[test]
fn operators_of_tokens() {
    let plus = token(TokenType::Plus, "+");
    assert_eq!(
        Parser::op_token_to_binop(&plus).unwrap(),
        BinaryOp { b_type: BinOpType::Add, line: 1, column: 0 }
    );
    match Parser::op_token_to_binop(&token(TokenType::Bang, "!")) {
        Err(SyntaxError::InvalidTokenInBinaryOp { token_type, line, column }) => {
            assert_eq!(token_type, TokenType::Bang);
            assert_eq!((line, column), (1, 0));
        }
        other => panic!("wrong result: {:?}", other),
    }
    assert_eq!(
        Parser::op_token_to_uniop(&token(TokenType::Bang, "!")).unwrap(),
        UnaryOp { u_type: UniOpType::Bang, line: 1, column: 0 }
    );
    match Parser::op_token_to_uniop(&plus) {
        Err(SyntaxError::InvalidTokenInUnaryOp { token_type, .. }) => {
            assert_eq!(token_type, TokenType::Plus)
        }
        other => panic!("wrong result: {:?}", other),
    }
}

#[test]
fn parser_methods_walk_the_stream() {
    let mut parser = Parser::new(tokens("1 + 2 ; x"));
    assert_eq!(parser.term().unwrap(), binary(integer(1), BinOpType::Add, 2, integer(2)));
    assert!(parser.primary().is_err());
    parser.synchronize();
    assert_eq!(parser.expression().unwrap(), Expr::Variable(variable("x", 8)));
}

#[test]
fn synchronize_stops_at_a_statement_boundary() {
    let mut parser = Parser::new(tokens(") ) 1 print 2;"));
    parser.synchronize();
    assert_eq!(parser.statement().unwrap(), Stmt::Print(integer(2)));

    let mut parser = Parser::new(tokens("+ 1 ; 2 ;"));
    parser.synchronize();
    assert_eq!(parser.statement().unwrap(), Stmt::Expression(integer(2)));

    let mut parser = Parser::new(tokens("+ 1 2"));
    parser.synchronize();
    assert_eq!(parser.parse().unwrap(), vec![]);
}

#[test]
fn messages() {
    assert_eq!(
        failure("1 = 2;").message(),
        "[line: 1, Column: 2] Assignment target is Invalide"
    );
    assert_eq!(
        failure("print ;").message(),
        "[line: 1, Column: 6] Expected Expression, found Semicolon"
    );
    assert_eq!(
        failure("1 + 2").message(),
        "[line: 1, Column: 4] Expected token Semicolon but found Eof: Expected ';'"
    );
    let stream = vec![
        Token {
            token_type: TokenType::Identifier,
            lexeme: b"ab".to_vec(),
            literal: None,
            line: 3,
            column: -1,
        },
        token(TokenType::Eof, ""),
    ];
    assert_eq!(
        parse(stream).unwrap_err().message(),
        "[line: 3, Column: -1] Unexpected Token { type: Identifier, lexeme: \"ab\", line: 3, col: -1 } found for this place"
    );
    assert_eq!(
        Parser::op_token_to_binop(&token(TokenType::Bang, "!")).unwrap_err().message(),
        "[line: 1, Column: 0] Invalid Binary Operator: Bang"
    );
    assert_eq!(
        Parser::op_token_to_uniop(&token(TokenType::Star, "*")).unwrap_err().message(),
        "[line: 1, Column: 0] Invalid Unary Operator: Star"
    );
}

#[test]
fn nested_groupings() {
    let depth = 200;
    let source = format!("{}1{};", "(".repeat(depth), ")".repeat(depth));
    let stmts = program(&source);
    let mut expr = match &stmts[0] {
        Stmt::Expression(e) => e,
        other => panic!("not an expression: {:?}", other),
    };
    for _ in 0..depth {
        expr = match expr {
            Expr::Grouping(inner) => inner,
            other => panic!("not a grouping: {:?}", other),
        };
    }
    assert_eq!(*expr, integer(1));
}
