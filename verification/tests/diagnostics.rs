use aprn::diagnostics::{error, report};
use aprn::expr::{BinOpType, BinaryOp, SourceLocation, Symbol, UnaryOp, UniOpType};
use aprn::text::{push_decimal, push_signed_decimal};
use aprn::token::{Token, TokenType};

#[test]
fn report_names_the_place() {
    assert_eq!(
        report(3, 14, "at end", "String needs to be closed"),
        "[line: 3, column: 14] Error at end: String needs to be closed"
    );
    assert_eq!(report(1, -1, "", ""), "[line: 1, column: -1] Error : ");
}

#[test]
fn error_names_no_place_in_the_line() {
    assert_eq!(
        error(12, 0, "Invalid character found: #"),
        "[line: 12, column: 0] Error : Invalid character found: #"
    );
}

#[test]
fn decimal_numerals() {
    for n in [0u64, 7, 10, 42, 100, 9_007_199_254_740_993, u64::MAX] {
        let mut s = String::from("n=");
        push_decimal(&mut s, n);
        assert_eq!(s, format!("n={}", n));
    }
    for n in [0i64, 5, -1, -10, 1234, i64::MAX, i64::MIN] {
        let mut s = String::new();
        push_signed_decimal(&mut s, n);
        assert_eq!(s, format!("{}", n));
    }
}

#[test]
fn operator_symbols() {
    assert_eq!(UniOpType::Minus.symbol(), "-");
    assert_eq!(UniOpType::Bang.symbol(), "!");
    let symbols: Vec<&str> = [
        BinOpType::EqualEqual,
        BinOpType::NotEqual,
        BinOpType::Less,
        BinOpType::LessEqual,
        BinOpType::Greater,
        BinOpType::GreaterEqual,
        BinOpType::Add,
        BinOpType::Sub,
        BinOpType::Mult,
        BinOpType::Div,
    ]
    .iter()
    .map(|op| op.symbol())
    .collect();
    assert_eq!(symbols, vec!["==", "!=", "<", "<=", ">", ">=", "+", "-", "*", "/"]);
}

#[test]
fn token_kind_names() {
    assert_eq!(TokenType::LeftParen.name(), "LeftParen");
    assert_eq!(TokenType::BangEqual.name(), "BangEqual");
    assert_eq!(TokenType::Identifier.name(), "Identifier");
    assert_eq!(TokenType::While.name(), "While");
    assert_eq!(TokenType::Eof.name(), "Eof");
    assert_eq!(format!("{:?}", TokenType::GreaterEqual), TokenType::GreaterEqual.name());
}

#[test]
fn token_description() {
    let token = Token {
        token_type: TokenType::String,
        lexeme: "\"h\u{e9}\"".as_bytes().to_vec(),
        literal: None,
        line: 2,
        column: 7,
    };
    assert_eq!(token.describe(), "Token { type: String, lexeme: \"\"h\u{e9}\"\", line: 2, col: 7 }");
    let broken = Token {
        token_type: TokenType::Identifier,
        lexeme: vec![0xff],
        literal: None,
        line: 1,
        column: 0,
    };
    assert_eq!(broken.describe(), "Token { type: Identifier, lexeme: \"\", line: 1, col: 0 }");
}

#[test]
fn locations() {
    let at = SourceLocation { line: 4, col: 2 };
    assert_eq!(Symbol { name: "x".to_string(), line: 4, column: 2 }.location(), at);
    assert_eq!(UnaryOp { u_type: UniOpType::Bang, line: 4, column: 2 }.location(), at);
    assert_eq!(BinaryOp { b_type: BinOpType::Add, line: 4, column: 2 }.location(), at);
    let token = Token {
        token_type: TokenType::Plus,
        lexeme: b"+".to_vec(),
        literal: None,
        line: 4,
        column: 2,
    };
    assert_eq!(token.location(), at);
}

#[test]
fn symbols_are_equal_by_name() {
    let here = Symbol { name: "x".to_string(), line: 1, column: 0 };
    let there = Symbol { name: "x".to_string(), line: 9, column: 3 };
    let other = Symbol { name: "y".to_string(), line: 1, column: 0 };
    assert!(here == there);
    assert!(here != other);
}

#[test]
fn expressions_in_parentheses() {
    let show = |source: &str| {
        let stmts =
            aprn::parser::parse(aprn::scanner::scan(source.to_string()).unwrap()).unwrap();
        match &stmts[0] {
            aprn::expr::Stmt::Expression(e) => aprn::printer::format(e),
            other => panic!("not an expression: {:?}", other),
        }
    };
    assert_eq!(show("1 + 2 * 3;"), "(1 + (2 * 3))");
    assert_eq!(show("-(1.50 - x);"), "(- (group (1.50 - x)))");
    assert_eq!(show("a = !true == null;"), "(a = ((! true) == null))");
    assert_eq!(show("\"a\" + \"b\";"), "(a + b)");
    assert_eq!(show("18446744073709551615;"), "18446744073709551615");
}
