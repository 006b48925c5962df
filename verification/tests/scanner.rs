use aprn::scanner::{scan, Error, Scanner};
use aprn::token::{Literal, Token, TokenType};

fn tokens(source: &str) -> Vec<Token> {
    match scan(source.to_string()) {
        Ok(tokens) => tokens,
        Err(e) => panic!("unexpected scan error: {:?}", e),
    }
}

fn failure(source: &str) -> Error {
    match scan(source.to_string()) {
        Ok(tokens) => panic!("unexpected tokens: {:?}", tokens),
        Err(e) => e,
    }
}

fn kinds(source: &str) -> Vec<TokenType> {
    tokens(source).iter().map(|t| t.token_type).collect()
}

fn single(source: &str, kind: TokenType) {
    let found = tokens(source);
    assert_eq!(found.len(), 2);
    assert_eq!(found[0].token_type, kind);
    assert_eq!(found[0].lexeme, source.as_bytes().to_vec());
    assert!(found[0].literal.is_none());
    assert_eq!(found[0].line, 1);
    assert_eq!(found[0].column, source.len() as i64 - 1);
    assert_eq!(found[1].token_type, TokenType::Eof);
    assert!(found[1].lexeme.is_empty());
    assert!(found[1].literal.is_none());
}

#[test]
fn single_character_tokens_round_trip() {
    single("(", TokenType::LeftParen);
    single(")", TokenType::RightParen);
    single("{", TokenType::LeftBrace);
    single("}", TokenType::RightBrace);
    single("[", TokenType::LeftBracket);
    single("]", TokenType::RightBracket);
    single(",", TokenType::Comma);
    single(".", TokenType::Dot);
    single("-", TokenType::Minus);
    single("+", TokenType::Plus);
    single(";", TokenType::Semicolon);
    single("*", TokenType::Star);
    single("/", TokenType::Slash);
}

#[test]
fn one_or_two_character_tokens_round_trip() {
    single("!", TokenType::Bang);
    single("!=", TokenType::BangEqual);
    single("=", TokenType::Equal);
    single("==", TokenType::EqualEqual);
    single("<", TokenType::Less);
    single("<=", TokenType::LessEqual);
    single(">", TokenType::Greater);
    single(">=", TokenType::GreaterEqual);
}

#[test]
fn integer_literal() {
    let found = tokens("42");
    assert_eq!(found.len(), 2);
    assert_eq!(found[0].token_type, TokenType::Int);
    assert_eq!(found[0].lexeme, b"42".to_vec());
    match &found[0].literal {
        Some(Literal::Int(n)) => assert_eq!(*n, 42),
        other => panic!("not an integer: {:?}", other),
    }
}

#[test]
fn float_literal() {
    let found = tokens("3.14");
    assert_eq!(found.len(), 2);
    assert_eq!(found[0].token_type, TokenType::Float);
    assert_eq!(found[0].lexeme, b"3.14".to_vec());
    match &found[0].literal {
        Some(Literal::Float(d)) => {
            assert_eq!(d.whole, b"3".to_vec());
            assert_eq!(d.fraction, b"14".to_vec());
            let text = format!(
                "{}.{}",
                String::from_utf8(d.whole.clone()).unwrap(),
                String::from_utf8(d.fraction.clone()).unwrap()
            );
            assert_eq!(text.parse::<f64>().unwrap(), 3.14);
        }
        other => panic!("not a float: {:?}", other),
    }
}

#[test]
fn integer_then_dot() {
    let found = tokens("3.");
    assert_eq!(found.len(), 3);
    assert_eq!(found[0].token_type, TokenType::Int);
    match &found[0].literal {
        Some(Literal::Int(n)) => assert_eq!(*n, 3),
        other => panic!("not an integer: {:?}", other),
    }
    assert_eq!(found[1].token_type, TokenType::Dot);
    assert_eq!(found[1].lexeme, b".".to_vec());
    assert_eq!(found[2].token_type, TokenType::Eof);
}

#[test]
fn largest_integer_and_beyond() {
    let found = tokens("18446744073709551615");
    match &found[0].literal {
        Some(Literal::Int(n)) => assert_eq!(*n, u64::MAX),
        other => panic!("not an integer: {:?}", other),
    }
    let e = failure("18446744073709551616");
    assert_eq!(e.what, "Integer literal is too large");
    assert_eq!(e.line, 1);
    assert_eq!(e.column, 19);
}

#[test]
fn unterminated_string() {
    let e = failure("\"abc");
    assert_eq!(e.what, "String needs to be closed");
    assert_eq!(e.line, 1);
    assert_eq!(e.column, 0);
}

#[test]
fn unterminated_string_reports_the_opening_line() {
    let e = failure("1;\n  \"abc\ndef");
    assert_eq!(e.what, "String needs to be closed");
    assert_eq!(e.line, 2);
    assert_eq!(e.column, 3);
}

#[test]
fn string_literal() {
    let found = tokens("\"a b\"");
    assert_eq!(found.len(), 2);
    assert_eq!(found[0].token_type, TokenType::String);
    assert_eq!(found[0].lexeme, b"\"a b\"".to_vec());
    match &found[0].literal {
        Some(Literal::Str(s)) => assert_eq!(s, "a b"),
        other => panic!("not a string: {:?}", other),
    }
    assert_eq!(found[0].column, 4);
}

#[test]
fn string_literal_keeps_text_beyond_ascii() {
    let found = tokens("\"h\u{e9}llo \u{4e16}\u{754c}\"");
    match &found[0].literal {
        Some(Literal::Str(s)) => assert_eq!(s, "h\u{e9}llo \u{4e16}\u{754c}"),
        other => panic!("not a string: {:?}", other),
    }
}

#[test]
fn string_literal_spans_lines() {
    let found = tokens("\"a\nb\" x");
    assert_eq!(found[0].token_type, TokenType::String);
    assert_eq!(found[0].line, 2);
    match &found[0].literal {
        Some(Literal::Str(s)) => assert_eq!(s, "a\nb"),
        other => panic!("not a string: {:?}", other),
    }
    assert_eq!(found[1].token_type, TokenType::Identifier);
    assert_eq!(found[1].line, 2);
}

#[test]
fn escape_sequences_are_rejected() {
    let e = failure("\"a\\n\"");
    assert_eq!(e.what, "Escape sequences are not supported");
    assert_eq!(e.line, 1);
    assert_eq!(e.column, 2);
}

#[test]
fn invalid_character() {
    let e = failure("1 + #");
    assert_eq!(e.what, "Invalid character found: #");
    assert_eq!(e.line, 1);
    assert_eq!(e.column, 4);
    let e = failure("_x");
    assert_eq!(e.what, "Invalid character found: _");
}

#[test]
fn first_error_wins() {
    let e = failure("@ #");
    assert_eq!(e.what, "Invalid character found: @");
    assert_eq!(e.column, 0);
}

#[test]
fn keywords_and_identifiers() {
    assert_eq!(
        kinds("and class else false for func if null or print return this true var while"),
        vec![
            TokenType::And,
            TokenType::Class,
            TokenType::Else,
            TokenType::False,
            TokenType::For,
            TokenType::Func,
            TokenType::If,
            TokenType::Null,
            TokenType::Or,
            TokenType::Print,
            TokenType::Return,
            TokenType::This,
            TokenType::True,
            TokenType::Var,
            TokenType::While,
            TokenType::Eof,
        ]
    );
    let found = tokens("variable x1 a_b");
    assert_eq!(found.len(), 4);
    for (token, name) in found.iter().zip(["variable", "x1", "a_b"]) {
        assert_eq!(token.token_type, TokenType::Identifier);
        match &token.literal {
            Some(Literal::Identifier(s)) => assert_eq!(s, name),
            other => panic!("not an identifier: {:?}", other),
        }
    }
    let found = tokens("var");
    assert!(found[0].literal.is_none());
}

#[test]
fn comments_and_blanks_yield_no_tokens() {
    assert_eq!(kinds("// nothing here"), vec![TokenType::Eof]);
    assert_eq!(
        kinds(" \t\r\n1 // one\n/ 2"),
        vec![TokenType::Int, TokenType::Slash, TokenType::Int, TokenType::Eof]
    );
}

#[test]
fn lines_and_columns() {
    let found = tokens("var x;\nprint x;");
    let places: Vec<(usize, i64)> = found.iter().map(|t| (t.line, t.column)).collect();
    assert_eq!(places, vec![(1, 2), (1, 4), (1, 5), (2, 5), (2, 7), (2, 8), (2, 8)]);
}

#[test]
fn empty_source() {
    let found = tokens("");
    assert_eq!(found.len(), 1);
    assert_eq!(found[0].token_type, TokenType::Eof);
    assert_eq!(found[0].line, 1);
    assert_eq!(found[0].column, -1);
}

#[test]
fn scanner_keeps_its_tokens() {
    let mut scanner = Scanner::default();
    let returned = scanner.scan_tokens("1 + 2".to_string());
    assert!(returned.is_empty());
}

#[test]
fn nul_bytes_are_ordinary_bytes() {
    let e = failure("a\0b");
    assert_eq!(e.what, "Invalid character found: \0");
    assert_eq!((e.line, e.column), (1, 1));
    let found = tokens("\"a\0b\" 1");
    match &found[0].literal {
        Some(Literal::Str(s)) => assert_eq!(s, "a\0b"),
        other => panic!("not a string: {:?}", other),
    }
    assert_eq!(found[1].token_type, TokenType::Int);
    assert_eq!(kinds("// a\0b\n1"), vec![TokenType::Int, TokenType::Eof]);
    let e = failure("12\0");
    assert_eq!(e.what, "Invalid character found: \0");
    assert_eq!((e.line, e.column), (1, 2));
}

#[test]
fn text_beyond_ascii_outside_strings_is_rejected() {
    let e = failure("x = \u{e9};");
    assert_eq!(e.what, "Invalid character found: \u{c3}");
    assert_eq!((e.line, e.column), (1, 4));
}

#[test]
fn numerals_next_to_words_and_points() {
    assert_eq!(
        kinds("1.5.2 7x x7 .5"),
        vec![
            TokenType::Float,
            TokenType::Dot,
            TokenType::Int,
            TokenType::Int,
            TokenType::Identifier,
            TokenType::Identifier,
            TokenType::Dot,
            TokenType::Int,
            TokenType::Eof,
        ]
    );
    let found = tokens("007 0.50");
    match &found[0].literal {
        Some(Literal::Int(n)) => assert_eq!(*n, 7),
        other => panic!("not an integer: {:?}", other),
    }
    match &found[1].literal {
        Some(Literal::Float(d)) => {
            assert_eq!(d.whole, b"0".to_vec());
            assert_eq!(d.fraction, b"50".to_vec());
        }
        other => panic!("not a float: {:?}", other),
    }
}
