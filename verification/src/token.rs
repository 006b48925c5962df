//! Tokens: the classified, position-tagged units that the scanner produces
//! and the parser consumes.

use vstd::prelude::*;
use vstd::slice::slice_to_vec;
use vstd::string::StringExecFns;
use vstd::utf8::{decode_utf8, valid_utf8};
use crate::expr::SourceLocation;
use crate::text::{decimal, decode_text, push_decimal, push_signed_decimal, signed_decimal};

verus! {

/// The closed set of token kinds.
#[derive(Debug, Clone, Copy, PartialEq, Eq, Structural)]
pub enum TokenType {
    // Single-character tokens.
    LeftParen,
    RightParen,
    LeftBracket,
    RightBracket,
    LeftBrace,
    RightBrace,
    Comma,
    Dot,
    Minus,
    Plus,
    Semicolon,
    Slash,
    Star,
    // One or two character tokens.
    Bang,
    BangEqual,
    Equal,
    EqualEqual,
    Greater,
    GreaterEqual,
    Less,
    LessEqual,
    // Literals.
    Identifier,
    String,
    Int,
    Float,
    // Keywords.
    And,
    Class,
    Else,
    False,
    Func,
    For,
    If,
    Null,
    Or,
    Print,
    Return,
    This,
    True,
    Var,
    While,
    Eof,
}

/// The byte `b` is an ASCII decimal digit.
pub open spec fn is_digit(b: u8) -> bool {
    48 <= b <= 57
}

/// Every byte of `s` is an ASCII decimal digit.
pub open spec fn all_digits(s: Seq<u8>) -> bool {
    forall|i: int| 0 <= i < s.len() ==> is_digit(#[trigger] s[i])
}

/// A decimal numeral with a fractional part, kept as written: the ASCII
/// digits before the point and the ASCII digits after it.
///
/// It denotes the rational number `digits(whole ++ fraction) / 10^len(fraction)`.
#[derive(Debug, PartialEq, Eq)]
pub struct Decimal {
    pub whole: Vec<u8>,
    pub fraction: Vec<u8>,
}

/// The mathematical content of a [`Decimal`].
pub struct DecimalView {
    pub whole: Seq<u8>,
    pub fraction: Seq<u8>,
}

impl DecimalView {
    /// Both parts are non-empty runs of ASCII digits.
    pub open spec fn well_formed(self) -> bool {
        &&& self.whole.len() > 0
        &&& self.fraction.len() > 0
        &&& all_digits(self.whole)
        &&& all_digits(self.fraction)
    }
}

impl View for Decimal {
    type V = DecimalView;

    open spec fn view(&self) -> DecimalView {
        DecimalView { whole: self.whole@, fraction: self.fraction@ }
    }
}

impl Clone for Decimal {
    fn clone(&self) -> (r: Self)
        ensures
            r@ == self@,
    {
        Decimal {
            whole: slice_to_vec(self.whole.as_slice()),
            fraction: slice_to_vec(self.fraction.as_slice()),
        }
    }
}

/// The value that the scanner attaches to a literal token.
#[derive(Debug)]
pub enum Literal {
    Identifier(String),
    Str(String),
    Int(u64),
    Float(Decimal),
}

/// The mathematical content of a [`Literal`].
pub enum LiteralView {
    Identifier(Seq<char>),
    Str(Seq<char>),
    Int(u64),
    Float(DecimalView),
}

impl View for Literal {
    type V = LiteralView;

    open spec fn view(&self) -> LiteralView {
        match self {
            Literal::Identifier(name) => LiteralView::Identifier(name@),
            Literal::Str(text) => LiteralView::Str(text@),
            Literal::Int(n) => LiteralView::Int(*n),
            Literal::Float(d) => LiteralView::Float(d@),
        }
    }
}

impl Clone for Literal {
    fn clone(&self) -> (r: Self)
        ensures
            r@ == self@,
    {
        match self {
            Literal::Identifier(name) => Literal::Identifier(name.clone()),
            Literal::Str(text) => Literal::Str(text.clone()),
            Literal::Int(n) => Literal::Int(*n),
            Literal::Float(d) => Literal::Float(d.clone()),
        }
    }
}

/// The view of an optional literal.
pub open spec fn literal_view(literal: Option<Literal>) -> Option<LiteralView> {
    match literal {
        Some(l) => Some(l@),
        None => None,
    }
}

/// A token: its kind, the exact bytes it was scanned from, the literal value
/// if it has one, and the line and column at which it ends.
#[derive(Debug)]
pub struct Token {
    pub token_type: TokenType,
    pub lexeme: Vec<u8>,
    pub literal: Option<Literal>,
    pub line: usize,
    pub column: i64,
}

/// The mathematical content of a [`Token`].
pub struct TokenView {
    pub token_type: TokenType,
    pub lexeme: Seq<u8>,
    pub literal: Option<LiteralView>,
    pub line: int,
    pub column: int,
}

impl TokenView {
    /// A literal token carries the literal that its kind announces, and a
    /// decimal numeral has digits on both sides of the point.
    pub open spec fn well_formed(self) -> bool {
        &&& self.token_type == TokenType::Identifier ==> (self.literal is Some
            && self.literal->0 is Identifier)
        &&& self.token_type == TokenType::String ==> (self.literal is Some
            && self.literal->0 is Str)
        &&& self.token_type == TokenType::Int ==> (self.literal is Some && self.literal->0 is Int)
        &&& self.token_type == TokenType::Float ==> (self.literal is Some
            && self.literal->0 is Float && self.literal->0->Float_0.well_formed())
    }
}

impl View for Token {
    type V = TokenView;

    open spec fn view(&self) -> TokenView {
        TokenView {
            token_type: self.token_type,
            lexeme: self.lexeme@,
            literal: literal_view(self.literal),
            line: self.line as int,
            column: self.column as int,
        }
    }
}

impl Clone for Token {
    fn clone(&self) -> (r: Self)
        ensures
            r@ == self@,
    {
        let literal = match &self.literal {
            Some(l) => Some(l.clone()),
            None => None,
        };
        Token {
            token_type: self.token_type,
            lexeme: slice_to_vec(self.lexeme.as_slice()),
            literal,
            line: self.line,
            column: self.column,
        }
    }
}

/// The views of a run of tokens, in order.
pub open spec fn token_views(tokens: Seq<Token>) -> Seq<TokenView> {
    tokens.map_values(|t: Token| t@)
}

/// A complete token stream: it is not empty, it ends with the end-of-file
/// marker, and each literal token carries its literal.
pub open spec fn well_formed_stream(tokens: Seq<TokenView>) -> bool {
    &&& tokens.len() > 0
    &&& tokens.last().token_type == TokenType::Eof
    &&& forall|i: int| 0 <= i < tokens.len() ==> (#[trigger] tokens[i]).well_formed()
}

/// A token stream that the parser can walk: it is not empty and it ends with
/// the end-of-file marker.
pub open spec fn closed_stream(tokens: Seq<Token>) -> bool {
    tokens.len() > 0 && tokens.last().token_type == TokenType::Eof
}


/// The name of a token kind.
pub open spec fn kind_name(kind: TokenType) -> Seq<char> {
    match kind {
        TokenType::LeftParen => "LeftParen"@,
        TokenType::RightParen => "RightParen"@,
        TokenType::LeftBracket => "LeftBracket"@,
        TokenType::RightBracket => "RightBracket"@,
        TokenType::LeftBrace => "LeftBrace"@,
        TokenType::RightBrace => "RightBrace"@,
        TokenType::Comma => "Comma"@,
        TokenType::Dot => "Dot"@,
        TokenType::Minus => "Minus"@,
        TokenType::Plus => "Plus"@,
        TokenType::Semicolon => "Semicolon"@,
        TokenType::Slash => "Slash"@,
        TokenType::Star => "Star"@,
        TokenType::Bang => "Bang"@,
        TokenType::BangEqual => "BangEqual"@,
        TokenType::Equal => "Equal"@,
        TokenType::EqualEqual => "EqualEqual"@,
        TokenType::Greater => "Greater"@,
        TokenType::GreaterEqual => "GreaterEqual"@,
        TokenType::Less => "Less"@,
        TokenType::LessEqual => "LessEqual"@,
        TokenType::Identifier => "Identifier"@,
        TokenType::String => "String"@,
        TokenType::Int => "Int"@,
        TokenType::Float => "Float"@,
        TokenType::And => "And"@,
        TokenType::Class => "Class"@,
        TokenType::Else => "Else"@,
        TokenType::False => "False"@,
        TokenType::Func => "Func"@,
        TokenType::For => "For"@,
        TokenType::If => "If"@,
        TokenType::Null => "Null"@,
        TokenType::Or => "Or"@,
        TokenType::Print => "Print"@,
        TokenType::Return => "Return"@,
        TokenType::This => "This"@,
        TokenType::True => "True"@,
        TokenType::Var => "Var"@,
        TokenType::While => "While"@,
        TokenType::Eof => "Eof"@,
    }
}

impl TokenType {
    /// The name of the kind, as it appears in messages.
    pub fn name(&self) -> (text: &'static str)
        ensures
            text@ == kind_name(*self),
    {
        match self {
            TokenType::LeftParen => "LeftParen",
            TokenType::RightParen => "RightParen",
            TokenType::LeftBracket => "LeftBracket",
            TokenType::RightBracket => "RightBracket",
            TokenType::LeftBrace => "LeftBrace",
            TokenType::RightBrace => "RightBrace",
            TokenType::Comma => "Comma",
            TokenType::Dot => "Dot",
            TokenType::Minus => "Minus",
            TokenType::Plus => "Plus",
            TokenType::Semicolon => "Semicolon",
            TokenType::Slash => "Slash",
            TokenType::Star => "Star",
            TokenType::Bang => "Bang",
            TokenType::BangEqual => "BangEqual",
            TokenType::Equal => "Equal",
            TokenType::EqualEqual => "EqualEqual",
            TokenType::Greater => "Greater",
            TokenType::GreaterEqual => "GreaterEqual",
            TokenType::Less => "Less",
            TokenType::LessEqual => "LessEqual",
            TokenType::Identifier => "Identifier",
            TokenType::String => "String",
            TokenType::Int => "Int",
            TokenType::Float => "Float",
            TokenType::And => "And",
            TokenType::Class => "Class",
            TokenType::Else => "Else",
            TokenType::False => "False",
            TokenType::Func => "Func",
            TokenType::For => "For",
            TokenType::If => "If",
            TokenType::Null => "Null",
            TokenType::Or => "Or",
            TokenType::Print => "Print",
            TokenType::Return => "Return",
            TokenType::This => "This",
            TokenType::True => "True",
            TokenType::Var => "Var",
            TokenType::While => "While",
            TokenType::Eof => "Eof",
        }
    }
}

/// The text of a lexeme: what its bytes spell, or nothing when they are not
/// UTF-8.
pub open spec fn lexeme_text(lexeme: Seq<u8>) -> Seq<char> {
    if valid_utf8(lexeme) {
        decode_utf8(lexeme)
    } else {
        Seq::empty()
    }
}

/// The description of a token: its kind, its lexeme and its place.
pub open spec fn token_text(t: TokenView) -> Seq<char> {
    "Token { type: "@ + kind_name(t.token_type) + ", lexeme: \""@ + lexeme_text(t.lexeme)
        + "\", line: "@ + decimal(t.line as nat) + ", col: "@ + signed_decimal(t.column) + " }"@
}

impl Token {
    /// Describes the token for a message: its kind, its lexeme and its
    /// place.
    pub fn describe(&self) -> (text: String)
        ensures
            text@ == token_text(self@),
    {
        let mut text = String::from_str("Token { type: ");
        text.append(self.token_type.name());
        text.append(", lexeme: \"");
        match decode_text(slice_to_vec(self.lexeme.as_slice())) {
            Some(lexeme) => text.append(lexeme.as_str()),
            None => {
                assert(text@ + Seq::<char>::empty() =~= text@);
            },
        }
        text.append("\", line: ");
        push_decimal(&mut text, self.line as u64);
        text.append(", col: ");
        push_signed_decimal(&mut text, self.column);
        text.append(" }");
        text
    }

    /// Where the token ends.
    pub fn location(&self) -> (at: SourceLocation)
        ensures
            at == (SourceLocation { line: self.line, col: self.column }),
    {
        SourceLocation { line: self.line, col: self.column }
    }
}

} // verus!
