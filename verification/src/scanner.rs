//! The scanner: one left-to-right pass over the bytes of the source text
//! that produces the token stream, or the first lexical error.

use vstd::prelude::*;
use vstd::hash_map::StringHashMap;
use vstd::slice::{slice_subrange, slice_to_vec};
use vstd::string::StringExecFns;
use vstd::string::StrSliceExecFns;
use vstd::utf8::{
    decode_utf8, encode_utf8_valid_utf8, is_char_boundary_iff_not_is_continuation_byte,
    pop_first_scalar, valid_utf8, valid_utf8_split,
};
use crate::text::{ascii_text, decode_text, push_bytes};
use crate::token::{
    all_digits, closed_stream, is_digit, token_views, well_formed_stream, Decimal, DecimalView,
    Literal, LiteralView, Token, TokenType, TokenView,
};

verus! {

/// A lexical error: what went wrong, and where.
#[derive(Debug)]
pub struct Error {
    pub what: String,
    pub line: usize,
    pub column: i64,
}

/// The mathematical content of an [`Error`].
pub struct ErrorView {
    pub what: Seq<char>,
    pub line: int,
    pub column: int,
}

impl View for Error {
    type V = ErrorView;

    open spec fn view(&self) -> ErrorView {
        ErrorView { what: self.what@, line: self.line as int, column: self.column as int }
    }
}

// ---------------------------------------------------------------------------
// What scanning means
// ---------------------------------------------------------------------------

/// A place in the source: the index of the next byte, the current line, and
/// the column of the byte consumed last (-1 before the first byte of the
/// text, 0 just after a line break).
pub struct Cursor {
    pub pos: int,
    pub line: int,
    pub column: int,
}

/// The byte `b` is an ASCII letter.
pub open spec fn is_letter(b: u8) -> bool {
    65 <= b <= 90 || 97 <= b <= 122
}

/// The byte `b` may continue an identifier: a letter, a digit or `_`.
pub open spec fn is_word_byte(b: u8) -> bool {
    is_letter(b) || is_digit(b) || b == 95
}

/// The kinds of byte runs that the scanner consumes greedily.
pub enum Run {
    /// Decimal digits.
    Digits,
    /// Letters, digits and underscores.
    Word,
    /// Anything up to the end of the line.
    Comment,
    /// Anything up to a double quote or a backslash.
    Quoted,
}

/// The byte `b` belongs to a run of the given kind.
pub open spec fn in_run(run: Run, b: u8) -> bool {
    match run {
        Run::Digits => is_digit(b),
        Run::Word => is_word_byte(b),
        Run::Comment => b != 10,
        Run::Quoted => b != 34 && b != 92,
    }
}

/// The end of the longest run of the given kind that starts at `from`: the
/// first index at or after `from` whose byte is not in the run, or the
/// length of the source.
pub open spec fn run_end(src: Seq<u8>, from: int, run: Run) -> int
    decreases src.len() - from,
{
    if 0 <= from < src.len() && in_run(run, src[from]) {
        run_end(src, from + 1, run)
    } else {
        from
    }
}

/// The number of line breaks among the bytes from `from` up to `to`.
pub open spec fn line_breaks(src: Seq<u8>, from: int, to: int) -> int
    decreases to - from,
{
    if 0 <= from < to <= src.len() {
        line_breaks(src, from, to - 1) + if src[to - 1] == 10 {
            1int
        } else {
            0int
        }
    } else {
        0
    }
}

/// The number that a run of ASCII digits denotes.
pub open spec fn digits_value(digits: Seq<u8>) -> nat
    decreases digits.len(),
{
    if digits.len() == 0 {
        0
    } else {
        (digits_value(digits.drop_last()) * 10 + (digits.last() - 48)) as nat
    }
}

/// The reserved words and the token kind of each.
pub open spec fn keyword_table() -> Map<Seq<char>, TokenType> {
    Map::<Seq<char>, TokenType>::empty().insert(
        "and"@,
        TokenType::And,
    ).insert(
        "class"@,
        TokenType::Class,
    ).insert(
        "else"@,
        TokenType::Else,
    ).insert(
        "false"@,
        TokenType::False,
    ).insert(
        "for"@,
        TokenType::For,
    ).insert(
        "func"@,
        TokenType::Func,
    ).insert(
        "if"@,
        TokenType::If,
    ).insert(
        "null"@,
        TokenType::Null,
    ).insert(
        "or"@,
        TokenType::Or,
    ).insert(
        "print"@,
        TokenType::Print,
    ).insert(
        "return"@,
        TokenType::Return,
    ).insert(
        "this"@,
        TokenType::This,
    ).insert(
        "true"@,
        TokenType::True,
    ).insert(
        "var"@,
        TokenType::Var,
    ).insert(
        "while"@,
        TokenType::While,
    )
}

/// The token kind of a reserved word, or `None` for any other word.
pub open spec fn keyword(word: Seq<char>) -> Option<TokenType> {
    if keyword_table().contains_key(word) {
        Some(keyword_table()[word])
    } else {
        None
    }
}

/// What the scanner makes of the text at one place.
pub enum Lexed {
    /// A token.
    Token(TokenView),
    /// Blank space, a line break or a comment: no token.
    Nothing,
    /// A lexical error.
    Failure(ErrorView),
}

/// The outcome of one scanning step and the place where the next one starts.
pub struct Step {
    pub lexed: Lexed,
    pub next: Cursor,
}

/// The place reached from `at` after consuming `n` bytes that hold no line
/// break.
pub open spec fn ahead(at: Cursor, n: int) -> Cursor {
    Cursor { pos: at.pos + n, line: at.line, column: at.column + n }
}

/// A token of `n` bytes without a literal value, none of them a line break.
pub open spec fn plain(src: Seq<u8>, at: Cursor, kind: TokenType, n: int) -> Step {
    Step {
        lexed: Lexed::Token(
            TokenView {
                token_type: kind,
                lexeme: src.subrange(at.pos, at.pos + n),
                literal: None,
                line: at.line,
                column: at.column + n,
            },
        ),
        next: ahead(at, n),
    }
}

/// A lexical error with the given message and position.
pub open spec fn failure(what: Seq<char>, line: int, column: int, next: Cursor) -> Step {
    Step { lexed: Lexed::Failure(ErrorView { what, line, column }), next }
}

/// The byte at `pos` exists and is the character `c`.
pub open spec fn holds(src: Seq<u8>, pos: int, c: char) -> bool {
    0 <= pos < src.len() && src[pos] as char == c
}

/// An operator of one character that becomes another when `=` follows.
pub open spec fn operator(src: Seq<u8>, at: Cursor, long: TokenType, short: TokenType) -> Step {
    if holds(src, at.pos + 1, '=') {
        plain(src, at, long, 2)
    } else {
        plain(src, at, short, 1)
    }
}

/// A string literal that opens at `at`: it runs to the next double quote and
/// may span lines. It fails when the text ends first, and when a backslash
/// comes first: escape sequences are not part of the language.
pub open spec fn lex_string(src: Seq<u8>, at: Cursor) -> Step {
    let close = run_end(src, at.pos + 1, Run::Quoted);
    let line = at.line + line_breaks(src, at.pos + 1, close);
    if close >= src.len() {
        failure("String needs to be closed"@, at.line, at.column + 1, ahead(at, close - at.pos))
    } else if src[close] == 92 {
        failure(
            "Escape sequences are not supported"@,
            line,
            at.column + (close - at.pos) + 1,
            ahead(at, close - at.pos),
        )
    } else {
        let next = Cursor { pos: close + 1, line, column: at.column + (close + 1 - at.pos) };
        Step {
            lexed: Lexed::Token(
                TokenView {
                    token_type: TokenType::String,
                    lexeme: src.subrange(at.pos, close + 1),
                    literal: Some(LiteralView::Str(decode_utf8(src.subrange(at.pos + 1, close)))),
                    line: next.line,
                    column: next.column,
                },
            ),
            next,
        }
    }
}

/// A numeric literal that starts at `at`: the longest run of digits, and, if
/// a point and at least one more digit follow, the fraction as well. A
/// numeral without a fraction is an integer, which must fit in 64 bits.
pub open spec fn lex_number(src: Seq<u8>, at: Cursor) -> Step {
    let point = run_end(src, at.pos, Run::Digits);
    if holds(src, point, '.') && point + 1 < src.len() && is_digit(src[point + 1]) {
        let end = run_end(src, point + 1, Run::Digits);
        let next = ahead(at, end - at.pos);
        Step {
            lexed: Lexed::Token(
                TokenView {
                    token_type: TokenType::Float,
                    lexeme: src.subrange(at.pos, end),
                    literal: Some(
                        LiteralView::Float(
                            DecimalView {
                                whole: src.subrange(at.pos, point),
                                fraction: src.subrange(point + 1, end),
                            },
                        ),
                    ),
                    line: next.line,
                    column: next.column,
                },
            ),
            next,
        }
    } else {
        let next = ahead(at, point - at.pos);
        let value = digits_value(src.subrange(at.pos, point));
        if value <= u64::MAX {
            Step {
                lexed: Lexed::Token(
                    TokenView {
                        token_type: TokenType::Int,
                        lexeme: src.subrange(at.pos, point),
                        literal: Some(LiteralView::Int(value as u64)),
                        line: next.line,
                        column: next.column,
                    },
                ),
                next,
            }
        } else {
            failure("Integer literal is too large"@, next.line, next.column, next)
        }
    }
}

/// A word that starts at `at`: the longest run of letters, digits and
/// underscores. A reserved word gives its keyword token; any other word is
/// an identifier, whose literal is its name.
pub open spec fn lex_word(src: Seq<u8>, at: Cursor) -> Step {
    let end = run_end(src, at.pos, Run::Word);
    let next = ahead(at, end - at.pos);
    let name = ascii_text(src.subrange(at.pos, end));
    Step {
        lexed: Lexed::Token(
            TokenView {
                token_type: match keyword(name) {
                    Some(kind) => kind,
                    None => TokenType::Identifier,
                },
                lexeme: src.subrange(at.pos, end),
                literal: match keyword(name) {
                    Some(_) => None,
                    None => Some(LiteralView::Identifier(name)),
                },
                line: next.line,
                column: next.column,
            },
        ),
        next,
    }
}

/// One scanning step at `at`, which must lie inside the source.
pub open spec fn lex(src: Seq<u8>, at: Cursor) -> Step {
    let b = src[at.pos];
    let c = b as char;
    if c == '(' {
        plain(src, at, TokenType::LeftParen, 1)
    } else if c == ')' {
        plain(src, at, TokenType::RightParen, 1)
    } else if c == '{' {
        plain(src, at, TokenType::LeftBrace, 1)
    } else if c == '}' {
        plain(src, at, TokenType::RightBrace, 1)
    } else if c == '[' {
        plain(src, at, TokenType::LeftBracket, 1)
    } else if c == ']' {
        plain(src, at, TokenType::RightBracket, 1)
    } else if c == ',' {
        plain(src, at, TokenType::Comma, 1)
    } else if c == '.' {
        plain(src, at, TokenType::Dot, 1)
    } else if c == '-' {
        plain(src, at, TokenType::Minus, 1)
    } else if c == '+' {
        plain(src, at, TokenType::Plus, 1)
    } else if c == ';' {
        plain(src, at, TokenType::Semicolon, 1)
    } else if c == '*' {
        plain(src, at, TokenType::Star, 1)
    } else if c == '!' {
        operator(src, at, TokenType::BangEqual, TokenType::Bang)
    } else if c == '=' {
        operator(src, at, TokenType::EqualEqual, TokenType::Equal)
    } else if c == '<' {
        operator(src, at, TokenType::LessEqual, TokenType::Less)
    } else if c == '>' {
        operator(src, at, TokenType::GreaterEqual, TokenType::Greater)
    } else if c == '/' {
        if holds(src, at.pos + 1, '/') {
            // a comment runs to the end of the line
            Step {
                lexed: Lexed::Nothing,
                next: ahead(at, run_end(src, at.pos + 2, Run::Comment) - at.pos),
            }
        } else {
            plain(src, at, TokenType::Slash, 1)
        }
    } else if c == ' ' || c == '\r' || c == '\t' {
        Step { lexed: Lexed::Nothing, next: ahead(at, 1) }
    } else if c == '\n' {
        Step {
            lexed: Lexed::Nothing,
            next: Cursor { pos: at.pos + 1, line: at.line + 1, column: 0 },
        }
    } else if c == '"' {
        lex_string(src, at)
    } else if is_digit(b) {
        lex_number(src, at)
    } else if is_letter(b) {
        lex_word(src, at)
    } else {
        failure("Invalid character found: "@.push(c), at.line, at.column + 1, ahead(at, 1))
    }
}

/// A run ends at or after its start and inside the source.
pub proof fn lemma_run_end_bounds(src: Seq<u8>, from: int, run: Run)
    requires
        0 <= from <= src.len(),
    ensures
        from <= run_end(src, from, run) <= src.len(),
        forall|i: int| from <= i < run_end(src, from, run) ==> in_run(run, #[trigger] src[i]),
        run_end(src, from, run) < src.len() ==> !in_run(run, src[run_end(src, from, run)]),
    decreases src.len() - from,
{
    if from < src.len() && in_run(run, src[from]) {
        lemma_run_end_bounds(src, from + 1, run);
    }
}

/// Every scanning step inside the source moves forward and stays inside it.
pub proof fn lemma_lex_advances(src: Seq<u8>, at: Cursor)
    requires
        0 <= at.pos < src.len(),
    ensures
        at.pos < lex(src, at).next.pos <= src.len(),
{
    lemma_run_end_bounds(src, at.pos + 1, Run::Quoted);
    lemma_run_end_bounds(src, at.pos, Run::Digits);
    lemma_run_end_bounds(src, at.pos, Run::Word);
    let point = run_end(src, at.pos, Run::Digits);
    if point + 1 <= src.len() {
        lemma_run_end_bounds(src, point + 1, Run::Digits);
    }
    if at.pos + 2 <= src.len() {
        lemma_run_end_bounds(src, at.pos + 2, Run::Comment);
    }
}

/// The end-of-file marker at a place: no lexeme, no literal.
pub open spec fn eof_token(at: Cursor) -> TokenView {
    TokenView {
        token_type: TokenType::Eof,
        lexeme: Seq::empty(),
        literal: None,
        line: at.line,
        column: at.column,
    }
}

/// The tokens of the source from `at` on, closed by the end-of-file marker,
/// or the first lexical error.
pub open spec fn scan_from(src: Seq<u8>, at: Cursor) -> Result<Seq<TokenView>, ErrorView>
    decreases src.len() - at.pos,
{
    if 0 <= at.pos < src.len() {
        let step = lex(src, at);
        proof {
            lemma_lex_advances(src, at);
        }
        match step.lexed {
            Lexed::Failure(e) => Err(e),
            Lexed::Nothing => scan_from(src, step.next),
            Lexed::Token(t) => match scan_from(src, step.next) {
                Ok(rest) => Ok(seq![t] + rest),
                Err(e) => Err(e),
            },
        }
    } else {
        Ok(seq![eof_token(at)])
    }
}

/// The place where scanning starts: before the first byte, on line 1.
pub open spec fn origin() -> Cursor {
    Cursor { pos: 0, line: 1, column: -1 }
}

/// The position counters can follow a source of this length.
pub open spec fn fits(len: nat) -> bool {
    len < usize::MAX && len < i64::MAX
}

/// The token stream of a source text, or its first lexical error. A source
/// too long for the position counters is an error as a whole.
pub open spec fn scan_spec(src: Seq<u8>) -> Result<Seq<TokenView>, ErrorView> {
    if fits(src.len()) {
        scan_from(src, origin())
    } else {
        Err(ErrorView { what: "Source is too long"@, line: 1, column: -1 })
    }
}


// ---------------------------------------------------------------------------
// The scanner
// ---------------------------------------------------------------------------

/// The view of an optional error.
pub open spec fn error_view(err: Option<Error>) -> Option<ErrorView> {
    match err {
        Some(e) => Some(e@),
        None => None,
    }
}

/// A prefix of tokens followed by the outcome of scanning the rest.
pub open spec fn joined(prefix: Seq<TokenView>, rest: Result<Seq<TokenView>, ErrorView>) -> Result<
    Seq<TokenView>,
    ErrorView,
> {
    match rest {
        Ok(tokens) => Ok(prefix + tokens),
        Err(e) => Err(e),
    }
}

/// In a source that is UTF-8, what stands between two double quotes is
/// UTF-8 too: a quote is a character of one byte, so both quotes lie on
/// character boundaries.
pub proof fn lemma_quoted_text_is_utf8(src: Seq<u8>, open: int, close: int)
    requires
        valid_utf8(src),
        0 <= open < close < src.len(),
        src[open] == 34,
        src[close] == 34,
    ensures
        valid_utf8(src.subrange(open + 1, close)),
{
    let end = src.len() as int;
    is_char_boundary_iff_not_is_continuation_byte(src, open);
    valid_utf8_split(src, open);
    let tail = src.subrange(open, end);
    assert(tail[0] == 34);
    assert(pop_first_scalar(tail) =~= src.subrange(open + 1, end));
    let rest = src.subrange(open + 1, end);
    assert(valid_utf8(rest));
    assert(rest[close - open - 1] == 34);
    is_char_boundary_iff_not_is_continuation_byte(rest, close - open - 1);
    valid_utf8_split(rest, close - open - 1);
    assert(rest.subrange(0, close - open - 1) =~= src.subrange(open + 1, close));
}

/// A prefix of a run of digits denotes no more than the whole run.
proof fn lemma_digits_value_grows(digits: Seq<u8>, k: int)
    requires
        0 <= k <= digits.len(),
        all_digits(digits),
    ensures
        digits_value(digits.subrange(0, k)) <= digits_value(digits),
    decreases digits.len() - k,
{
    if k < digits.len() {
        let shorter = digits.drop_last();
        lemma_digits_value_grows(shorter, k);
        assert(shorter.subrange(0, k) =~= digits.subrange(0, k));
    } else {
        assert(digits.subrange(0, k) =~= digits);
    }
}

fn is_ascii_digit(c: char) -> (r: bool)
    ensures
        r == ('0' <= c <= '9'),
{
    '0' <= c && c <= '9'
}

fn is_ascii_letter(c: char) -> (r: bool)
    ensures
        r == ('A' <= c <= 'Z' || 'a' <= c <= 'z'),
{
    ('A' <= c && c <= 'Z') || ('a' <= c && c <= 'z')
}

fn is_word_char(c: char) -> (r: bool)
    ensures
        r == ('A' <= c <= 'Z' || 'a' <= c <= 'z' || '0' <= c <= '9' || c == '_'),
{
    is_ascii_letter(c) || is_ascii_digit(c) || c == '_'
}

/// The value of the digits of `src` from `from` up to `to`, or `None` when
/// it does not fit in 64 bits.
fn parse_integer(src: &Vec<u8>, from: usize, to: usize) -> (r: Option<u64>)
    requires
        from <= to <= src.len(),
        all_digits(src@.subrange(from as int, to as int)),
    ensures
        match r {
            Some(v) => v == digits_value(src@.subrange(from as int, to as int)),
            None => digits_value(src@.subrange(from as int, to as int)) > u64::MAX,
        },
{
    let ghost digits = src@.subrange(from as int, to as int);
    let mut value: u64 = 0;
    let mut i: usize = from;
    while i < to
        invariant
            from <= i <= to <= src.len(),
            digits == src@.subrange(from as int, to as int),
            all_digits(digits),
            value == digits_value(digits.subrange(0, i - from)),
        decreases to - i,
    {
        assert(is_digit(digits[i - from]));
        let d: u64 = (src[i] - 48) as u64;
        proof {
            let longer = digits.subrange(0, i - from + 1);
            assert(longer.drop_last() =~= digits.subrange(0, i - from));
            assert(digits_value(longer) == value * 10 + d);
            lemma_digits_value_grows(digits, i - from + 1);
        }
        if value > (u64::MAX - d) / 10 {
            return None;
        }
        value = value * 10 + d;
        i += 1;
    }
    assert(digits.subrange(0, i - from) =~= digits);
    Some(value)
}

/// The state of one pass over a source text.
pub struct Scanner {
    source: Vec<u8>,
    tokens: Vec<Token>,
    err: Option<Error>,
    start: usize,
    current: usize,
    line: usize,
    column: i64,
    keywords: StringHashMap<TokenType>,
}

impl Default for Scanner {
    /// A scanner that has seen no text yet, with the table of reserved words.
    fn default() -> (scanner: Scanner)
        ensures
            scanner.well_formed(),
            scanner.outcome() == Ok::<Seq<TokenView>, ErrorView>(Seq::empty()),
    {
        // the table of reserved words
        let mut keywords: StringHashMap<TokenType> = StringHashMap::new();
        keywords.insert(String::from_str("and"), TokenType::And);
        keywords.insert(String::from_str("class"), TokenType::Class);
        keywords.insert(String::from_str("else"), TokenType::Else);
        keywords.insert(String::from_str("false"), TokenType::False);
        keywords.insert(String::from_str("for"), TokenType::For);
        keywords.insert(String::from_str("func"), TokenType::Func);
        keywords.insert(String::from_str("if"), TokenType::If);
        keywords.insert(String::from_str("null"), TokenType::Null);
        keywords.insert(String::from_str("or"), TokenType::Or);
        keywords.insert(String::from_str("print"), TokenType::Print);
        keywords.insert(String::from_str("return"), TokenType::Return);
        keywords.insert(String::from_str("this"), TokenType::This);
        keywords.insert(String::from_str("true"), TokenType::True);
        keywords.insert(String::from_str("var"), TokenType::Var);
        keywords.insert(String::from_str("while"), TokenType::While);
        let scanner = Scanner {
            source: Vec::new(),
            tokens: Vec::new(),
            err: None,
            start: 0,
            current: 0,
            line: 1,
            column: -1,
            keywords,
        };
        assert(token_views(scanner.tokens@) =~= Seq::empty());
        scanner
    }
}

impl Scanner {
    /// The scanner holds the table of reserved words.
    pub closed spec fn well_formed(&self) -> bool {
        self.keywords@ == keyword_table()
    }

    /// What the scanner has found: the tokens so far, or the error that
    /// stopped it.
    pub closed spec fn outcome(&self) -> Result<Seq<TokenView>, ErrorView> {
        match self.err {
            Some(e) => Err(e@),
            None => Ok(token_views(self.tokens@)),
        }
    }

    spec fn cursor(&self) -> Cursor {
        Cursor { pos: self.current as int, line: self.line as int, column: self.column as int }
    }

    /// The source is text, and the counters are consistent with the number
    /// of bytes consumed.
    spec fn inv(&self) -> bool {
        &&& self.well_formed()
        &&& valid_utf8(self.source@)
        &&& fits(self.source@.len())
        &&& self.start <= self.current <= self.source.len()
        &&& -1 <= self.column < self.current
        &&& 1 <= self.line <= self.current + 1
    }

    /// Only the position has changed, by `n` bytes on the same line.
    spec fn moved(&self, before: &Scanner, n: int) -> bool {
        &&& self.source == before.source
        &&& self.tokens == before.tokens
        &&& self.err == before.err
        &&& self.start == before.start
        &&& self.keywords == before.keywords
        &&& self.line == before.line
        &&& self.current == before.current + n
        &&& self.column == before.column + n
    }

    /// The scanner has carried out `step` from the state `before`.
    spec fn follows(&self, before: &Scanner, step: Step) -> bool {
        &&& self.source == before.source
        &&& self.keywords == before.keywords
        &&& match step.lexed {
            Lexed::Token(t) => {
                &&& token_views(self.tokens@) == token_views(before.tokens@).push(t)
                &&& self.err is None
                &&& self.cursor() == step.next
            },
            Lexed::Nothing => {
                &&& self.tokens == before.tokens
                &&& self.err is None
                &&& self.cursor() == step.next
            },
            Lexed::Failure(e) => {
                &&& self.tokens == before.tokens
                &&& error_view(self.err) == Some(e)
            },
        }
    }

    /// The place where the lexeme under construction starts, given that
    /// `n` bytes of it on the same line have been consumed.
    spec fn lexeme_start(&self, n: int) -> Cursor {
        Cursor { pos: self.start as int, line: self.line as int, column: self.column - n }
    }

    /// Scans `input` from its first byte to its end, or to the first lexical
    /// error. The tokens, closed by the end-of-file marker, or the error stay
    /// with the scanner, as `outcome` tells; the vector returned is always
    /// empty.
    pub fn scan_tokens(&mut self, input: String) -> (unused: Vec<Token>)
        requires
            old(self).well_formed(),
        ensures
            final(self).well_formed(),
            final(self).outcome() == scan_spec(vstd::utf8::encode_utf8(input@)),
            unused@.len() == 0,
    {
        self.source = input.as_str().as_bytes_vec();
        proof {
            encode_utf8_valid_utf8(input@);
        }
        self.tokens = Vec::new();
        self.err = None;
        self.start = 0;
        self.current = 0;
        self.line = 1;
        self.column = -1;
        if self.source.len() >= usize::MAX || self.source.len() as u64 >= 0x7fff_ffff_ffff_ffff {
            self.err = Some(
                Error { what: String::from_str("Source is too long"), line: 1, column: -1 },
            );
            return Vec::new();
        }
        let ghost src = self.source@;
        assert(token_views(self.tokens@) =~= Seq::empty());
        assert(joined(Seq::empty(), scan_from(src, origin())) == scan_from(src, origin())) by {
            match scan_from(src, origin()) {
                Ok(tokens) => assert(Seq::<TokenView>::empty() + tokens =~= tokens),
                Err(_) => {},
            }
        }

        let tokens: Vec<Token> = Vec::new();
        while !self.is_at_end() && self.err.is_none()
            invariant
                self.inv(),
                self.source@ == src,
                match self.err {
                    Some(e) => scan_spec(src) == Err::<Seq<TokenView>, ErrorView>(e@),
                    None => scan_spec(src) == joined(
                        token_views(self.tokens@),
                        scan_from(src, self.cursor()),
                    ),
                },
                tokens@.len() == 0,
            decreases src.len() - self.current,
        {
            // beginning of the lexeme
            self.start = self.current;
            let ghost before = *self;
            self.scan_token();
            proof {
                let at = before.cursor();
                let step = lex(src, at);
                lemma_lex_advances(src, at);
                match step.lexed {
                    Lexed::Token(t) => {
                        let prefix = token_views(before.tokens@);
                        match scan_from(src, step.next) {
                            Ok(rest) => assert(prefix + (seq![t] + rest) =~= prefix.push(t) + rest),
                            Err(_) => {},
                        }
                    },
                    _ => {},
                }
            }
        }

        if self.err.is_none() {
            // the end-of-file marker closes the stream
            let ghost prefix = token_views(self.tokens@);
            let ghost at = self.cursor();
            self.tokens.push(
                Token {
                    token_type: TokenType::Eof,
                    lexeme: Vec::new(),
                    literal: None,
                    line: self.line,
                    column: self.column,
                },
            );
            assert(token_views(self.tokens@) =~= prefix + seq![eof_token(at)]);
        }
        tokens
    }

    /// Scans one lexeme: a token, blank space or a comment, or an error.
    fn scan_token(&mut self)
        requires
            old(self).inv(),
            old(self).err is None,
            old(self).start == old(self).current,
            old(self).current < old(self).source.len(),
        ensures
            final(self).follows(old(self), lex(old(self).source@, old(self).cursor())),
            final(self).inv(),
            final(self).current > old(self).current,
    {
        let c: char = self.advance();
        match c {
            // single-character tokens
            '(' => self.add_token(TokenType::LeftParen),
            ')' => self.add_token(TokenType::RightParen),
            '{' => self.add_token(TokenType::LeftBrace),
            '}' => self.add_token(TokenType::RightBrace),
            '[' => self.add_token(TokenType::LeftBracket),
            ']' => self.add_token(TokenType::RightBracket),
            ',' => self.add_token(TokenType::Comma),
            '.' => self.add_token(TokenType::Dot),
            '-' => self.add_token(TokenType::Minus),
            '+' => self.add_token(TokenType::Plus),
            ';' => self.add_token(TokenType::Semicolon),
            '*' => self.add_token(TokenType::Star),
            // tokens of one or two characters
            '!' => {
                let matches = self.matches('=');
                self.add_token(
                    if matches {
                        TokenType::BangEqual
                    } else {
                        TokenType::Bang
                    },
                )
            },
            '=' => {
                let matches = self.matches('=');
                self.add_token(
                    if matches {
                        TokenType::EqualEqual
                    } else {
                        TokenType::Equal
                    },
                )
            },
            '<' => {
                let matches = self.matches('=');
                self.add_token(
                    if matches {
                        TokenType::LessEqual
                    } else {
                        TokenType::Less
                    },
                )
            },
            '>' => {
                let matches = self.matches('=');
                self.add_token(
                    if matches {
                        TokenType::GreaterEqual
                    } else {
                        TokenType::Greater
                    },
                )
            },
            // division and comments
            '/' => {
                let matches = self.matches('/');
                if matches {
                    let ghost opened = *self;
                    while self.peek() != '\n' && !self.is_at_end()
                        invariant
                            self.inv(),
                            self.moved(&opened, self.current - opened.current),
                            opened.current <= self.current,
                            run_end(self.source@, opened.current as int, Run::Comment) == run_end(
                                self.source@,
                                self.current as int,
                                Run::Comment,
                            ),
                        decreases self.source.len() - self.current,
                    {
                        self.advance();
                    }
                } else {
                    self.add_token(TokenType::Slash);
                }
            },
            // blank space
            ' ' | '\r' | '\t' => {},
            '\n' => {
                self.line += 1;
                self.column = 0;
            },
            // strings
            '"' => self.string(),
            _ => {
                if is_ascii_digit(c) {
                    self.number();
                } else if is_ascii_letter(c) {
                    self.word();
                } else {
                    // any other character
                    let mut what = String::from_str("Invalid character found: ");
                    crate::text::push_char(&mut what, c);
                    self.err = Some(Error { what, line: self.line, column: self.column });
                }
            },
        }
    }

    /// Consumes the next character if it is `c`, and tells whether it was.
    fn matches(&mut self, c: char) -> (found: bool)
        requires
            old(self).inv(),
        ensures
            found == holds(old(self).source@, old(self).current as int, c),
            found ==> final(self).moved(old(self), 1),
            !found ==> *final(self) == *old(self),
            final(self).inv(),
    {
        if self.is_at_end() {
            return false;
        }
        if self.source[self.current] as char != c {
            return false;
        }
        self.current += 1;
        self.column += 1;
        true
    }

    /// The next character, or NUL at the end of the input.
    fn peek(&self) -> (c: char)
        requires
            self.current <= self.source.len(),
        ensures
            self.current < self.source.len() ==> c == self.source[self.current as int] as char,
            self.current == self.source.len() ==> c == '\0',
    {
        if self.is_at_end() {
            '\0'
        } else {
            self.source[self.current] as char
        }
    }

    /// The character after the next, or NUL where there is none.
    fn peek_next(&self) -> (c: char)
        requires
            self.current <= self.source.len(),
        ensures
            self.current + 1 < self.source.len() ==> c == self.source[self.current + 1] as char,
            self.current + 1 >= self.source.len() ==> c == '\0',
    {
        if self.current >= self.source.len() || self.current + 1 >= self.source.len() {
            '\0'
        } else {
            self.source[self.current + 1] as char
        }
    }

    /// Scans a string literal whose opening quote has been consumed.
    fn string(&mut self)
        requires
            old(self).inv(),
            old(self).err is None,
            old(self).current == old(self).start + 1,
            old(self).source[old(self).start as int] == 34,
        ensures
            final(self).follows(
                old(self),
                lex_string(old(self).source@, old(self).lexeme_start(1)),
            ),
            final(self).inv(),
            final(self).current >= old(self).current,
    {
        let ghost opened = *self;
        let open_line = self.line;
        let open_column = self.column;
        while self.peek() != '"' && self.peek() != '\\' && !self.is_at_end()
            invariant
                self.inv(),
                self.source == opened.source,
                self.tokens == opened.tokens,
                self.err == opened.err,
                self.start == opened.start,
                self.keywords == opened.keywords,
                opened.current <= self.current,
                self.column == opened.column + (self.current - opened.current),
                self.line == opened.line + line_breaks(
                    self.source@,
                    opened.current as int,
                    self.current as int,
                ),
                run_end(self.source@, opened.current as int, Run::Quoted) == run_end(
                    self.source@,
                    self.current as int,
                    Run::Quoted,
                ),
            decreases self.source.len() - self.current,
        {
            let c = self.advance();
            if c == '\n' {
                self.line += 1;
            }
        }
        if self.is_at_end() {
            self.err = Some(
                Error {
                    what: String::from_str("String needs to be closed"),
                    line: open_line,
                    column: open_column,
                },
            );
        } else if self.peek() == '\\' {
            self.err = Some(
                Error {
                    what: String::from_str("Escape sequences are not supported"),
                    line: self.line,
                    column: self.column + 1,
                },
            );
        } else {
            self.advance();
            // the text between the quotes
            let content = slice_to_vec(
                slice_subrange(self.source.as_slice(), self.start + 1, self.current - 1),
            );
            proof {
                lemma_quoted_text_is_utf8(self.source@, self.start as int, self.current - 1);
            }
            // the source is text, and so is what stands between two quotes
            if let Some(text) = decode_text(content) {
                self.add_token_literal(TokenType::String, Some(Literal::Str(text)));
            }
        }
    }

    /// Scans a numeral whose first digit has been consumed.
    fn number(&mut self)
        requires
            old(self).inv(),
            old(self).err is None,
            old(self).current == old(self).start + 1,
            is_digit(old(self).source[old(self).start as int]),
        ensures
            final(self).follows(
                old(self),
                lex_number(old(self).source@, old(self).lexeme_start(1)),
            ),
            final(self).inv(),
            final(self).current >= old(self).current,
    {
        let ghost opened = *self;
        while is_ascii_digit(self.peek())
            invariant
                self.inv(),
                self.moved(&opened, self.current - opened.current),
                opened.current <= self.current,
                run_end(self.source@, opened.current as int, Run::Digits) == run_end(
                    self.source@,
                    self.current as int,
                    Run::Digits,
                ),
                forall|i: int|
                    opened.start <= i < self.current ==> is_digit(#[trigger] self.source[i]),
            decreases self.source.len() - self.current,
        {
            self.advance();
        }
        let point = self.current;

        if self.peek() == '.' && is_ascii_digit(self.peek_next()) {
            self.advance();  // the point
            let ghost pointed = *self;
            while is_ascii_digit(self.peek())
                invariant
                    self.inv(),
                    self.moved(&pointed, self.current - pointed.current),
                    pointed.current <= self.current,
                    run_end(self.source@, pointed.current as int, Run::Digits) == run_end(
                        self.source@,
                        self.current as int,
                        Run::Digits,
                    ),
                decreases self.source.len() - self.current,
            {
                self.advance();
            }
            let whole = slice_to_vec(slice_subrange(self.source.as_slice(), self.start, point));
            let fraction = slice_to_vec(
                slice_subrange(self.source.as_slice(), point + 1, self.current),
            );
            self.add_token_literal(
                TokenType::Float,
                Some(Literal::Float(Decimal { whole, fraction })),
            );
        } else {
            match parse_integer(&self.source, self.start, self.current) {
                Some(val) => self.add_token_literal(TokenType::Int, Some(Literal::Int(val))),
                None => {
                    self.err = Some(
                        Error {
                            what: String::from_str("Integer literal is too large"),
                            line: self.line,
                            column: self.column,
                        },
                    );
                },
            }
        }
    }

    /// Scans a word whose first letter has been consumed.
    fn word(&mut self)
        requires
            old(self).inv(),
            old(self).err is None,
            old(self).current == old(self).start + 1,
            is_letter(old(self).source[old(self).start as int]),
        ensures
            final(self).follows(old(self), lex_word(old(self).source@, old(self).lexeme_start(1))),
            final(self).inv(),
            final(self).current >= old(self).current,
    {
        let ghost opened = *self;
        while is_word_char(self.peek())
            invariant
                self.inv(),
                self.moved(&opened, self.current - opened.current),
                opened.current <= self.current,
                run_end(self.source@, opened.current as int, Run::Word) == run_end(
                    self.source@,
                    self.current as int,
                    Run::Word,
                ),
            decreases self.source.len() - self.current,
        {
            self.advance();
        }
        let mut name = String::new();
        push_bytes(
            &mut name,
            slice_subrange(self.source.as_slice(), self.start, self.current),
        );
        assert(name@ =~= ascii_text(
            self.source@.subrange(self.start as int, self.current as int),
        ));
        let reserved = match self.keywords.get(name.as_str()) {
            Some(kind) => Some(*kind),
            None => None,
        };
        match reserved {
            Some(kind) => self.add_token(kind),
            None => self.add_token_literal(TokenType::Identifier, Some(Literal::Identifier(name))),
        }
    }

    /// Consumes one character.
    fn advance(&mut self) -> (c: char)
        requires
            old(self).inv(),
            old(self).current < old(self).source.len(),
        ensures
            final(self).moved(old(self), 1),
            final(self).inv(),
            c == old(self).source[old(self).current as int] as char,
    {
        self.current += 1;
        self.column += 1;

        self.source[self.current - 1] as char
    }

    /// Appends a token without a literal.
    fn add_token(&mut self, token_type: TokenType)
        requires
            old(self).inv(),
        ensures
            final(self).added(old(self), token_type, None),
            final(self).inv(),
    {
        self.add_token_literal(token_type, None);
    }

    /// A token of the given kind and literal, whose lexeme runs from `start`
    /// to `current`, has been appended.
    spec fn added(
        &self,
        before: &Scanner,
        token_type: TokenType,
        literal: Option<LiteralView>,
    ) -> bool {
        &&& self.source == before.source
        &&& self.err == before.err
        &&& self.start == before.start
        &&& self.current == before.current
        &&& self.line == before.line
        &&& self.column == before.column
        &&& self.keywords == before.keywords
        &&& token_views(self.tokens@) == token_views(before.tokens@).push(
            TokenView {
                token_type,
                lexeme: before.source@.subrange(before.start as int, before.current as int),
                literal,
                line: before.line as int,
                column: before.column as int,
            },
        )
    }

    /// Appends a token whose lexeme runs from `start` to `current`.
    fn add_token_literal(&mut self, token_type: TokenType, literal: Option<Literal>)
        requires
            old(self).inv(),
        ensures
            final(self).added(old(self), token_type, crate::token::literal_view(literal)),
            final(self).inv(),
    {
        let text = slice_to_vec(slice_subrange(self.source.as_slice(), self.start, self.current));
        let ghost before = token_views(self.tokens@);
        let token = Token { token_type, lexeme: text, literal, line: self.line, column: self.column };
        let ghost view = token@;
        self.tokens.push(token);
        assert(token_views(self.tokens@) =~= before.push(view));
    }

    /// Tells whether the whole input has been consumed.
    fn is_at_end(&self) -> (at_end: bool)
        ensures
            at_end == (self.current >= self.source.len()),
    {
        self.current >= self.source.len()
    }
}


/// A reserved word is never taken for a literal.
proof fn lemma_keyword_kinds(word: Seq<char>)
    ensures
        keyword(word) matches Some(kind) ==> kind != TokenType::Identifier && kind
            != TokenType::String && kind != TokenType::Int && kind != TokenType::Float && kind
            != TokenType::Eof,
{
}

/// Every token that a scanning step yields carries the literal that its kind
/// announces.
proof fn lemma_lex_well_formed(src: Seq<u8>, at: Cursor)
    requires
        0 <= at.pos < src.len(),
    ensures
        lex(src, at).lexed matches Lexed::Token(t) ==> t.well_formed(),
{
    lemma_keyword_kinds(ascii_text(src.subrange(at.pos, run_end(src, at.pos, Run::Word))));
    let point = run_end(src, at.pos, Run::Digits);
    lemma_run_end_bounds(src, at.pos, Run::Digits);
    if point + 1 < src.len() {
        lemma_run_end_bounds(src, point + 1, Run::Digits);
    }
}

/// Whatever scanning yields is a stream that the parser accepts: it ends
/// with the end-of-file marker and its literal tokens carry their literals.
pub proof fn lemma_scan_well_formed(src: Seq<u8>, at: Cursor)
    ensures
        scan_from(src, at) matches Ok(tokens) ==> well_formed_stream(tokens),
    decreases src.len() - at.pos,
{
    if 0 <= at.pos < src.len() {
        let step = lex(src, at);
        lemma_lex_advances(src, at);
        lemma_lex_well_formed(src, at);
        lemma_scan_well_formed(src, step.next);
    }
}

/// Scans a source text: the tokens in order, closed by the end-of-file
/// marker, or the first lexical error.
pub fn scan(input: String) -> (result: Result<Vec<Token>, Error>)
    ensures
        match result {
            Ok(tokens) => scan_spec(vstd::utf8::encode_utf8(input@)) == Ok::<
                Seq<TokenView>,
                ErrorView,
            >(token_views(tokens@)),
            Err(e) => scan_spec(vstd::utf8::encode_utf8(input@)) == Err::<
                Seq<TokenView>,
                ErrorView,
            >(e@),
        },
        result matches Ok(tokens) ==> well_formed_stream(token_views(tokens@)) && closed_stream(
            tokens@,
        ),
{
    let mut scanner: Scanner = Default::default();
    proof {
        lemma_scan_well_formed(vstd::utf8::encode_utf8(input@), origin());
    }
    scanner.scan_tokens(input);

    match scanner.err {
        Some(err) => Err(err),
        None => Ok(scanner.tokens),
    }
}


/// The token kind that a lexeme of punctuation spells: one of the
/// single-character tokens, or one of the operators of one or two
/// characters.
pub open spec fn punctuation(lexeme: Seq<u8>) -> Option<TokenType> {
    if lexeme.len() == 1 {
        let c = lexeme[0] as char;
        if c == '(' {
            Some(TokenType::LeftParen)
        } else if c == ')' {
            Some(TokenType::RightParen)
        } else if c == '{' {
            Some(TokenType::LeftBrace)
        } else if c == '}' {
            Some(TokenType::RightBrace)
        } else if c == '[' {
            Some(TokenType::LeftBracket)
        } else if c == ']' {
            Some(TokenType::RightBracket)
        } else if c == ',' {
            Some(TokenType::Comma)
        } else if c == '.' {
            Some(TokenType::Dot)
        } else if c == '-' {
            Some(TokenType::Minus)
        } else if c == '+' {
            Some(TokenType::Plus)
        } else if c == ';' {
            Some(TokenType::Semicolon)
        } else if c == '*' {
            Some(TokenType::Star)
        } else if c == '/' {
            Some(TokenType::Slash)
        } else if c == '!' {
            Some(TokenType::Bang)
        } else if c == '=' {
            Some(TokenType::Equal)
        } else if c == '<' {
            Some(TokenType::Less)
        } else if c == '>' {
            Some(TokenType::Greater)
        } else {
            None
        }
    } else if lexeme.len() == 2 && lexeme[1] as char == '=' {
        let c = lexeme[0] as char;
        if c == '!' {
            Some(TokenType::BangEqual)
        } else if c == '=' {
            Some(TokenType::EqualEqual)
        } else if c == '<' {
            Some(TokenType::LessEqual)
        } else if c == '>' {
            Some(TokenType::GreaterEqual)
        } else {
            None
        }
    } else {
        None
    }
}

/// A source that is exactly the lexeme of a punctuation token scans to that
/// one token and the end-of-file marker.
pub proof fn lemma_punctuation_round_trip(lexeme: Seq<u8>)
    requires
        punctuation(lexeme) is Some,
    ensures
        scan_spec(lexeme) == Ok::<Seq<TokenView>, ErrorView>(
            seq![
                TokenView {
                    token_type: punctuation(lexeme)->0,
                    lexeme,
                    literal: None,
                    line: 1,
                    column: lexeme.len() - 1,
                },
                eof_token(Cursor { pos: lexeme.len() as int, line: 1, column: lexeme.len() - 1 }),
            ],
        ),
{
    reveal_with_fuel(scan_from, 3);
    let first = lex(lexeme, origin());
    assert(lexeme.subrange(0, lexeme.len() as int) =~= lexeme);
    assert(first.next == Cursor { pos: lexeme.len() as int, line: 1, column: lexeme.len() - 1 });
    let token = first.lexed->Token_0;
    let end = eof_token(first.next);
    assert(seq![token] + seq![end] =~= seq![token, end]);
}

} // verus!
