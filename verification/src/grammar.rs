//! The scanner's grammar as mathematics.
//!
//! A source buffer is a sequence of characters and a [`Cursor`] is a place in
//! it together with the line and column counters. Every function here is a
//! pure function of the two; the executable scanner is proved to compute
//! exactly [`scan`].

use vstd::prelude::*;
use crate::classify::{is_digit, is_letter, is_letter_or_digit, is_space};
use crate::error::ErrorKind;
use crate::scan::TokenType;

verus! {

/// A read position with its line and column counters.
pub struct Cursor {
    /// Index of the next character to read.
    pub pos: int,
    /// The line counter: starts at 1.
    pub line: u32,
    /// The column counter: 0 at the start of a line, and the 1-based column
    /// of the character read last after that.
    pub column: u32,
}

/// What one pull of the scanner yields.
pub enum Lexed {
    /// A token of kind `kind` whose text is `lexeme`, recorded at
    /// `line`:`column`.
    Token { kind: TokenType, line: u32, column: u32, lexeme: Seq<char> },
    /// A lexical error detected at `line`:`column`.
    Failure { error: ErrorKind, line: u32, column: u32 },
    /// The input is exhausted.
    End,
}

/// The cursor at which scanning of a fresh buffer starts.
pub open spec fn start() -> Cursor {
    Cursor { pos: 0, line: 1, column: 0 }
}

/// A counter one step on. The counters are 32 bits wide and wrap.
pub open spec fn bump(n: u32) -> u32 {
    if n == u32::MAX {
        0
    } else {
        (n + 1) as u32
    }
}

/// The character under the cursor, if any is left.
pub open spec fn peek(src: Seq<char>, c: Cursor) -> Option<char> {
    if 0 <= c.pos < src.len() {
        Some(src[c.pos])
    } else {
        None
    }
}

/// The cursor after one read. Reading a line feed starts a new line at
/// column 0; reading anything else moves one column on, and so does a read
/// at the end of the input, which leaves the index where it is.
pub open spec fn pop(src: Seq<char>, c: Cursor) -> Cursor {
    match peek(src, c) {
        Some(ch) => if ch == '\n' {
            Cursor { pos: c.pos + 1, line: bump(c.line), column: 0 }
        } else {
            Cursor { pos: c.pos + 1, line: c.line, column: bump(c.column) }
        },
        None => Cursor { pos: c.pos, line: c.line, column: bump(c.column) },
    }
}

/// The cursor after `count` reads in a row.
pub open spec fn read(src: Seq<char>, c: Cursor, count: int) -> Cursor
    decreases count,
{
    if count <= 0 {
        c
    } else {
        read(src, pop(src, c), count - 1)
    }
}

/// Whether the cursor stands inside the buffer or at its end.
pub open spec fn in_buffer(src: Seq<char>, c: Cursor) -> bool {
    0 <= c.pos <= src.len()
}

/// The number of characters left to read.
pub open spec fn remaining(src: Seq<char>, c: Cursor) -> nat {
    if 0 <= c.pos < src.len() {
        (src.len() - c.pos) as nat
    } else {
        0
    }
}

/// The cursor after a run of whitespace: it stands on the first character
/// that is no whitespace, or at the end.
pub open spec fn skip_whitespace(src: Seq<char>, c: Cursor) -> Cursor
    decreases remaining(src, c),
{
    match peek(src, c) {
        Some(ch) => if is_space(ch) {
            skip_whitespace(src, pop(src, c))
        } else {
            c
        },
        None => c,
    }
}

/// The cursor after the rest of a line: the next line feed is read too. If
/// there is none, everything is read and then one read at the end is made.
pub open spec fn skip_line(src: Seq<char>, c: Cursor) -> Cursor
    decreases remaining(src, c),
{
    match peek(src, c) {
        Some(ch) => if ch == '\n' {
            pop(src, c)
        } else {
            skip_line(src, pop(src, c))
        },
        None => pop(src, c),
    }
}

/// Whether a `*` stands under the cursor with a `/` right after it.
pub open spec fn at_block_end(src: Seq<char>, c: Cursor) -> bool {
    peek(src, c) == Some('*') && peek(src, pop(src, c)) == Some('/')
}

/// The cursor after a block comment, and whether the comment was closed. A
/// closed comment ends behind the first `*` that a `/` follows. An open one
/// runs to the end of the input, where one more read is made.
pub open spec fn skip_block(src: Seq<char>, c: Cursor) -> (Cursor, bool)
    decreases remaining(src, c),
{
    if peek(src, c) is None {
        (pop(src, c), false)
    } else if at_block_end(src, c) {
        (pop(src, pop(src, c)), true)
    } else {
        skip_block(src, pop(src, c))
    }
}

/// Skipping whitespace never moves the cursor back.
pub proof fn lemma_skip_whitespace_shrinks(src: Seq<char>, c: Cursor)
    ensures
        remaining(src, skip_whitespace(src, c)) <= remaining(src, c),
    decreases remaining(src, c),
{
    if peek(src, c) matches Some(ch) && is_space(ch) {
        lemma_skip_whitespace_shrinks(src, pop(src, c));
    }
}

/// Skipping a line never moves the cursor back.
pub proof fn lemma_skip_line_shrinks(src: Seq<char>, c: Cursor)
    ensures
        remaining(src, skip_line(src, c)) <= remaining(src, c),
    decreases remaining(src, c),
{
    if peek(src, c) matches Some(ch) && ch != '\n' {
        lemma_skip_line_shrinks(src, pop(src, c));
    }
}

/// Skipping a block comment never moves the cursor back.
pub proof fn lemma_skip_block_shrinks(src: Seq<char>, c: Cursor)
    ensures
        remaining(src, skip_block(src, c).0) <= remaining(src, c),
    decreases remaining(src, c),
{
    if peek(src, c) is Some && !at_block_end(src, c) {
        lemma_skip_block_shrinks(src, pop(src, c));
    }
}

/// What stands where a `/` was read: the kind of comment, or none.
pub enum Opener {
    /// A second `/`: a comment to the end of the line.
    Line,
    /// A `*`: a block comment.
    Block,
    /// Any other character: the `/` was the division operator.
    Operator,
    /// Nothing: the `/` was the last character of the input.
    Nothing,
}

/// Classifies what follows a `/`.
pub open spec fn opener(next: Option<char>) -> Opener {
    match next {
        Some(ch) => if ch == '/' {
            Opener::Line
        } else if ch == '*' {
            Opener::Block
        } else {
            Opener::Operator
        },
        None => Opener::Nothing,
    }
}

/// Skips comments, each with the whitespace behind it, starting at a cursor
/// that stands on no whitespace. Yields what the skipping itself produced:
/// a `/` operator, an unterminated block comment, or nothing; and the cursor
/// reached.
pub open spec fn skip_comments(src: Seq<char>, c: Cursor) -> (Option<Lexed>, Cursor)
    decreases remaining(src, c),
{
    if peek(src, c) != Some('/') {
        (None, c)
    } else {
        let c1 = pop(src, c);
        match opener(peek(src, c1)) {
            Opener::Line => {
                let c2 = skip_whitespace(src, skip_line(src, c1));
                proof {
                    lemma_skip_line_shrinks(src, c1);
                    lemma_skip_whitespace_shrinks(src, skip_line(src, c1));
                }
                skip_comments(src, c2)
            },
            Opener::Block => {
                let (c2, closed) = skip_block(src, c1);
                if closed {
                    proof {
                        lemma_skip_block_shrinks(src, c1);
                        lemma_skip_whitespace_shrinks(src, c2);
                    }
                    skip_comments(src, skip_whitespace(src, c2))
                } else {
                    (
                        Some(
                            Lexed::Failure {
                                error: ErrorKind::UnterminatedComment,
                                line: c2.line,
                                column: c2.column,
                            },
                        ),
                        c2,
                    )
                }
            },
            Opener::Operator => (
                Some(
                    Lexed::Token {
                        kind: TokenType::Slash,
                        line: c1.line,
                        column: c1.column,
                        lexeme: seq!['/'],
                    },
                ),
                c1,
            ),
            Opener::Nothing => (None, c1),
        }
    }
}

/// The kind of a one-character operator or punctuation mark.
pub open spec fn operator_kind(ch: char) -> Option<TokenType> {
    if ch == ';' {
        Some(TokenType::Semicolon)
    } else if ch == '+' {
        Some(TokenType::Plus)
    } else if ch == '-' {
        Some(TokenType::Minus)
    } else if ch == '*' {
        Some(TokenType::Star)
    } else if ch == '/' {
        Some(TokenType::Slash)
    } else if ch == '!' {
        Some(TokenType::Bang)
    } else if ch == '|' {
        Some(TokenType::Pipe)
    } else if ch == '&' {
        Some(TokenType::Ampersand)
    } else if ch == '^' {
        Some(TokenType::Caret)
    } else if ch == '%' {
        Some(TokenType::Percent)
    } else if ch == '~' {
        Some(TokenType::Tilde)
    } else if ch == '.' {
        Some(TokenType::Dot)
    } else if ch == '(' {
        Some(TokenType::LeftParen)
    } else if ch == ')' {
        Some(TokenType::RightParen)
    } else if ch == '[' {
        Some(TokenType::LeftBracket)
    } else if ch == ']' {
        Some(TokenType::RightBracket)
    } else if ch == '{' {
        Some(TokenType::LeftBrace)
    } else if ch == '}' {
        Some(TokenType::RightBrace)
    } else {
        None
    }
}

/// The kind of a reserved word, or `None` for any other text.
pub open spec fn keyword_kind(word: Seq<char>) -> Option<TokenType> {
    if word == "true"@ {
        Some(TokenType::TrueLiteral)
    } else if word == "false"@ {
        Some(TokenType::FalseLiteral)
    } else if word == "null"@ {
        Some(TokenType::NullLiteral)
    } else if word == "this"@ {
        Some(TokenType::ThisLiteral)
    } else if word == "super"@ {
        Some(TokenType::SuperLiteral)
    } else if word == "and"@ {
        Some(TokenType::And)
    } else if word == "or"@ {
        Some(TokenType::Or)
    } else if word == "not"@ {
        Some(TokenType::Not)
    } else if word == "function"@ {
        Some(TokenType::Function)
    } else if word == "class"@ {
        Some(TokenType::Class)
    } else if word == "extends"@ {
        Some(TokenType::Extends)
    } else if word == "if"@ {
        Some(TokenType::If)
    } else if word == "else"@ {
        Some(TokenType::Else)
    } else if word == "while"@ {
        Some(TokenType::While)
    } else if word == "do"@ {
        Some(TokenType::Do)
    } else if word == "for"@ {
        Some(TokenType::For)
    } else if word == "in"@ {
        Some(TokenType::In)
    } else if word == "break"@ {
        Some(TokenType::Break)
    } else if word == "continue"@ {
        Some(TokenType::Continue)
    } else if word == "return"@ {
        Some(TokenType::Return)
    } else {
        None
    }
}

/// The kind of an identifier-shaped word: its keyword kind if it is
/// reserved, `Identifier` otherwise.
pub open spec fn word_kind(word: Seq<char>) -> TokenType {
    match keyword_kind(word) {
        Some(kind) => kind,
        None => TokenType::Identifier,
    }
}

/// Whether `ch` may stand in an identifier: first, or further on.
pub open spec fn is_identifier_char(ch: char, is_first: bool) -> bool {
    if is_first {
        is_letter(ch) || ch == '_'
    } else {
        is_letter_or_digit(ch) || ch == '_'
    }
}

/// The cursor after the rest of a number: digits, and one `.` unless `dot`
/// says that one was read already.
pub open spec fn number_run(src: Seq<char>, c: Cursor, dot: bool) -> Cursor
    decreases remaining(src, c),
{
    match peek(src, c) {
        Some(ch) => if is_digit(ch) {
            number_run(src, pop(src, c), dot)
        } else if ch == '.' && !dot {
            number_run(src, pop(src, c), true)
        } else {
            c
        },
        None => c,
    }
}

/// The cursor after the rest of an identifier.
pub open spec fn identifier_run(src: Seq<char>, c: Cursor) -> Cursor
    decreases remaining(src, c),
{
    match peek(src, c) {
        Some(ch) => if is_identifier_char(ch, false) {
            identifier_run(src, pop(src, c))
        } else {
            c
        },
        None => c,
    }
}

/// The character that the escape `\e` stands for, if `e` is one of the six
/// escape characters.
pub open spec fn unescape(e: char) -> Option<char> {
    if e == '\'' {
        Some('\'')
    } else if e == '"' {
        Some('"')
    } else if e == 't' {
        Some('\t')
    } else if e == 'r' {
        Some('\r')
    } else if e == 'n' {
        Some('\n')
    } else if e == '\\' {
        Some('\\')
    } else {
        None
    }
}

/// Reads the body of a string whose opening `delimiter` was read already,
/// with `decoded` holding what the body has given so far. Yields the decoded
/// content up to the closing delimiter, or the error that ended the reading,
/// and the cursor reached.
pub open spec fn string_body(src: Seq<char>, c: Cursor, delimiter: char, decoded: Seq<char>) -> (
    Result<Seq<char>, ErrorKind>,
    Cursor,
)
    decreases remaining(src, c),
{
    let c1 = pop(src, c);
    match peek(src, c) {
        None => (Err(ErrorKind::UnterminatedString(delimiter)), c1),
        Some(ch) => if ch == delimiter {
            (Ok(decoded), c1)
        } else if ch == '\\' {
            let c2 = pop(src, c1);
            match peek(src, c1) {
                None => (Err(ErrorKind::UnexpectedEndOfInputInEscape), c2),
                Some(e) => match unescape(e) {
                    Some(meaning) => string_body(src, c2, delimiter, decoded.push(meaning)),
                    None => (Err(ErrorKind::UnknownEscapeCharacter(e)), c2),
                },
            }
        } else {
            string_body(src, c1, delimiter, decoded.push(ch))
        },
    }
}

/// The kind of a string literal, by its delimiter.
pub open spec fn string_kind(delimiter: char) -> TokenType {
    if delimiter == '\'' {
        TokenType::StringLiteral
    } else {
        TokenType::FormattedStringLiteral
    }
}

/// Whether an ASCII digit stands under the cursor.
pub open spec fn starts_fraction(src: Seq<char>, c: Cursor) -> bool {
    peek(src, c) matches Some(ch) && is_digit(ch)
}

/// Reads one token at a cursor that stands on no whitespace and on no
/// comment. A quote opens a string; a digit, or a `.` in front of a digit,
/// starts a number; an operator character is its own token; a letter or an
/// underscore starts a word; any other character is an error. A token is
/// recorded at the line and column of the first character of its text: for
/// a string that is the column behind the opening quote, whose content
/// starts there. An error is recorded where it was detected.
pub open spec fn lex(src: Seq<char>, c: Cursor) -> (Lexed, Cursor) {
    let c1 = pop(src, c);
    match peek(src, c) {
        None => (Lexed::End, c1),
        Some(ch) => if ch == '\'' || ch == '"' {
            let (body, c2) = string_body(src, c1, ch, Seq::empty());
            match body {
                Ok(decoded) => (
                    Lexed::Token {
                        kind: string_kind(ch),
                        line: c1.line,
                        column: bump(c1.column),
                        lexeme: decoded,
                    },
                    c2,
                ),
                Err(error) => (Lexed::Failure { error, line: c2.line, column: c2.column }, c2),
            }
        } else if is_digit(ch) || (ch == '.' && starts_fraction(src, c1)) {
            let c2 = number_run(src, c1, ch == '.');
            (
                Lexed::Token {
                    kind: TokenType::NumberLiteral,
                    line: c1.line,
                    column: c1.column,
                    lexeme: src.subrange(c.pos, c2.pos),
                },
                c2,
            )
        } else if operator_kind(ch) is Some {
            (
                Lexed::Token {
                    kind: operator_kind(ch).unwrap(),
                    line: c1.line,
                    column: c1.column,
                    lexeme: seq![ch],
                },
                c1,
            )
        } else if is_identifier_char(ch, true) {
            let c2 = identifier_run(src, c1);
            let word = src.subrange(c.pos, c2.pos);
            (
                Lexed::Token {
                    kind: word_kind(word),
                    line: c1.line,
                    column: c1.column,
                    lexeme: word,
                },
                c2,
            )
        } else {
            (
                Lexed::Failure {
                    error: ErrorKind::UnexpectedCharacter(ch),
                    line: c1.line,
                    column: c1.column,
                },
                c1,
            )
        },
    }
}

/// What a pull skips in front of its token: whitespace, and then comments,
/// each with the whitespace behind it. Yields what skipping the comments
/// yields, and the cursor reached.
pub open spec fn skipped(src: Seq<char>, c: Cursor) -> (Option<Lexed>, Cursor) {
    skip_comments(src, skip_whitespace(src, c))
}

/// One pull of the scanner: whitespace and comments are skipped, then one
/// token is read. Yields what the pull returns and the cursor it leaves.
pub open spec fn scan(src: Seq<char>, c: Cursor) -> (Lexed, Cursor) {
    let (found, c1) = skipped(src, c);
    match found {
        Some(lexed) => (lexed, c1),
        None => lex(src, c1),
    }
}

} // verus!
