//! Tokens and the scanner that produces them.

use vstd::prelude::*;
use vstd::string::StringExecFns;
use crate::classify::{char_is_digit, char_is_letter, char_is_letter_or_digit, char_is_space};
use crate::error::{Error, ErrorKind, ErrorView};
use crate::grammar::{
    bump, Cursor, identifier_run, in_buffer, is_identifier_char, keyword_kind,
    lemma_skip_block_shrinks, lemma_skip_line_shrinks, lemma_skip_whitespace_shrinks, Lexed,
    number_run, operator_kind, peek, pop, remaining, scan, skip_block, skip_comments, skip_line,
    skip_whitespace, start, starts_fraction, string_body, string_kind, unescape, word_kind,
};
use crate::text::{chars_of, same_text};

verus! {

/// The closed set of token kinds.
#[derive(Copy, Clone, PartialEq, Eq, Debug, Structural)]
pub enum TokenType {
    Semicolon,
    Plus,
    Minus,
    Star,
    Slash,
    Bang,
    Pipe,
    Ampersand,
    Caret,
    Percent,
    Tilde,
    Dot,
    LeftParen,
    RightParen,
    LeftBracket,
    RightBracket,
    LeftBrace,
    RightBrace,
    NumberLiteral,
    StringLiteral,
    FormattedStringLiteral,
    Identifier,
    TrueLiteral,
    FalseLiteral,
    NullLiteral,
    ThisLiteral,
    SuperLiteral,
    And,
    Or,
    Not,
    Function,
    Class,
    Extends,
    If,
    Else,
    While,
    Do,
    For,
    In,
    Break,
    Continue,
    Return,
}

/// One lexical unit: its kind, where it was found and its text.
pub struct Token {
    tok: TokenType,
    src_name: String,
    src_ln: u32,
    src_col: u32,
    src_data: String,
}

/// The mathematical content of a [`Token`].
pub struct TokenView {
    pub kind: TokenType,
    pub source_name: Seq<char>,
    pub line: u32,
    pub column: u32,
    pub lexeme: Seq<char>,
}

impl View for Token {
    type V = TokenView;

    closed spec fn view(&self) -> TokenView {
        TokenView {
            kind: self.tok,
            source_name: self.src_name@,
            line: self.src_ln,
            column: self.src_col,
            lexeme: self.src_data@,
        }
    }
}

impl Token {
    /// Builds a token from its five parts.
    pub fn new(token: TokenType, name: &str, line: u32, column: u32, data: &str) -> (t: Self)
        ensures
            t@ == (TokenView {
                kind: token,
                source_name: name@,
                line: line,
                column: column,
                lexeme: data@,
            }),
    {
        Self {
            tok: token,
            src_name: String::from_str(name),
            src_ln: line,
            src_col: column,
            src_data: String::from_str(data),
        }
    }

    /// The token's kind.
    pub fn token_type(&self) -> (kind: TokenType)
        ensures
            kind == self@.kind,
    {
        self.tok
    }

    /// The name of the buffer the token came from.
    pub fn source_name(&self) -> (name: &str)
        ensures
            name@ == self@.source_name,
    {
        self.src_name.as_str()
    }

    /// The line on which the token's text starts.
    pub fn source_line(&self) -> (line: u32)
        ensures
            line == self@.line,
    {
        self.src_ln
    }

    /// The column at which the token's text starts: for a string literal,
    /// the column behind its opening quote.
    pub fn source_column(&self) -> (column: u32)
        ensures
            column == self@.column,
    {
        self.src_col
    }

    /// The token's text: for a string literal, its decoded content.
    pub fn token_data(&self) -> (data: &str)
        ensures
            data@ == self@.lexeme,
    {
        self.src_data.as_str()
    }
}

/// The scanner: a source buffer, a read position in it, and the line and
/// column counters.
pub struct Scanner {
    src_name: String,
    src_ln: u32,
    src_col: u32,
    src: Vec<char>,
    pos: usize,
}

/// The mathematical content of a [`Scanner`].
pub struct ScannerView {
    /// The name of the current buffer.
    pub source_name: Seq<char>,
    /// The whole text of the current buffer.
    pub source: Seq<char>,
    /// Where the scanner stands in it.
    pub cursor: Cursor,
}

impl View for Scanner {
    type V = ScannerView;

    closed spec fn view(&self) -> ScannerView {
        ScannerView {
            source_name: self.src_name@,
            source: self.src@,
            cursor: Cursor { pos: self.pos as int, line: self.src_ln, column: self.src_col },
        }
    }
}

/// Whether `result` is what a pull returns when the grammar yields `lexed`
/// in a buffer called `name`.
pub open spec fn delivers(
    result: Option<Result<Token, Error>>,
    name: Seq<char>,
    lexed: Lexed,
) -> bool {
    match lexed {
        Lexed::End => result is None,
        Lexed::Token { kind, line, column, lexeme } => {
            &&& result matches Some(Ok(token))
            &&& token@ == (TokenView { kind, source_name: name, line, column, lexeme })
        },
        Lexed::Failure { error, line, column } => {
            &&& result matches Some(Err(e))
            &&& e@ == (ErrorView { message: error.message(), file_name: name, line, column })
        },
    }
}

impl Scanner {
    /// The read position never passes the end of the buffer.
    #[verifier::type_invariant]
    spec fn position_in_source(self) -> bool {
        self.pos <= self.src.len()
    }

    /// A scanner at the start of `source`, a buffer called `name`.
    pub fn new(name: &str, source: &str) -> (scanner: Self)
        ensures
            scanner@ == (ScannerView { source_name: name@, source: source@, cursor: start() }),
    {
        Self {
            src_name: String::from_str(name),
            src_ln: 1,
            src_col: 0,
            src: chars_of(source),
            pos: 0,
        }
    }

    /// Drops the current buffer and its position, and starts again at the
    /// beginning of `source`, a buffer called `name`.
    pub fn provide(&mut self, name: &str, source: &str)
        ensures
            final(self)@ == (ScannerView {
                source_name: name@,
                source: source@,
                cursor: start(),
            }),
    {
        self.pos = 0;
        self.src_name = String::from_str(name);
        self.src_ln = 1;
        self.src_col = 0;
        self.src = chars_of(source);
    }

    /// The name of the current buffer.
    pub fn source_name(&self) -> (name: &str)
        ensures
            name@ == self@.source_name,
    {
        self.src_name.as_str()
    }

    /// The line counter.
    pub fn current_line(&self) -> (line: u32)
        ensures
            line == self@.cursor.line,
    {
        self.src_ln
    }

    /// The column counter.
    pub fn current_column(&self) -> (column: u32)
        ensures
            column == self@.cursor.column,
    {
        self.src_col
    }

    /// The next character, which stays unread.
    fn peek(&self) -> (next: Option<char>)
        ensures
            next == peek(self@.source, self@.cursor),
    {
        if self.pos < self.src.len() {
            Some(self.src[self.pos])
        } else {
            None
        }
    }

    /// Reads the next character and keeps the counters.
    fn pop(&mut self) -> (read: Option<char>)
        ensures
            read == peek(old(self)@.source, old(self)@.cursor),
            final(self)@ == (ScannerView {
                cursor: pop(old(self)@.source, old(self)@.cursor),
                ..old(self)@
            }),
    {
        proof {
            use_type_invariant(&*self);
        }
        let read = self.peek();
        if self.pos < self.src.len() {
            self.pos += 1;
        }
        self.src_col = self.src_col.wrapping_add(1);
        if read == Some('\n') {
            self.src_ln = self.src_ln.wrapping_add(1);
            self.src_col = 0;
        }
        read
    }

    /// Whether `ch` may stand in an identifier: first, or further on.
    fn is_identifier_character(ch: char, is_first: bool) -> (accepted: bool)
        ensures
            accepted == is_identifier_char(ch, is_first),
    {
        if is_first {
            char_is_letter(ch) || ch == '_'
        } else {
            char_is_letter_or_digit(ch) || ch == '_'
        }
    }

    /// Looks `s` up among the reserved words.
    fn str_to_keyword(s: &str) -> (kind: Option<TokenType>)
        ensures
            kind == keyword_kind(s@),
    {
        if same_text(s, "true") {
            Some(TokenType::TrueLiteral)
        } else if same_text(s, "false") {
            Some(TokenType::FalseLiteral)
        } else if same_text(s, "null") {
            Some(TokenType::NullLiteral)
        } else if same_text(s, "this") {
            Some(TokenType::ThisLiteral)
        } else if same_text(s, "super") {
            Some(TokenType::SuperLiteral)
        } else if same_text(s, "and") {
            Some(TokenType::And)
        } else if same_text(s, "or") {
            Some(TokenType::Or)
        } else if same_text(s, "not") {
            Some(TokenType::Not)
        } else if same_text(s, "function") {
            Some(TokenType::Function)
        } else if same_text(s, "class") {
            Some(TokenType::Class)
        } else if same_text(s, "extends") {
            Some(TokenType::Extends)
        } else if same_text(s, "if") {
            Some(TokenType::If)
        } else if same_text(s, "else") {
            Some(TokenType::Else)
        } else if same_text(s, "while") {
            Some(TokenType::While)
        } else if same_text(s, "do") {
            Some(TokenType::Do)
        } else if same_text(s, "for") {
            Some(TokenType::For)
        } else if same_text(s, "in") {
            Some(TokenType::In)
        } else if same_text(s, "break") {
            Some(TokenType::Break)
        } else if same_text(s, "continue") {
            Some(TokenType::Continue)
        } else if same_text(s, "return") {
            Some(TokenType::Return)
        } else {
            None
        }
    }

    /// The token for the operator `op`, placed where the scanner stands, or
    /// `None` if `op` is no operator.
    fn operator(&self, op: char) -> (token: Option<Token>)
        ensures
            match operator_kind(op) {
                Some(kind) => token matches Some(t) && t@ == (TokenView {
                    kind,
                    source_name: self@.source_name,
                    line: self@.cursor.line,
                    column: self@.cursor.column,
                    lexeme: seq![op],
                }),
                None => token is None,
            },
    {
        let operator = match op {
            ';' => Some(TokenType::Semicolon),
            '+' => Some(TokenType::Plus),
            '-' => Some(TokenType::Minus),
            '*' => Some(TokenType::Star),
            '/' => Some(TokenType::Slash),
            '!' => Some(TokenType::Bang),
            '|' => Some(TokenType::Pipe),
            '&' => Some(TokenType::Ampersand),
            '^' => Some(TokenType::Caret),
            '%' => Some(TokenType::Percent),
            '~' => Some(TokenType::Tilde),
            '.' => Some(TokenType::Dot),
            '(' => Some(TokenType::LeftParen),
            ')' => Some(TokenType::RightParen),
            '[' => Some(TokenType::LeftBracket),
            ']' => Some(TokenType::RightBracket),
            '{' => Some(TokenType::LeftBrace),
            '}' => Some(TokenType::RightBrace),
            _ => None,
        };
        match operator {
            Some(kind) => {
                let mut text = String::new();
                text.push(op);
                assert(text@ =~= seq![op]);
                Some(
                    Token::new(
                        kind,
                        self.src_name.as_str(),
                        self.src_ln,
                        self.src_col,
                        text.as_str(),
                    ),
                )
            },
            None => None,
        }
    }

    /// Reads whitespace up to the first character that is none.
    fn consume_whitespace(&mut self)
        ensures
            final(self)@ == (ScannerView {
                cursor: skip_whitespace(old(self)@.source, old(self)@.cursor),
                ..old(self)@
            }),
    {
        loop
            invariant
                self@.source_name == old(self)@.source_name,
                self@.source == old(self)@.source,
                skip_whitespace(self@.source, self@.cursor) == skip_whitespace(
                    old(self)@.source,
                    old(self)@.cursor,
                ),
            ensures
                self@ == (ScannerView {
                    cursor: skip_whitespace(old(self)@.source, old(self)@.cursor),
                    ..old(self)@
                }),
            decreases remaining(self@.source, self@.cursor),
        {
            match self.peek() {
                Some(ch) => {
                    if !char_is_space(ch) {
                        break;
                    }
                    self.pop();
                },
                None => {
                    break;
                },
            }
        }
    }

    /// Reads the rest of a line comment.
    fn consume_line(&mut self)
        ensures
            final(self)@ == (ScannerView {
                cursor: skip_line(old(self)@.source, old(self)@.cursor),
                ..old(self)@
            }),
    {
        loop
            invariant_except_break
                skip_line(self@.source, self@.cursor) == skip_line(
                    old(self)@.source,
                    old(self)@.cursor,
                ),
            invariant
                self@.source_name == old(self)@.source_name,
                self@.source == old(self)@.source,
            ensures
                self@ == (ScannerView {
                    cursor: skip_line(old(self)@.source, old(self)@.cursor),
                    ..old(self)@
                }),
            decreases remaining(self@.source, self@.cursor),
        {
            match self.pop() {
                Some(ch) => {
                    if ch == '\n' {
                        break;
                    }
                },
                None => {
                    break;
                },
            }
        }
    }

    /// Reads the rest of a block comment and says whether it was closed.
    fn consume_block(&mut self) -> (closed: bool)
        ensures
            final(self)@ == (ScannerView {
                cursor: skip_block(old(self)@.source, old(self)@.cursor).0,
                ..old(self)@
            }),
            closed == skip_block(old(self)@.source, old(self)@.cursor).1,
    {
        let mut closed = false;
        loop
            invariant_except_break
                !closed,
                skip_block(self@.source, self@.cursor) == skip_block(
                    old(self)@.source,
                    old(self)@.cursor,
                ),
            invariant
                self@.source_name == old(self)@.source_name,
                self@.source == old(self)@.source,
            ensures
                self@ == (ScannerView {
                    cursor: skip_block(old(self)@.source, old(self)@.cursor).0,
                    ..old(self)@
                }),
                closed == skip_block(old(self)@.source, old(self)@.cursor).1,
            decreases remaining(self@.source, self@.cursor),
        {
            match self.pop() {
                Some(ch) => {
                    // The `/` is looked at before it is read, so that the
                    // second `*` of `**/` can still close the comment.
                    if ch == '*' && self.peek() == Some('/') {
                        self.pop();
                        closed = true;
                        break;
                    }
                },
                None => {
                    break;
                },
            }
        }
        closed
    }

    /// Reads the comments that stand at the cursor, each with the
    /// whitespace behind it. Returns the `/` operator if that is what the
    /// first `/` turns out to be, and an error if a block comment is still
    /// open at the end of the input.
    fn consume_comments(&mut self) -> (found: Option<Result<Token, Error>>)
        ensures
            final(self)@ == (ScannerView {
                cursor: skip_comments(old(self)@.source, old(self)@.cursor).1,
                ..old(self)@
            }),
            match skip_comments(old(self)@.source, old(self)@.cursor).0 {
                Some(lexed) => found is Some && delivers(found, old(self)@.source_name, lexed),
                None => found is None,
            },
    {
        loop
            invariant
                self@.source_name == old(self)@.source_name,
                self@.source == old(self)@.source,
                skip_comments(self@.source, self@.cursor) == skip_comments(
                    old(self)@.source,
                    old(self)@.cursor,
                ),
            ensures
                self@ == (ScannerView {
                    cursor: skip_comments(old(self)@.source, old(self)@.cursor).1,
                    ..old(self)@
                }),
                skip_comments(old(self)@.source, old(self)@.cursor).0 is None,
            decreases remaining(self@.source, self@.cursor),
        {
            let ghost before = self@.cursor;
            if self.peek() != Some('/') {
                break;
            }
            self.pop();
            match self.peek() {
                Some('/') => {
                    self.consume_line();
                    proof {
                        lemma_skip_line_shrinks(self@.source, pop(self@.source, before));
                    }
                },
                Some('*') => {
                    if !self.consume_block() {
                        return Some(
                            Err(
                                Error::new(
                                    ErrorKind::UnterminatedComment.describe().as_str(),
                                    self.src_name.as_str(),
                                    self.src_ln,
                                    self.src_col,
                                ),
                            ),
                        );
                    }
                    proof {
                        lemma_skip_block_shrinks(self@.source, pop(self@.source, before));
                    }
                },
                Some(_) => {
                    proof {
                        reveal_strlit("/");
                        assert("/"@ =~= seq!['/']);
                    }
                    return Some(
                        Ok(
                            Token::new(
                                TokenType::Slash,
                                self.src_name.as_str(),
                                self.src_ln,
                                self.src_col,
                                "/",
                            ),
                        ),
                    );
                },
                None => {
                    return None;
                },
            }
            let ghost middle = self@.cursor;
            self.consume_whitespace();
            proof {
                lemma_skip_whitespace_shrinks(self@.source, middle);
            }
        }
        None
    }

    /// Reads the rest of a number whose first character, `starting`, was
    /// read already. The token is recorded where the scanner stands now.
    fn consume_number(&mut self, starting: char) -> (token: Token)
        ensures
            final(self)@ == (ScannerView {
                cursor: number_run(old(self)@.source, old(self)@.cursor, starting == '.'),
                ..old(self)@
            }),
            old(self)@.cursor.pos <= final(self)@.cursor.pos <= old(self)@.source.len(),
            token@ == (TokenView {
                kind: TokenType::NumberLiteral,
                source_name: old(self)@.source_name,
                line: old(self)@.cursor.line,
                column: old(self)@.cursor.column,
                lexeme: seq![starting] + old(self)@.source.subrange(
                    old(self)@.cursor.pos,
                    final(self)@.cursor.pos,
                ),
            }),
    {
        proof {
            use_type_invariant(&*self);
        }
        let mut dot = starting == '.';
        let mut buffer = String::new();
        buffer.push(starting);
        // The number is recorded where it starts.
        let start_line = self.src_ln;
        let start_column = self.src_col;

        loop
            invariant_except_break
                number_run(self@.source, self@.cursor, dot) == number_run(
                    old(self)@.source,
                    old(self)@.cursor,
                    starting == '.',
                ),
            invariant
                self@.source_name == old(self)@.source_name,
                self@.source == old(self)@.source,
                old(self)@.cursor.pos <= self@.cursor.pos <= self@.source.len(),
                buffer@ == seq![starting] + self@.source.subrange(
                    old(self)@.cursor.pos,
                    self@.cursor.pos,
                ),
            ensures
                self@.cursor == number_run(
                    old(self)@.source,
                    old(self)@.cursor,
                    starting == '.',
                ),
            decreases remaining(self@.source, self@.cursor),
        {
            match self.peek() {
                Some(ch) => {
                    if char_is_digit(ch) {
                        buffer.push(ch);
                        self.pop();
                    } else if ch == '.' && !dot {
                        buffer.push(ch);
                        dot = true;
                        self.pop();
                    } else {
                        break;
                    }
                },
                None => {
                    break;
                },
            }
        }

        Token::new(
            TokenType::NumberLiteral,
            self.src_name.as_str(),
            start_line,
            start_column,
            buffer.as_str(),
        )
    }

    /// Reads the rest of a string literal whose opening delimiter,
    /// `starting`, was read already. The token is recorded where its content
    /// starts, one column behind the delimiter; an error, where it was
    /// detected.
    fn consume_string(&mut self, starting: char) -> (read: Result<Token, Error>)
        ensures
            final(self)@ == (ScannerView {
                cursor: string_body(
                    old(self)@.source,
                    old(self)@.cursor,
                    starting,
                    Seq::empty(),
                ).1,
                ..old(self)@
            }),
            match string_body(old(self)@.source, old(self)@.cursor, starting, Seq::empty()).0 {
                Ok(decoded) => read matches Ok(token) && token@ == (TokenView {
                    kind: string_kind(starting),
                    source_name: old(self)@.source_name,
                    line: old(self)@.cursor.line,
                    column: bump(old(self)@.cursor.column),
                    lexeme: decoded,
                }),
                Err(error) => read matches Err(e) && e@ == (ErrorView {
                    message: error.message(),
                    file_name: old(self)@.source_name,
                    line: final(self)@.cursor.line,
                    column: final(self)@.cursor.column,
                }),
            },
    {
        let mut buffer = String::new();
        // The string is recorded where its content starts: in the column
        // behind the delimiter.
        let start_line = self.src_ln;
        let start_column = self.src_col.wrapping_add(1);

        loop
            invariant
                self@.source_name == old(self)@.source_name,
                self@.source == old(self)@.source,
                start_line == old(self)@.cursor.line,
                start_column == bump(old(self)@.cursor.column),
                string_body(self@.source, self@.cursor, starting, buffer@) == string_body(
                    old(self)@.source,
                    old(self)@.cursor,
                    starting,
                    Seq::empty(),
                ),
            decreases remaining(self@.source, self@.cursor),
        {
            let failure = match self.pop() {
                Some(ch) => {
                    if ch == starting {
                        let string_type = if ch == '\'' {
                            TokenType::StringLiteral
                        } else {
                            TokenType::FormattedStringLiteral
                        };
                        return Ok(
                            Token::new(
                                string_type,
                                self.src_name.as_str(),
                                start_line,
                                start_column,
                                buffer.as_str(),
                            ),
                        );
                    } else if ch == '\\' {
                        match self.pop() {
                            Some(escape) => {
                                match Self::escape_meaning(escape) {
                                    Some(meaning) => {
                                        buffer.push(meaning);
                                        continue;
                                    },
                                    None => ErrorKind::UnknownEscapeCharacter(escape),
                                }
                            },
                            None => ErrorKind::UnexpectedEndOfInputInEscape,
                        }
                    } else {
                        buffer.push(ch);
                        continue;
                    }
                },
                None => ErrorKind::UnterminatedString(starting),
            };
            return Err(
                Error::new(
                    failure.describe().as_str(),
                    self.src_name.as_str(),
                    self.src_ln,
                    self.src_col,
                ),
            );
        }
    }

    /// The character that the escape character `escape` stands for.
    fn escape_meaning(escape: char) -> (meaning: Option<char>)
        ensures
            meaning == unescape(escape),
    {
        match escape {
            '\'' => Some('\''),
            '"' => Some('"'),
            't' => Some('\t'),
            'r' => Some('\r'),
            'n' => Some('\n'),
            '\\' => Some('\\'),
            _ => None,
        }
    }

    /// Reads the rest of an identifier whose first character, `starting`,
    /// was read already, and tells reserved words from other identifiers.
    /// The token is recorded where the scanner stands now.
    fn consume_identifier(&mut self, starting: char) -> (token: Token)
        ensures
            final(self)@ == (ScannerView {
                cursor: identifier_run(old(self)@.source, old(self)@.cursor),
                ..old(self)@
            }),
            old(self)@.cursor.pos <= final(self)@.cursor.pos <= old(self)@.source.len(),
            token@ == (TokenView {
                kind: word_kind(token@.lexeme),
                source_name: old(self)@.source_name,
                line: old(self)@.cursor.line,
                column: old(self)@.cursor.column,
                lexeme: seq![starting] + old(self)@.source.subrange(
                    old(self)@.cursor.pos,
                    final(self)@.cursor.pos,
                ),
            }),
    {
        proof {
            use_type_invariant(&*self);
        }
        let mut buffer = String::new();
        buffer.push(starting);
        // The identifier is recorded where it starts.
        let start_line = self.src_ln;
        let start_column = self.src_col;

        loop
            invariant_except_break
                identifier_run(self@.source, self@.cursor) == identifier_run(
                    old(self)@.source,
                    old(self)@.cursor,
                ),
            invariant
                self@.source_name == old(self)@.source_name,
                self@.source == old(self)@.source,
                old(self)@.cursor.pos <= self@.cursor.pos <= self@.source.len(),
                buffer@ == seq![starting] + self@.source.subrange(
                    old(self)@.cursor.pos,
                    self@.cursor.pos,
                ),
            ensures
                self@.cursor == identifier_run(old(self)@.source, old(self)@.cursor),
            decreases remaining(self@.source, self@.cursor),
        {
            match self.peek() {
                Some(ch) => {
                    if !Self::is_identifier_character(ch, false) {
                        break;
                    }
                    buffer.push(ch);
                    self.pop();
                },
                None => {
                    break;
                },
            }
        }

        let kind = match Self::str_to_keyword(buffer.as_str()) {
            Some(reserved) => reserved,
            None => TokenType::Identifier,
        };
        Token::new(kind, self.src_name.as_str(), start_line, start_column, buffer.as_str())
    }

    /// Pulls the next token. Whitespace and comments are skipped first.
    /// Returns `None` once the input is exhausted, and then again on every
    /// later pull; an error leaves the scanner behind what it read, so that
    /// the next pull goes on from there.
    pub fn next(&mut self) -> (pulled: Option<Result<Token, Error>>)
        ensures
            final(self)@ == (ScannerView {
                cursor: scan(old(self)@.source, old(self)@.cursor).1,
                ..old(self)@
            }),
            delivers(pulled, old(self)@.source_name, scan(old(self)@.source, old(self)@.cursor).0),
            in_buffer(final(self)@.source, final(self)@.cursor),
    {
        self.consume_whitespace();
        // Looking for comments may turn up the division operator instead.
        match self.consume_comments() {
            Some(found) => {
                proof {
                    use_type_invariant(&*self);
                }
                return Some(found);
            },
            None => {},
        }
        let ghost at = self@.cursor;
        let pulled = match self.pop() {
            Some(ch) => {
                proof {
                    use_type_invariant(&*self);
                }
                if ch == '\'' || ch == '"' {
                    Some(self.consume_string(ch))
                } else if char_is_digit(ch) || (ch == '.' && self.next_is_digit()) {
                    let token = self.consume_number(ch);
                    assert(token@.lexeme =~= self@.source.subrange(at.pos, self@.cursor.pos));
                    Some(Ok(token))
                } else {
                    match self.operator(ch) {
                        Some(token) => Some(Ok(token)),
                        None => {
                            if Self::is_identifier_character(ch, true) {
                                let token = self.consume_identifier(ch);
                                assert(token@.lexeme =~= self@.source.subrange(
                                    at.pos,
                                    self@.cursor.pos,
                                ));
                                Some(Ok(token))
                            } else {
                                Some(
                                    Err(
                                        Error::new(
                                            ErrorKind::UnexpectedCharacter(ch).describe().as_str(),
                                            self.src_name.as_str(),
                                            self.src_ln,
                                            self.src_col,
                                        ),
                                    ),
                                )
                            }
                        },
                    }
                }
            },
            None => None,
        };
        proof {
            use_type_invariant(&*self);
        }
        pulled
    }

    /// Whether the next character is an ASCII digit.
    fn next_is_digit(&self) -> (digit: bool)
        ensures
            digit == starts_fraction(self@.source, self@.cursor),
    {
        match self.peek() {
            Some(ch) => char_is_digit(ch),
            None => false,
        }
    }
}

} // verus!
