//! The record that describes one lexical failure.

use vstd::prelude::*;
use vstd::string::StringExecFns;

verus! {

/// The ways in which scanning can fail.
#[derive(Copy, Clone, PartialEq, Eq, Debug, Structural)]
pub enum ErrorKind {
    /// The character starts no token.
    UnexpectedCharacter(char),
    /// A block comment was still open at the end of the input.
    UnterminatedComment,
    /// A string literal, opened by the given delimiter, was still open at
    /// the end of the input.
    UnterminatedString(char),
    /// A backslash in a string literal was followed by the given character,
    /// which is no escape character.
    UnknownEscapeCharacter(char),
    /// A backslash in a string literal was the last character of the input.
    UnexpectedEndOfInputInEscape,
}

impl ErrorKind {
    /// The message that describes a failure of this kind.
    pub open spec fn message(self) -> Seq<char> {
        match self {
            ErrorKind::UnexpectedCharacter(ch) => "unexpected "@ + seq![ch] + " token"@,
            ErrorKind::UnterminatedComment => "expected '*/' but found eof"@,
            ErrorKind::UnterminatedString(delimiter) => if delimiter == '"' {
                "expected \" token"@
            } else {
                "expected ' token"@
            },
            ErrorKind::UnknownEscapeCharacter(ch) => "unknown escape character "@ + seq![ch]
                + " found"@,
            ErrorKind::UnexpectedEndOfInputInEscape => "expected escape character, found EOF"@,
        }
    }

    /// Whether the scanner can report this kind: a string is opened by one
    /// of the two quotes.
    pub open spec fn reportable(self) -> bool {
        self matches ErrorKind::UnterminatedString(delimiter) ==> delimiter == '\''
            || delimiter == '"'
    }

    /// The message tells the kind: two kinds that the scanner can report
    /// and that have the same message are the same kind, with the same
    /// character in it.
    pub proof fn lemma_message_tells_kind(self, other: ErrorKind)
        requires
            self.reportable(),
            other.reportable(),
            self.message() == other.message(),
        ensures
            self == other,
    {
        reveal_strlit("unexpected ");
        reveal_strlit(" token");
        reveal_strlit("expected '*/' but found eof");
        reveal_strlit("expected \" token");
        reveal_strlit("expected ' token");
        reveal_strlit("unknown escape character ");
        reveal_strlit(" found");
        reveal_strlit("expected escape character, found EOF");
        let a = self.message();
        let b = other.message();
        assert(a.len() == b.len());
        assert(a[0] == b[0]);
        assert(a[2] == b[2]);
        assert(a[9] == b[9]);
        match self {
            ErrorKind::UnexpectedCharacter(ch) => {
                assert(a[11] == ch);
                assert(a[11] == b[11]);
            },
            ErrorKind::UnknownEscapeCharacter(ch) => {
                assert(a[25] == ch);
                assert(a[25] == b[25]);
            },
            _ => {},
        }
    }

    /// Writes out the message that describes a failure of this kind.
    pub fn describe(&self) -> (text: String)
        ensures
            text@ == self.message(),
    {
        match self {
            ErrorKind::UnexpectedCharacter(ch) => {
                let mut text = String::from_str("unexpected ");
                text.push(*ch);
                text.append(" token");
                text
            },
            ErrorKind::UnterminatedComment => String::from_str("expected '*/' but found eof"),
            ErrorKind::UnterminatedString(delimiter) => {
                if *delimiter == '"' {
                    String::from_str("expected \" token")
                } else {
                    String::from_str("expected ' token")
                }
            },
            ErrorKind::UnknownEscapeCharacter(ch) => {
                let mut text = String::from_str("unknown escape character ");
                text.push(*ch);
                text.append(" found");
                text
            },
            ErrorKind::UnexpectedEndOfInputInEscape => String::from_str(
                "expected escape character, found EOF",
            ),
        }
    }
}

/// One lexical failure: what went wrong and where it was detected.
pub struct Error {
    msg: String,
    fname: String,
    src_line: u32,
    src_column: u32,
}

/// The mathematical content of an [`Error`].
pub struct ErrorView {
    pub message: Seq<char>,
    pub file_name: Seq<char>,
    pub line: u32,
    pub column: u32,
}

impl View for Error {
    type V = ErrorView;

    closed spec fn view(&self) -> ErrorView {
        ErrorView {
            message: self.msg@,
            file_name: self.fname@,
            line: self.src_line,
            column: self.src_column,
        }
    }
}

impl Error {
    /// Builds an error record from its four parts.
    pub fn new(msg: &str, file: &str, ln: u32, col: u32) -> (e: Self)
        ensures
            e@ == (ErrorView { message: msg@, file_name: file@, line: ln, column: col }),
    {
        Self {
            msg: String::from_str(msg),
            fname: String::from_str(file),
            src_line: ln,
            src_column: col,
        }
    }

    /// The human-readable description.
    pub fn message(&self) -> (m: &str)
        ensures
            m@ == self@.message,
    {
        self.msg.as_str()
    }

    /// The name of the source buffer in which the failure was detected.
    pub fn file_name(&self) -> (f: &str)
        ensures
            f@ == self@.file_name,
    {
        self.fname.as_str()
    }

    /// The line on which the failure was detected.
    pub fn line(&self) -> (l: u32)
        ensures
            l == self@.line,
    {
        self.src_line
    }

    /// The column at which the failure was detected.
    pub fn column(&self) -> (c: u32)
        ensures
            c == self@.column,
    {
        self.src_column
    }
}

} // verus!
