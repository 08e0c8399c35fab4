//! Lines and columns: the counters agree with the text, and what a pull
//! yields is recorded where it stands.

use vstd::prelude::*;
use crate::classify::{is_digit, is_space};
use crate::error::ErrorKind;
use crate::grammar::{
    at_block_end, bump, Cursor, identifier_run, in_buffer, is_identifier_char,
    lemma_skip_block_shrinks, lemma_skip_line_shrinks, lemma_skip_whitespace_shrinks, Lexed,
    number_run, Opener, opener, peek, pop, read, remaining, scan, skip_block, skip_comments,
    skip_line, skip_whitespace, start, string_body, unescape,
};
use crate::laws::reading::{
    lemma_read_once, lemma_read_split, lemma_skip_block_stays, lemma_skip_comments_yield,
    lemma_skip_line_stays, lemma_skip_whitespace_stays,
};
use crate::scan::TokenType;

verus! {

/// The number of line feeds in front of index `i`.
pub open spec fn line_feeds(src: Seq<char>, i: int) -> int
    decreases i,
{
    if i <= 0 {
        0
    } else if src[i - 1] == '\n' {
        line_feeds(src, i - 1) + 1
    } else {
        line_feeds(src, i - 1)
    }
}

/// The index at which the line of index `i` starts: behind the last line
/// feed in front of `i`, or at 0.
pub open spec fn line_start(src: Seq<char>, i: int) -> int
    decreases i,
{
    if i <= 0 {
        0
    } else if src[i - 1] == '\n' {
        i
    } else {
        line_start(src, i - 1)
    }
}

/// The 1-based line on which the character at index `i` stands.
pub open spec fn line_of(src: Seq<char>, i: int) -> int {
    line_feeds(src, i) + 1
}

/// The 1-based column at which the character at index `i` stands.
pub open spec fn column_of(src: Seq<char>, i: int) -> int {
    i - line_start(src, i) + 1
}

/// The value that a 32-bit counter holds after counting to `n`: the
/// counters wrap.
#[verifier::opaque]
pub open spec fn wrapped(n: int) -> u32 {
    (n % 0x1_0000_0000) as u32
}

/// A counter holds every number that fits in 32 bits as it is.
pub proof fn lemma_wrapped_fits(n: int)
    requires
        0 <= n <= u32::MAX,
    ensures
        wrapped(n) == n,
{
    reveal(wrapped);
}

/// A counter that has counted to `n` counts to `n + 1` next.
pub proof fn lemma_bump_wrapped(n: int)
    requires
        0 <= n,
    ensures
        bump(wrapped(n)) == wrapped(n + 1),
{
    reveal(wrapped);
}

/// Reading counts lines and columns. After `count` characters are read,
/// all of which are there, the line counter has grown by the number of line
/// feeds among them. The column counter is the number of characters read
/// behind the last of these line feeds, or, without one, has grown by
/// `count`. Either counter wraps where it is full.
pub proof fn law_reading_counts_lines_and_columns(src: Seq<char>, c: Cursor, count: int)
    requires
        in_buffer(src, c),
        0 <= count,
        c.pos + count <= src.len(),
    ensures
        ({
            let behind = read(src, c, count);
            let feeds = line_feeds(src, c.pos + count) - line_feeds(src, c.pos);
            let from = line_start(src, c.pos + count);
            &&& behind.pos == c.pos + count
            &&& 0 <= feeds <= count
            &&& behind.line == wrapped(c.line + feeds)
            &&& feeds == 0 <==> from <= c.pos
            &&& behind.column == if feeds == 0 {
                wrapped(c.column + count)
            } else {
                wrapped(c.pos + count - from)
            }
        }),
    decreases count,
{
    if count > 0 {
        let before = read(src, c, count - 1);
        law_reading_counts_lines_and_columns(src, c, count - 1);
        lemma_read_split(src, c, count - 1, 1);
        lemma_read_once(src, before);
        let feeds = line_feeds(src, c.pos + count - 1) - line_feeds(src, c.pos);
        lemma_line_bounds(src, c.pos + count - 1);
        lemma_bump_wrapped(c.line + feeds);
        lemma_bump_wrapped(c.column + count - 1);
        lemma_bump_wrapped(c.pos + count - 1 - line_start(src, c.pos + count - 1));
        lemma_wrapped_fits(0);
    } else {
        lemma_line_bounds(src, c.pos);
        lemma_wrapped_fits(c.line as int);
        lemma_wrapped_fits(c.column as int);
    }
}

/// A read at the end of the input moves the column counter on and nothing
/// else, however often it is made.
pub proof fn law_reading_at_the_end_counts_columns(src: Seq<char>, c: Cursor, count: int)
    requires
        c.pos == src.len(),
        0 <= count,
    ensures
        read(src, c, count) == (Cursor {
            pos: c.pos,
            line: c.line,
            column: wrapped(c.column + count),
        }),
    decreases count,
{
    if count > 0 {
        law_reading_at_the_end_counts_columns(src, c, count - 1);
        lemma_read_split(src, c, count - 1, 1);
        lemma_read_once(src, read(src, c, count - 1));
        lemma_bump_wrapped(c.column + count - 1);
    } else {
        lemma_wrapped_fits(c.column as int);
    }
}

/// Where reading to the end of the input leaves the cursor: the line
/// counter has grown by the number of line feeds that were left, and the
/// column counter is one more than the number of characters behind the last
/// of them, or, without one, has grown by one more than the number of
/// characters that were left. Either counter wraps where it is full.
pub open spec fn end_of_input(src: Seq<char>, c: Cursor) -> Cursor {
    let feeds = line_feeds(src, src.len() as int) - line_feeds(src, c.pos);
    Cursor {
        pos: src.len() as int,
        line: wrapped(c.line + feeds),
        column: if feeds == 0 {
            wrapped(c.column + (src.len() - c.pos) + 1)
        } else {
            wrapped(src.len() - line_start(src, src.len() as int) + 1)
        },
    }
}

/// Reading to the end of the input: after all characters that are left
/// are read and one more read is made at the end, as it is where a comment
/// or a string is still open, the cursor is the one that `end_of_input`
/// describes.
pub proof fn law_reading_to_the_end(src: Seq<char>, c: Cursor)
    requires
        in_buffer(src, c),
    ensures
        read(src, c, src.len() - c.pos + 1) == end_of_input(src, c),
{
    let left = src.len() - c.pos;
    law_reading_counts_lines_and_columns(src, c, left);
    lemma_read_split(src, c, left, 1);
    let last = read(src, c, left);
    lemma_read_once(src, last);
    lemma_line_bounds(src, src.len() as int);
    lemma_bump_wrapped(c.column + left);
    lemma_bump_wrapped(src.len() - line_start(src, src.len() as int));
}

/// Whether the counters of a cursor agree with its index: the line counter
/// is the line of the next character, and the column counter is the number
/// of characters read on that line.
pub open spec fn tracks(src: Seq<char>, c: Cursor) -> bool {
    &&& 0 <= c.pos <= src.len()
    &&& c.line == line_of(src, c.pos)
    &&& c.column == c.pos - line_start(src, c.pos)
}

/// A line has no more line feeds in front of it than characters, and
/// starts in front of its characters.
pub proof fn lemma_line_bounds(src: Seq<char>, i: int)
    requires
        0 <= i,
    ensures
        0 <= line_feeds(src, i) <= i,
        0 <= line_start(src, i) <= i,
    decreases i,
{
    if i > 0 {
        lemma_line_bounds(src, i - 1);
    }
}

/// Reading a character keeps the counters in step with the index.
pub proof fn lemma_pop_tracks(src: Seq<char>, c: Cursor)
    requires
        src.len() < u32::MAX,
        tracks(src, c),
        peek(src, c) is Some,
    ensures
        tracks(src, pop(src, c)),
        src[c.pos] != '\n' ==> pop(src, c).line == line_of(src, c.pos) && pop(src, c).column
            == column_of(src, c.pos),
{
    lemma_line_bounds(src, c.pos);
}

/// Skipping whitespace keeps the counters in step.
pub proof fn lemma_skip_whitespace_tracks(src: Seq<char>, c: Cursor)
    requires
        src.len() < u32::MAX,
        tracks(src, c),
    ensures
        tracks(src, skip_whitespace(src, c)),
    decreases remaining(src, c),
{
    if peek(src, c) matches Some(ch) && is_space(ch) {
        lemma_pop_tracks(src, c);
        lemma_skip_whitespace_tracks(src, pop(src, c));
    }
}

/// Skipping a line keeps the counters in step unless it runs into the end
/// of the input.
pub proof fn lemma_skip_line_tracks(src: Seq<char>, c: Cursor)
    requires
        src.len() < u32::MAX,
        tracks(src, c),
    ensures
        skip_line(src, c).pos <= src.len(),
        skip_line(src, c).pos < src.len() ==> tracks(src, skip_line(src, c)),
    decreases remaining(src, c),
{
    if peek(src, c) is Some {
        lemma_pop_tracks(src, c);
        if src[c.pos] != '\n' {
            lemma_skip_line_tracks(src, pop(src, c));
        }
    }
}

/// Skipping a block comment that is closed keeps the counters in step.
pub proof fn lemma_skip_block_tracks(src: Seq<char>, c: Cursor)
    requires
        src.len() < u32::MAX,
        tracks(src, c),
    ensures
        skip_block(src, c).0.pos <= src.len(),
        skip_block(src, c).1 ==> tracks(src, skip_block(src, c).0),
    decreases remaining(src, c),
{
    if peek(src, c) is Some {
        lemma_pop_tracks(src, c);
        if at_block_end(src, c) {
            lemma_pop_tracks(src, pop(src, c));
        } else {
            lemma_skip_block_tracks(src, pop(src, c));
        }
    }
}

/// Skipping comments keeps the counters in step unless it runs into the
/// end of the input; and the `/` operator is recorded where it stands.
pub proof fn lemma_skip_comments_tracks(src: Seq<char>, c: Cursor)
    requires
        src.len() < u32::MAX,
        tracks(src, c),
    ensures
        ({
            let (found, behind) = skip_comments(src, c);
            &&& behind.pos <= src.len()
            &&& found is None && behind.pos < src.len() ==> tracks(src, behind)
            &&& found matches Some(Lexed::Token { line, column, .. }) ==> {
                &&& tracks(src, behind)
                &&& c.pos < behind.pos
                &&& src[behind.pos - 1] == '/'
                &&& line == line_of(src, behind.pos - 1)
                &&& column == column_of(src, behind.pos - 1)
            }
        }),
    decreases remaining(src, c),
{
    if peek(src, c) == Some('/') {
        let c1 = pop(src, c);
        lemma_pop_tracks(src, c);
        match opener(peek(src, c1)) {
            Opener::Line => {
                lemma_skip_line_tracks(src, c1);
                lemma_skip_line_shrinks(src, c1);
                let c2 = skip_line(src, c1);
                lemma_skip_whitespace_shrinks(src, c2);
                if c2.pos < src.len() {
                    lemma_skip_whitespace_tracks(src, c2);
                    lemma_skip_comments_tracks(src, skip_whitespace(src, c2));
                } else {
                    assert(skip_whitespace(src, c2) == c2);
                    assert(skip_comments(src, c2) == (None::<Lexed>, c2));
                }
            },
            Opener::Block => {
                lemma_skip_block_tracks(src, c1);
                lemma_skip_block_shrinks(src, c1);
                let (c2, closed) = skip_block(src, c1);
                lemma_skip_whitespace_shrinks(src, c2);
                if closed {
                    lemma_skip_whitespace_tracks(src, c2);
                    lemma_skip_comments_tracks(src, skip_whitespace(src, c2));
                }
            },
            Opener::Operator => {},
            Opener::Nothing => {},
        }
    }
}

/// Reading the rest of a number keeps the counters in step.
pub proof fn lemma_number_run_tracks(src: Seq<char>, c: Cursor, dot: bool)
    requires
        src.len() < u32::MAX,
        tracks(src, c),
    ensures
        tracks(src, number_run(src, c, dot)),
        c.pos <= number_run(src, c, dot).pos,
    decreases remaining(src, c),
{
    match peek(src, c) {
        Some(ch) => {
            if is_digit(ch) {
                lemma_pop_tracks(src, c);
                lemma_number_run_tracks(src, pop(src, c), dot);
            } else if ch == '.' && !dot {
                lemma_pop_tracks(src, c);
                lemma_number_run_tracks(src, pop(src, c), true);
            }
        },
        None => {},
    }
}

/// Reading the rest of an identifier keeps the counters in step.
pub proof fn lemma_identifier_run_tracks(src: Seq<char>, c: Cursor)
    requires
        src.len() < u32::MAX,
        tracks(src, c),
    ensures
        tracks(src, identifier_run(src, c)),
        c.pos <= identifier_run(src, c).pos,
    decreases remaining(src, c),
{
    if peek(src, c) matches Some(ch) && is_identifier_char(ch, false) {
        lemma_pop_tracks(src, c);
        lemma_identifier_run_tracks(src, pop(src, c));
    }
}

/// Reading the body of a string keeps the counters in step unless it runs
/// into the end of the input; an unknown escape character is the one that
/// was read last.
pub proof fn lemma_string_body_tracks(
    src: Seq<char>,
    c: Cursor,
    delimiter: char,
    decoded: Seq<char>,
)
    requires
        src.len() < u32::MAX,
        tracks(src, c),
    ensures
        ({
            let (body, behind) = string_body(src, c, delimiter, decoded);
            &&& c.pos <= behind.pos <= src.len()
            &&& body is Ok ==> tracks(src, behind) && c.pos < behind.pos
            &&& body matches Err(ErrorKind::UnknownEscapeCharacter(e)) ==> {
                &&& tracks(src, behind)
                &&& c.pos < behind.pos
                &&& src[behind.pos - 1] == e
            }
            &&& body matches Err(ErrorKind::UnterminatedString(_)) ==> behind.pos == src.len()
            &&& body matches Err(ErrorKind::UnexpectedEndOfInputInEscape) ==> behind.pos
                == src.len()
            &&& !(body matches Err(ErrorKind::UnexpectedCharacter(_)))
            &&& !(body matches Err(ErrorKind::UnterminatedComment))
        }),
    decreases remaining(src, c),
{
    let c1 = pop(src, c);
    match peek(src, c) {
        Some(ch) => {
            lemma_pop_tracks(src, c);
            if ch == delimiter {
            } else if ch == '\\' {
                match peek(src, c1) {
                    Some(e) => {
                        lemma_pop_tracks(src, c1);
                        match unescape(e) {
                            Some(meaning) => {
                                lemma_string_body_tracks(
                                    src,
                                    pop(src, c1),
                                    delimiter,
                                    decoded.push(meaning),
                                );
                            },
                            None => {},
                        }
                    },
                    None => {},
                }
            } else {
                lemma_string_body_tracks(src, c1, delimiter, decoded.push(ch));
            }
        },
        None => {},
    }
}

/// The index of the first character of what a pull yields: behind the
/// whitespace and the comments that the pull skips.
pub open spec fn first_index(src: Seq<char>, c: Cursor) -> int {
    let (found, behind) = skip_comments(src, skip_whitespace(src, c));
    if found is Some {
        behind.pos - 1
    } else {
        behind.pos
    }
}

/// Whether `kind` is one of the two kinds of string literals.
pub open spec fn is_string(kind: TokenType) -> bool {
    kind == TokenType::StringLiteral || kind == TokenType::FormattedStringLiteral
}

/// Tokens are recorded where their text starts. As long as the counters
/// agree with the text, which they do at the start of a buffer, a pull
/// records its token at the line and the column at which the first
/// character of the token's text stands in the source, and leaves the
/// counters in agreement with the text. For a string literal the text
/// starts behind the opening quote, so that it is recorded one column
/// behind the quote. The text of any other token is the text of the source
/// from its first character to where the pull ends.
///
/// The buffer has to be short enough for the counters not to wrap.
pub proof fn law_tokens_are_recorded_where_they_start(src: Seq<char>, c: Cursor)
    requires
        src.len() < u32::MAX,
        tracks(src, c),
    ensures
        tracks(src, start()),
        scan(src, c).0 matches Lexed::Token { kind, line, column, lexeme } ==> {
            let at = first_index(src, c);
            let behind = scan(src, c).1;
            &&& c.pos <= at < behind.pos
            &&& tracks(src, behind)
            &&& if is_string(kind) {
                &&& at + 1 < behind.pos
                &&& src[at] == (if kind == TokenType::StringLiteral {
                    '\''
                } else {
                    '"'
                })
                &&& line == line_of(src, at + 1)
                &&& column == column_of(src, at + 1)
            } else {
                &&& line == line_of(src, at)
                &&& column == column_of(src, at)
                &&& lexeme == src.subrange(at, behind.pos)
            }
        },
{
    lemma_skip_whitespace_tracks(src, c);
    let c0 = skip_whitespace(src, c);
    lemma_skip_whitespace_stays(src, c);
    lemma_skip_comments_tracks(src, c0);
    lemma_skip_comments_yield(src, c0);
    let (found, at) = skip_comments(src, c0);
    if found is None && peek(src, at) is Some {
        let c1 = pop(src, at);
        lemma_pop_tracks(src, at);
        lemma_line_bounds(src, at.pos);
        lemma_string_body_tracks(src, c1, '\'', Seq::empty());
        lemma_string_body_tracks(src, c1, '"', Seq::empty());
        lemma_number_run_tracks(src, c1, true);
        lemma_number_run_tracks(src, c1, false);
        lemma_identifier_run_tracks(src, c1);
        assert(seq![src[at.pos]] =~= src.subrange(at.pos, at.pos + 1));
    } else if found matches Some(Lexed::Token { .. }) {
        assert(seq!['/'] =~= src.subrange(at.pos - 1, at.pos));
    }
}

/// Errors are reported where they are detected. As long as the counters
/// agree with the text, an unexpected character and an unknown escape
/// character are reported at the line and the column at which that
/// character stands, unless it is a line feed, and the counters stay in
/// agreement with the text. Every other error is detected at the end of
/// the input.
///
/// The buffer has to be short enough for the counters not to wrap.
pub proof fn law_errors_are_reported_where_they_are_detected(src: Seq<char>, c: Cursor)
    requires
        src.len() < u32::MAX,
        tracks(src, c),
    ensures
        scan(src, c).0 matches Lexed::Failure { error, line, column } ==> {
            let behind = scan(src, c).1;
            &&& line == behind.line
            &&& column == behind.column
            &&& match error {
                ErrorKind::UnexpectedCharacter(ch) | ErrorKind::UnknownEscapeCharacter(ch) => {
                    &&& tracks(src, behind)
                    &&& c.pos < behind.pos
                    &&& src[behind.pos - 1] == ch
                    &&& ch != '\n' ==> line == line_of(src, behind.pos - 1) && column
                        == column_of(src, behind.pos - 1)
                },
                _ => behind.pos == src.len(),
            }
        },
{
    lemma_skip_whitespace_tracks(src, c);
    let c0 = skip_whitespace(src, c);
    lemma_skip_whitespace_stays(src, c);
    lemma_skip_comments_tracks(src, c0);
    lemma_skip_comments_yield(src, c0);
    let (found, at) = skip_comments(src, c0);
    if found is None && peek(src, at) is Some {
        let c1 = pop(src, at);
        lemma_pop_tracks(src, at);
        lemma_string_body_tracks(src, c1, '\'', Seq::empty());
        lemma_string_body_tracks(src, c1, '"', Seq::empty());
        let behind = scan(src, c).1;
        if behind.pos > 0 && behind.pos <= src.len() {
            lemma_line_bounds(src, behind.pos);
        }
    } else if found is Some {
        lemma_unterminated_comment_ends_at_end(src, c0);
    }
}

/// An unterminated block comment is detected at the end of the input.
pub proof fn lemma_unterminated_comment_ends_at_end(src: Seq<char>, c: Cursor)
    requires
        0 <= c.pos <= src.len(),
    ensures
        skip_comments(src, c).0 matches Some(Lexed::Failure { line, column, .. }) ==> {
            let behind = skip_comments(src, c).1;
            &&& behind.pos == src.len()
            &&& line == behind.line
            &&& column == behind.column
        },
    decreases remaining(src, c),
{
    if peek(src, c) == Some('/') {
        let c1 = pop(src, c);
        match opener(peek(src, c1)) {
            Opener::Line => {
                lemma_skip_line_stays(src, c1);
                lemma_skip_line_shrinks(src, c1);
                lemma_skip_whitespace_shrinks(src, skip_line(src, c1));
                lemma_skip_whitespace_stays(src, skip_line(src, c1));
                lemma_unterminated_comment_ends_at_end(
                    src,
                    skip_whitespace(src, skip_line(src, c1)),
                );
            },
            Opener::Block => {
                lemma_skip_block_stays(src, c1);
                lemma_skip_block_shrinks(src, c1);
                lemma_open_block_ends_at_end(src, c1);
                let (c2, closed) = skip_block(src, c1);
                lemma_skip_whitespace_shrinks(src, c2);
                if closed {
                    lemma_skip_whitespace_stays(src, c2);
                    lemma_unterminated_comment_ends_at_end(src, skip_whitespace(src, c2));
                }
            },
            Opener::Operator => {},
            Opener::Nothing => {},
        }
    }
}

/// A block comment that stays open is skipped to the end of the input.
pub proof fn lemma_open_block_ends_at_end(src: Seq<char>, c: Cursor)
    requires
        0 <= c.pos <= src.len(),
    ensures
        !skip_block(src, c).1 ==> skip_block(src, c).0.pos == src.len(),
    decreases remaining(src, c),
{
    if peek(src, c) is Some && !at_block_end(src, c) {
        lemma_open_block_ends_at_end(src, pop(src, c));
    }
}

} // verus!
