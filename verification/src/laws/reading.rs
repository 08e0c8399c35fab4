//! Reading on from a cursor: how far it leads, and that it never leads back.

use vstd::prelude::*;
use crate::classify::{is_digit, is_space};
use crate::error::ErrorKind;
use crate::grammar::{
    at_block_end, Cursor, identifier_run, in_buffer, is_identifier_char, Lexed, number_run, Opener,
    opener, peek, pop, read, remaining, skip_block, skip_comments, skip_line, skip_whitespace,
    starts_fraction, string_body, unescape,
};
use crate::scan::TokenType;

verus! {

/// Whether `text` stands in `src` from index `at` on.
pub open spec fn stands_at(src: Seq<char>, at: int, text: Seq<char>) -> bool {
    &&& 0 <= at
    &&& at + text.len() <= src.len()
    &&& src.subrange(at, at + text.len()) == text
}

/// Where a text stands in the source, its characters stand one by one.
pub proof fn lemma_stands_at_index(src: Seq<char>, at: int, text: Seq<char>)
    requires
        stands_at(src, at, text),
    ensures
        forall|i: int| 0 <= i < text.len() ==> src[at + i] == text[i],
{
    assert forall|i: int| 0 <= i < text.len() implies src[at + i] == text[i] by {
        assert(src.subrange(at, at + text.len())[i] == src[at + i]);
    }
}

/// Where a text of two parts stands, the first part stands there and the
/// second behind it.
pub proof fn lemma_stands_at_split(src: Seq<char>, at: int, head: Seq<char>, tail: Seq<char>)
    requires
        stands_at(src, at, head + tail),
    ensures
        stands_at(src, at, head),
        stands_at(src, at + head.len(), tail),
{
    let text = head + tail;
    lemma_stands_at_index(src, at, text);
    assert(src.subrange(at, at + head.len()) =~= head) by {
        assert forall|i: int| 0 <= i < head.len() implies src[at + i] == head[i] by {
            assert(text[i] == head[i]);
        }
    }
    assert(src.subrange(at + head.len(), at + head.len() + tail.len()) =~= tail) by {
        assert forall|i: int| 0 <= i < tail.len() implies src[at + head.len() + i] == tail[i] by {
            assert(text[head.len() + i] == tail[i]);
        }
    }
}

/// Reading one character is one read.
pub proof fn lemma_read_once(src: Seq<char>, c: Cursor)
    ensures
        read(src, c, 1) == pop(src, c),
{
    assert(read(src, pop(src, c), 0) == pop(src, c));
}

/// Reading `a + b` characters is reading `a` and then `b`.
pub proof fn lemma_read_split(src: Seq<char>, c: Cursor, a: int, b: int)
    requires
        0 <= a,
        0 <= b,
    ensures
        read(src, c, a + b) == read(src, read(src, c, a), b),
    decreases a,
{
    if a > 0 {
        lemma_read_split(src, pop(src, c), a - 1, b);
    }
}

/// Reading `count` characters that are all there moves the index on by
/// `count`.
pub proof fn lemma_read_pos(src: Seq<char>, c: Cursor, count: int)
    requires
        in_buffer(src, c),
        0 <= count,
        c.pos + count <= src.len(),
    ensures
        read(src, c, count).pos == c.pos + count,
    decreases count,
{
    if count > 0 {
        lemma_read_pos(src, pop(src, c), count - 1);
    }
}

/// Whether the line counter has room for a line feed in every character
/// that is left, so that it cannot wrap in this buffer.
pub open spec fn line_fits(src: Seq<char>, c: Cursor) -> bool {
    c.line + remaining(src, c) <= u32::MAX
}

/// Whether cursor `b` is where reading on from cursor `a` can lead: in the
/// buffer, not in front of `a`, and, if the line counter could not wrap at
/// `a`, on no earlier line and again with room for the lines that are left.
pub open spec fn follows(src: Seq<char>, a: Cursor, b: Cursor) -> bool {
    &&& in_buffer(src, b)
    &&& a.pos <= b.pos
    &&& line_fits(src, a) ==> line_fits(src, b) && a.line <= b.line
}

/// Skipping whitespace stays in the buffer and never moves back.
pub proof fn lemma_skip_whitespace_stays(src: Seq<char>, c: Cursor)
    requires
        in_buffer(src, c),
    ensures
        follows(src, c, skip_whitespace(src, c)),
        !(peek(src, skip_whitespace(src, c)) matches Some(ch) && is_space(ch)),
    decreases remaining(src, c),
{
    if peek(src, c) matches Some(ch) && is_space(ch) {
        lemma_skip_whitespace_stays(src, pop(src, c));
    }
}

/// Skipping a line stays in the buffer and never moves back.
pub proof fn lemma_skip_line_stays(src: Seq<char>, c: Cursor)
    requires
        in_buffer(src, c),
    ensures
        follows(src, c, skip_line(src, c)),
    decreases remaining(src, c),
{
    if peek(src, c) matches Some(ch) && ch != '\n' {
        lemma_skip_line_stays(src, pop(src, c));
    }
}

/// Skipping a block comment stays in the buffer and never moves back.
pub proof fn lemma_skip_block_stays(src: Seq<char>, c: Cursor)
    requires
        in_buffer(src, c),
    ensures
        follows(src, c, skip_block(src, c).0),
    decreases remaining(src, c),
{
    if peek(src, c) is Some && !at_block_end(src, c) {
        lemma_skip_block_stays(src, pop(src, c));
    }
}

/// What skipping comments can yield: nothing, with the cursor on no `/`
/// and on no whitespace, or at the end of the input; the `/` operator; or
/// an unterminated comment. It reads at least one character whenever it
/// yields something.
pub proof fn lemma_skip_comments_yield(src: Seq<char>, c: Cursor)
    requires
        in_buffer(src, c),
        !(peek(src, c) matches Some(ch) && is_space(ch)),
    ensures
        ({
            let (found, behind) = skip_comments(src, c);
            &&& follows(src, c, behind)
            &&& match found {
                None => {
                    &&& peek(src, behind) != Some('/')
                    &&& !(peek(src, behind) matches Some(ch) && is_space(ch))
                },
                Some(Lexed::Token { kind, line, column, lexeme }) => {
                    &&& kind == TokenType::Slash
                    &&& lexeme == seq!['/']
                    &&& line == behind.line
                    &&& c.pos < behind.pos
                },
                Some(Lexed::Failure { error, line, column }) => {
                    &&& error == ErrorKind::UnterminatedComment
                    &&& line == behind.line
                    &&& c.pos < behind.pos
                },
                Some(Lexed::End) => false,
            }
        }),
    decreases remaining(src, c),
{
    if peek(src, c) == Some('/') {
        let c1 = pop(src, c);
        match opener(peek(src, c1)) {
            Opener::Line => {
                lemma_skip_line_stays(src, c1);
                lemma_skip_whitespace_stays(src, skip_line(src, c1));
                lemma_skip_comments_yield(src, skip_whitespace(src, skip_line(src, c1)));
            },
            Opener::Block => {
                lemma_skip_block_stays(src, c1);
                let (c2, closed) = skip_block(src, c1);
                if closed {
                    lemma_skip_whitespace_stays(src, c2);
                    lemma_skip_comments_yield(src, skip_whitespace(src, c2));
                }
            },
            Opener::Operator => {},
            Opener::Nothing => {},
        }
    }
}

/// Reading the rest of a number stays in the buffer and never moves back,
/// and stops in front of a character that cannot go on with the number.
pub proof fn lemma_number_run_stays(src: Seq<char>, c: Cursor, dot: bool)
    requires
        in_buffer(src, c),
    ensures
        follows(src, c, number_run(src, c, dot)),
        !starts_fraction(src, number_run(src, c, dot)),
    decreases remaining(src, c),
{
    match peek(src, c) {
        Some(ch) => {
            if is_digit(ch) {
                lemma_number_run_stays(src, pop(src, c), dot);
            } else if ch == '.' && !dot {
                lemma_number_run_stays(src, pop(src, c), true);
            }
        },
        None => {},
    }
}

/// Reading the rest of an identifier stays in the buffer and never moves
/// back.
pub proof fn lemma_identifier_run_stays(src: Seq<char>, c: Cursor)
    requires
        in_buffer(src, c),
    ensures
        follows(src, c, identifier_run(src, c)),
    decreases remaining(src, c),
{
    if peek(src, c) matches Some(ch) && is_identifier_char(ch, false) {
        lemma_identifier_run_stays(src, pop(src, c));
    }
}

/// Reading the body of a string stays in the buffer and never moves back.
pub proof fn lemma_string_body_stays(
    src: Seq<char>,
    c: Cursor,
    delimiter: char,
    decoded: Seq<char>,
)
    requires
        in_buffer(src, c),
    ensures
        follows(src, c, string_body(src, c, delimiter, decoded).1),
    decreases remaining(src, c),
{
    let c1 = pop(src, c);
    match peek(src, c) {
        Some(ch) => {
            if ch == delimiter {
            } else if ch == '\\' {
                match peek(src, c1) {
                    Some(e) => {
                        match unescape(e) {
                            Some(meaning) => {
                                lemma_string_body_stays(
                                    src,
                                    pop(src, c1),
                                    delimiter,
                                    decoded.push(meaning),
                                );
                            },
                            None => {},
                        }
                    },
                    None => {},
                }
            } else {
                lemma_string_body_stays(src, c1, delimiter, decoded.push(ch));
            }
        },
        None => {},
    }
}

} // verus!
