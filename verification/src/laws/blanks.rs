//! Whitespace and comments: what a pull skips, and the comment that never
//! ends.

use vstd::prelude::*;
use crate::classify::is_space;
use crate::error::ErrorKind;
use crate::grammar::{
    Cursor, in_buffer, lex, Lexed, peek, pop, read, scan, skip_block, skip_comments, skip_line,
    skip_whitespace, skipped,
};
use crate::laws::positions::{
    end_of_input, law_reading_counts_lines_and_columns, law_reading_to_the_end, line_feeds, wrapped,
};
use crate::laws::reading::{
    lemma_read_once, lemma_read_pos, lemma_read_split, lemma_stands_at_index, lemma_stands_at_split,
    stands_at,
};

verus! {

/// Whitespace yields nothing: a pull that starts on whitespace skips what
/// the pull that starts behind it skips, and is that pull.
pub proof fn law_whitespace_is_skipped(src: Seq<char>, c: Cursor)
    requires
        peek(src, c) matches Some(ch) && is_space(ch),
    ensures
        skipped(src, c) == skipped(src, pop(src, c)),
        scan(src, c) == scan(src, pop(src, c)),
{
}

/// A line is skipped by reading it: if `end` is the first index at or behind
/// the cursor that holds a line feed, skipping stops behind it.
pub proof fn lemma_skip_line_reads(src: Seq<char>, c: Cursor, end: int)
    requires
        in_buffer(src, c),
        c.pos <= end < src.len(),
        forall|i: int| c.pos <= i < end ==> #[trigger] src[i] != '\n',
        src[end] == '\n',
    ensures
        skip_line(src, c) == read(src, c, end + 1 - c.pos),
    decreases end - c.pos,
{
    if c.pos < end {
        lemma_skip_line_reads(src, pop(src, c), end);
    } else {
        assert(read(src, pop(src, c), 0) == pop(src, c));
    }
}

/// Without a line feed the rest of the input is skipped, and one read is
/// made at its end.
pub proof fn lemma_skip_line_reads_all(src: Seq<char>, c: Cursor)
    requires
        in_buffer(src, c),
        forall|i: int| c.pos <= i < src.len() ==> #[trigger] src[i] != '\n',
    ensures
        skip_line(src, c) == read(src, c, src.len() - c.pos + 1),
    decreases src.len() - c.pos,
{
    if c.pos < src.len() {
        lemma_skip_line_reads_all(src, pop(src, c));
    } else {
        assert(read(src, pop(src, c), 0) == pop(src, c));
    }
}

/// A line comment yields nothing: a pull that starts on `//` is the pull
/// that starts behind the line feed that ends the comment, at index `end`.
/// Whitespace and further comments behind it are skipped by that pull in
/// the same way.
pub proof fn law_line_comment_is_skipped(src: Seq<char>, c: Cursor, end: int)
    requires
        in_buffer(src, c),
        peek(src, c) == Some('/'),
        peek(src, pop(src, c)) == Some('/'),
        c.pos + 2 <= end < src.len(),
        forall|i: int| c.pos + 2 <= i < end ==> #[trigger] src[i] != '\n',
        src[end] == '\n',
    ensures
        skipped(src, c) == skipped(src, read(src, c, end + 1 - c.pos)),
        scan(src, c) == scan(src, read(src, c, end + 1 - c.pos)),
{
    let c1 = pop(src, c);
    lemma_skip_line_reads(src, c1, end);
    let behind = skip_line(src, c1);
    assert(skip_whitespace(src, c) == c);
    assert(skip_comments(src, c) == skip_comments(src, skip_whitespace(src, behind)));
}

/// A line comment that no line feed ends runs to the end of the input:
/// skipping it yields nothing and reads everything, with one read at the
/// end, and the pull that starts on it yields the end of the input after
/// one more read at the end.
pub proof fn law_last_line_comment_ends_input(src: Seq<char>, c: Cursor)
    requires
        in_buffer(src, c),
        peek(src, c) == Some('/'),
        peek(src, pop(src, c)) == Some('/'),
        forall|i: int| c.pos + 2 <= i < src.len() ==> #[trigger] src[i] != '\n',
    ensures
        ({
            let end = end_of_input(src, c);
            &&& end == read(src, c, src.len() - c.pos + 1)
            &&& skipped(src, c) == (None::<Lexed>, end)
            &&& scan(src, c) == (Lexed::End, pop(src, end))
            &&& pop(src, end) == read(src, c, src.len() - c.pos + 2)
        }),
{
    law_reading_to_the_end(src, c);
    let c1 = pop(src, c);
    let n = src.len() - c.pos;
    lemma_skip_line_reads_all(src, c1);
    let behind = skip_line(src, c1);
    lemma_read_once(src, c);
    lemma_read_split(src, c, 1, n);
    assert(behind == end_of_input(src, c));
    assert(skip_whitespace(src, c) == c);
    assert(skip_whitespace(src, behind) == behind);
    assert(skip_comments(src, behind) == (None::<Lexed>, behind));
    assert(skip_comments(src, c) == skip_comments(src, behind));
    assert(lex(src, behind) == (Lexed::End, pop(src, behind)));
    lemma_read_split(src, c, n + 1, 1);
    lemma_read_once(src, behind);
}

/// Whether `*/` stands at index `i`.
pub open spec fn closes_block(src: Seq<char>, i: int) -> bool {
    0 <= i && i + 1 < src.len() && src[i] == '*' && src[i + 1] == '/'
}

/// A closed block comment is skipped by reading it: if `close` is the
/// first index at or behind the cursor where `*/` stands, skipping stops
/// behind that `/`.
pub proof fn lemma_skip_block_reads(src: Seq<char>, c: Cursor, close: int)
    requires
        in_buffer(src, c),
        c.pos <= close,
        closes_block(src, close),
        forall|i: int| c.pos <= i < close ==> !closes_block(src, i),
    ensures
        skip_block(src, c) == (read(src, c, close + 2 - c.pos), true),
    decreases close - c.pos,
{
    if c.pos < close {
        assert(!closes_block(src, c.pos));
        lemma_skip_block_reads(src, pop(src, c), close);
    } else {
        assert(read(src, pop(src, pop(src, c)), 0) == pop(src, pop(src, c)));
        assert(read(src, pop(src, c), 1) == pop(src, pop(src, c)));
    }
}

/// A block comment that nothing closes is skipped to the end of the input,
/// where one more read is made.
pub proof fn lemma_skip_block_reads_all(src: Seq<char>, c: Cursor)
    requires
        in_buffer(src, c),
        forall|i: int| c.pos <= i < src.len() ==> !closes_block(src, i),
    ensures
        skip_block(src, c) == (read(src, c, src.len() - c.pos + 1), false),
    decreases src.len() - c.pos,
{
    if c.pos < src.len() {
        assert(!closes_block(src, c.pos));
        lemma_skip_block_reads_all(src, pop(src, c));
    } else {
        assert(read(src, pop(src, c), 0) == pop(src, c));
    }
}

/// A closed block comment yields nothing: a pull that starts on `/*` is the
/// pull that starts behind the first `*/` that follows the `/`, at index
/// `close`. Whitespace and further comments behind it are skipped by that
/// pull in the same way.
pub proof fn law_block_comment_is_skipped(src: Seq<char>, c: Cursor, close: int)
    requires
        in_buffer(src, c),
        peek(src, c) == Some('/'),
        peek(src, pop(src, c)) == Some('*'),
        c.pos + 1 <= close,
        closes_block(src, close),
        forall|i: int| c.pos + 1 <= i < close ==> !closes_block(src, i),
    ensures
        skipped(src, c) == skipped(src, read(src, c, close + 2 - c.pos)),
        scan(src, c) == scan(src, read(src, c, close + 2 - c.pos)),
{
    let c1 = pop(src, c);
    lemma_skip_block_reads(src, c1, close);
    let behind = skip_block(src, c1).0;
    assert(skip_whitespace(src, c) == c);
    assert(skip_comments(src, c) == skip_comments(src, skip_whitespace(src, behind)));
}

/// A block comment that nothing closes fails the pull: everything is read,
/// and the error is reported where the read at the end of the input left
/// the counters, on the last line of the input and one column behind its
/// last character.
pub proof fn law_unterminated_comment(src: Seq<char>, c: Cursor)
    requires
        in_buffer(src, c),
        peek(src, c) == Some('/'),
        peek(src, pop(src, c)) == Some('*'),
        forall|i: int| c.pos + 1 <= i < src.len() ==> !closes_block(src, i),
    ensures
        ({
            let end = end_of_input(src, c);
            &&& end == read(src, c, src.len() - c.pos + 1)
            &&& scan(src, c) == (
                Lexed::Failure {
                    error: ErrorKind::UnterminatedComment,
                    line: end.line,
                    column: end.column,
                },
                end,
            )
        }),
{
    law_reading_to_the_end(src, c);
    let c1 = pop(src, c);
    lemma_skip_block_reads_all(src, c1);
    assert(skip_whitespace(src, c) == c);
}

/// One stretch of what a pull skips.
pub enum Blank {
    /// One whitespace character.
    Space(char),
    /// A line comment, given by what stands behind its first `/`: the
    /// second `/` and the rest of the line with its line feed.
    LineComment(Seq<char>),
    /// A block comment, given by what stands behind its `/`: the text from
    /// the `*` to the first `*/`.
    BlockComment(Seq<char>),
}

/// Whether a stretch is what it is given as.
pub open spec fn blank_fits(blank: Blank) -> bool {
    match blank {
        Blank::Space(ch) => is_space(ch),
        Blank::LineComment(text) => {
            &&& text.len() >= 2
            &&& text[0] == '/'
            &&& text.last() == '\n'
            &&& forall|i: int| 0 <= i < text.len() - 1 ==> #[trigger] text[i] != '\n'
        },
        Blank::BlockComment(text) => {
            &&& text.len() >= 2
            &&& text[0] == '*'
            &&& closes_block(text, text.len() - 2)
            &&& forall|i: int| 0 <= i < text.len() - 2 ==> !closes_block(text, i)
        },
    }
}

/// How a stretch is written in the source.
pub open spec fn blank_spelling(blank: Blank) -> Seq<char> {
    match blank {
        Blank::Space(ch) => seq![ch],
        Blank::LineComment(text) => seq!['/'] + text,
        Blank::BlockComment(text) => seq!['/'] + text,
    }
}

/// How stretches are written in the source, one after the other.
pub open spec fn gap(blanks: Seq<Blank>) -> Seq<char>
    decreases blanks.len(),
{
    if blanks.len() == 0 {
        Seq::empty()
    } else {
        blank_spelling(blanks.first()) + gap(blanks.drop_first())
    }
}

/// Whether nothing stands under the cursor that a pull skips: neither
/// whitespace nor a `/`.
pub open spec fn nothing_to_skip(src: Seq<char>, c: Cursor) -> bool {
    match peek(src, c) {
        Some(ch) => !is_space(ch) && ch != '/',
        None => true,
    }
}

/// Whitespace and comments in a row are skipped together. If whitespace
/// and whole comments, in any number and order, stand at the cursor, the
/// pull that starts there is the pull that starts behind them all: nothing
/// comes out for any of them, neither a token nor an error. If neither
/// whitespace nor a `/` follows them, the pull reads its token right behind
/// them. On the way the line counter has grown by the number of line feeds
/// skipped; it wraps where it is full.
pub proof fn law_blanks_are_skipped(src: Seq<char>, c: Cursor, blanks: Seq<Blank>)
    requires
        in_buffer(src, c),
        forall|i: int| 0 <= i < blanks.len() ==> blank_fits(#[trigger] blanks[i]),
        stands_at(src, c.pos, gap(blanks)),
    ensures
        ({
            let behind = read(src, c, gap(blanks).len() as int);
            &&& behind.pos == c.pos + gap(blanks).len()
            &&& behind.line == wrapped(
                c.line + line_feeds(src, behind.pos) - line_feeds(src, c.pos),
            )
            &&& skipped(src, c) == skipped(src, behind)
            &&& scan(src, c) == scan(src, behind)
            &&& nothing_to_skip(src, behind) ==> skipped(src, c) == (None::<Lexed>, behind)
        }),
    decreases blanks.len(),
{
    law_reading_counts_lines_and_columns(src, c, gap(blanks).len() as int);
    if blanks.len() > 0 {
        let blank = blanks.first();
        let rest = blanks.drop_first();
        let head = blank_spelling(blank);
        let n = head.len() as int;
        assert(blank_fits(blanks[0]));
        assert forall|i: int| 0 <= i < rest.len() implies blank_fits(#[trigger] rest[i]) by {
            assert(rest[i] == blanks[i + 1]);
        }
        lemma_stands_at_split(src, c.pos, head, gap(rest));
        lemma_stands_at_index(src, c.pos, head);
        lemma_read_pos(src, c, n);
        lemma_read_split(src, c, n, gap(rest).len() as int);
        let behind = read(src, c, n);
        law_blanks_are_skipped(src, behind, rest);
        match blank {
            Blank::Space(ch) => {
                assert(src[c.pos + 0] == head[0]);
                law_whitespace_is_skipped(src, c);
                lemma_read_once(src, c);
            },
            Blank::LineComment(text) => {
                assert(src[c.pos + 0] == head[0]);
                assert(src[c.pos + 1] == head[1]);
                let end = c.pos + text.len();
                assert(src[end] == '\n') by {
                    assert(src[c.pos + text.len()] == head[text.len() as int]);
                }
                assert forall|i: int| c.pos + 2 <= i < end implies #[trigger] src[i] != '\n' by {
                    assert(src[c.pos + (i - c.pos)] == head[i - c.pos]);
                    assert(head[i - c.pos] == text[i - c.pos - 1]);
                }
                law_line_comment_is_skipped(src, c, end);
            },
            Blank::BlockComment(text) => {
                assert(src[c.pos + 0] == head[0]);
                assert(src[c.pos + 1] == head[1]);
                let close = c.pos + text.len() - 1;
                assert forall|i: int| c.pos + 1 <= i <= close implies closes_block(src, i)
                    == closes_block(text, i - c.pos - 1) by {
                    assert(src[c.pos + (i - c.pos)] == head[i - c.pos]);
                    assert(src[c.pos + (i - c.pos + 1)] == head[i - c.pos + 1]);
                    assert(head[i - c.pos] == text[i - c.pos - 1]);
                    assert(head[i - c.pos + 1] == text[i - c.pos]);
                }
                law_block_comment_is_skipped(src, c, close);
            },
        }
    } else {
        assert(gap(blanks).len() == 0);
    }
}

/// Whitespace and comments in a row with a last line comment that no line
/// feed ends are skipped together too. If a line comment without a line
/// feed stands behind whitespace and whole comments and runs to the end of
/// the input, skipping yields nothing and reads everything, with one read
/// at the end, and the pull yields the end of the input.
pub proof fn law_blanks_before_last_line_comment(src: Seq<char>, c: Cursor, blanks: Seq<Blank>)
    requires
        in_buffer(src, c),
        forall|i: int| 0 <= i < blanks.len() ==> blank_fits(#[trigger] blanks[i]),
        stands_at(src, c.pos, gap(blanks)),
        ({
            let at = c.pos + gap(blanks).len();
            &&& at + 1 < src.len()
            &&& src[at] == '/'
            &&& src[at + 1] == '/'
            &&& forall|i: int| at + 2 <= i < src.len() ==> #[trigger] src[i] != '\n'
        }),
    ensures
        ({
            let end = end_of_input(src, c);
            &&& end == read(src, c, src.len() - c.pos + 1)
            &&& skipped(src, c) == (None::<Lexed>, end)
            &&& scan(src, c) == (Lexed::End, pop(src, end))
        }),
{
    let n = gap(blanks).len() as int;
    let behind = read(src, c, n);
    law_blanks_are_skipped(src, c, blanks);
    lemma_read_pos(src, c, n);
    law_last_line_comment_ends_input(src, behind);
    law_reading_to_the_end(src, c);
    law_reading_to_the_end(src, behind);
    lemma_read_split(src, c, n, src.len() - behind.pos + 1);
}

} // verus!
