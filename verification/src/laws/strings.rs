//! String literals: their escapes, and the ways in which they fail.

use vstd::prelude::*;
use crate::error::ErrorKind;
use crate::grammar::{
    bump, Cursor, in_buffer, Lexed, peek, pop, read, scan, skip_comments, skip_whitespace,
    string_body, string_kind, unescape,
};
use crate::laws::positions::{end_of_input, law_reading_to_the_end};
use crate::laws::reading::{
    lemma_read_once, lemma_read_pos, lemma_read_split, lemma_stands_at_index, lemma_stands_at_split,
    stands_at,
};

verus! {

/// One unit of the content of a string literal.
pub enum Piece {
    /// A character that stands for itself.
    Plain(char),
    /// A backslash and the character behind it.
    Escape(char),
}

/// How a piece is written in the source.
pub open spec fn piece_spelling(piece: Piece) -> Seq<char> {
    match piece {
        Piece::Plain(ch) => seq![ch],
        Piece::Escape(e) => seq!['\\', e],
    }
}

/// The character that a piece stands for.
pub open spec fn piece_meaning(piece: Piece) -> char {
    match piece {
        Piece::Plain(ch) => ch,
        Piece::Escape(e) => unescape(e).unwrap(),
    }
}

/// Whether a piece may stand in a string with the given delimiter: a plain
/// character is neither the delimiter nor a backslash, and an escape is one
/// of the six that the grammar knows.
pub open spec fn piece_fits(piece: Piece, delimiter: char) -> bool {
    match piece {
        Piece::Plain(ch) => ch != delimiter && ch != '\\',
        Piece::Escape(e) => unescape(e) is Some,
    }
}

/// How pieces are written in the source, one after the other.
pub open spec fn spelling(pieces: Seq<Piece>) -> Seq<char>
    decreases pieces.len(),
{
    if pieces.len() == 0 {
        Seq::empty()
    } else {
        piece_spelling(pieces.first()) + spelling(pieces.drop_first())
    }
}

/// What pieces stand for: each plain character itself, and each escape its
/// one-character meaning.
pub open spec fn meaning(pieces: Seq<Piece>) -> Seq<char> {
    pieces.map_values(|piece: Piece| piece_meaning(piece))
}

/// Well-formed content is read piece by piece: reading the body of a
/// string through the spelling of `pieces` adds their meaning to what was
/// decoded before.
pub proof fn lemma_string_body_reads_pieces(
    src: Seq<char>,
    c: Cursor,
    delimiter: char,
    decoded: Seq<char>,
    pieces: Seq<Piece>,
)
    requires
        in_buffer(src, c),
        delimiter != '\\',
        forall|i: int| 0 <= i < pieces.len() ==> piece_fits(#[trigger] pieces[i], delimiter),
        stands_at(src, c.pos, spelling(pieces)),
    ensures
        string_body(src, c, delimiter, decoded) == string_body(
            src,
            read(src, c, spelling(pieces).len() as int),
            delimiter,
            decoded + meaning(pieces),
        ),
    decreases pieces.len(),
{
    if pieces.len() == 0 {
        assert(decoded + meaning(pieces) =~= decoded);
    } else {
        let piece = pieces.first();
        let rest = pieces.drop_first();
        let head = piece_spelling(piece);
        let n = head.len() as int;
        assert(piece_fits(pieces[0], delimiter));
        assert forall|i: int| 0 <= i < rest.len() implies piece_fits(
            #[trigger] rest[i],
            delimiter,
        ) by {
            assert(rest[i] == pieces[i + 1]);
        }
        lemma_stands_at_split(src, c.pos, head, spelling(rest));
        lemma_stands_at_index(src, c.pos, head);
        lemma_read_pos(src, c, n);
        lemma_read_split(src, c, n, spelling(rest).len() as int);
        assert(decoded.push(piece_meaning(piece)) + meaning(rest) =~= decoded + meaning(pieces));
        lemma_string_body_reads_pieces(
            src,
            read(src, c, n),
            delimiter,
            decoded.push(piece_meaning(piece)),
            rest,
        );
        lemma_read_once(src, c);
        match piece {
            Piece::Plain(ch) => {
                assert(src[c.pos + 0] == head[0]);
            },
            Piece::Escape(e) => {
                assert(src[c.pos + 0] == head[0]);
                assert(src[c.pos + 1] == head[1]);
                lemma_read_once(src, pop(src, c));
                lemma_read_split(src, c, 1, 1);
            },
        }
    }
}

/// What the laws on strings share: the cursor stands on a quote, and
/// behind it stand the spelling of well-formed `pieces` and then `tail`.
/// Reading the body then comes to `tail` with the meaning of the pieces
/// decoded.
proof fn lemma_string_reads_to_tail(
    src: Seq<char>,
    c: Cursor,
    delimiter: char,
    pieces: Seq<Piece>,
    tail: Seq<char>,
)
    requires
        in_buffer(src, c),
        delimiter == '\'' || delimiter == '"',
        forall|i: int| 0 <= i < pieces.len() ==> piece_fits(#[trigger] pieces[i], delimiter),
        stands_at(src, c.pos, seq![delimiter] + spelling(pieces) + tail),
    ensures
        ({
            let first = pop(src, c);
            let last = read(src, c, spelling(pieces).len() as int + 1);
            &&& skip_whitespace(src, c) == c
            &&& skip_comments(src, c) == (None::<Lexed>, c)
            &&& peek(src, c) == Some(delimiter)
            &&& string_body(src, first, delimiter, Seq::empty()) == string_body(
                src,
                last,
                delimiter,
                meaning(pieces),
            )
            &&& last.pos == c.pos + spelling(pieces).len() + 1
            &&& stands_at(src, last.pos, tail)
        }),
{
    let body = spelling(pieces);
    let n = body.len() as int;
    lemma_stands_at_split(src, c.pos, seq![delimiter] + body, tail);
    lemma_stands_at_split(src, c.pos, seq![delimiter], body);
    lemma_stands_at_index(src, c.pos, seq![delimiter]);
    assert(src[c.pos + 0] == seq![delimiter][0]);
    let first = pop(src, c);
    lemma_string_body_reads_pieces(src, first, delimiter, Seq::empty(), pieces);
    lemma_read_pos(src, first, n);
    assert(Seq::<char>::empty() + meaning(pieces) =~= meaning(pieces));
    lemma_read_once(src, c);
    lemma_read_split(src, c, 1, n);
}

/// A string literal yields its decoded content. If the cursor stands on a
/// quote, and behind it the spelling of well-formed `pieces` and the same
/// quote again, the pull yields a string of the kind that the quote gives,
/// recorded one column behind the opening quote, where its content starts,
/// whose text is the meaning of the pieces: each escape replaced by the one
/// character that it stands for.
pub proof fn law_string_decodes_escapes(
    src: Seq<char>,
    c: Cursor,
    delimiter: char,
    pieces: Seq<Piece>,
)
    requires
        in_buffer(src, c),
        delimiter == '\'' || delimiter == '"',
        forall|i: int| 0 <= i < pieces.len() ==> piece_fits(#[trigger] pieces[i], delimiter),
        stands_at(src, c.pos, seq![delimiter] + spelling(pieces) + seq![delimiter]),
    ensures
        ({
            let first = pop(src, c);
            scan(src, c) == (
                Lexed::Token {
                    kind: string_kind(delimiter),
                    line: first.line,
                    column: bump(first.column),
                    lexeme: meaning(pieces),
                },
                read(src, c, spelling(pieces).len() as int + 2),
            )
        }),
{
    let n = spelling(pieces).len() as int;
    let tail = seq![delimiter];
    lemma_string_reads_to_tail(src, c, delimiter, pieces, tail);
    let last = read(src, c, n + 1);
    lemma_stands_at_index(src, last.pos, tail);
    assert(src[last.pos + 0] == tail[0]);
    lemma_read_once(src, last);
    lemma_read_split(src, c, n + 1, 1);
}

/// An unknown escape fails the pull. If behind the opening quote stand the
/// spelling of well-formed `pieces`, a backslash and a character `e` that
/// is none of the six escape characters, the pull fails with
/// `UnknownEscapeCharacter(e)`, reported where reading `e` left the
/// counters; nothing behind `e` is read.
pub proof fn law_unknown_escape_fails(
    src: Seq<char>,
    c: Cursor,
    delimiter: char,
    pieces: Seq<Piece>,
    e: char,
)
    requires
        in_buffer(src, c),
        delimiter == '\'' || delimiter == '"',
        forall|i: int| 0 <= i < pieces.len() ==> piece_fits(#[trigger] pieces[i], delimiter),
        unescape(e) is None,
        stands_at(src, c.pos, seq![delimiter] + spelling(pieces) + seq!['\\', e]),
    ensures
        ({
            let end = read(src, c, spelling(pieces).len() as int + 3);
            scan(src, c) == (
                Lexed::Failure {
                    error: ErrorKind::UnknownEscapeCharacter(e),
                    line: end.line,
                    column: end.column,
                },
                end,
            )
        }),
{
    let n = spelling(pieces).len() as int;
    let tail = seq!['\\', e];
    lemma_string_reads_to_tail(src, c, delimiter, pieces, tail);
    let last = read(src, c, n + 1);
    lemma_stands_at_index(src, last.pos, tail);
    assert(src[last.pos + 0] == tail[0]);
    assert(src[last.pos + 1] == tail[1]);
    lemma_read_once(src, last);
    lemma_read_once(src, pop(src, last));
    lemma_read_split(src, c, n + 1, 1);
    lemma_read_split(src, c, n + 2, 1);
}

/// A string that nothing closes fails the pull. If behind the opening
/// quote the spelling of well-formed `pieces` fills the rest of the input,
/// the pull fails with `UnterminatedString`, reported where the read at the
/// end of the input left the counters, on the last line of the input and
/// one column behind its last character.
pub proof fn law_unterminated_string(
    src: Seq<char>,
    c: Cursor,
    delimiter: char,
    pieces: Seq<Piece>,
)
    requires
        in_buffer(src, c),
        delimiter == '\'' || delimiter == '"',
        forall|i: int| 0 <= i < pieces.len() ==> piece_fits(#[trigger] pieces[i], delimiter),
        stands_at(src, c.pos, seq![delimiter] + spelling(pieces)),
        c.pos + 1 + spelling(pieces).len() == src.len(),
    ensures
        ({
            let end = end_of_input(src, c);
            &&& end == read(src, c, src.len() - c.pos + 1)
            &&& scan(src, c) == (
                Lexed::Failure {
                    error: ErrorKind::UnterminatedString(delimiter),
                    line: end.line,
                    column: end.column,
                },
                end,
            )
        }),
{
    law_reading_to_the_end(src, c);
    let n = spelling(pieces).len() as int;
    assert(seq![delimiter] + spelling(pieces) + Seq::<char>::empty() =~= seq![delimiter]
        + spelling(pieces));
    lemma_string_reads_to_tail(src, c, delimiter, pieces, Seq::empty());
    let last = read(src, c, n + 1);
    lemma_read_once(src, last);
    lemma_read_split(src, c, n + 1, 1);
}

/// A string that ends in a backslash fails the pull. If behind the opening
/// quote the spelling of well-formed `pieces` and one backslash fill the
/// rest of the input, the pull fails with `UnexpectedEndOfInputInEscape`,
/// reported where the read at the end of the input left the counters, on
/// the last line of the input and one column behind its last character.
pub proof fn law_escape_at_end_of_input(
    src: Seq<char>,
    c: Cursor,
    delimiter: char,
    pieces: Seq<Piece>,
)
    requires
        in_buffer(src, c),
        delimiter == '\'' || delimiter == '"',
        forall|i: int| 0 <= i < pieces.len() ==> piece_fits(#[trigger] pieces[i], delimiter),
        stands_at(src, c.pos, seq![delimiter] + spelling(pieces) + seq!['\\']),
        c.pos + 2 + spelling(pieces).len() == src.len(),
    ensures
        ({
            let end = end_of_input(src, c);
            &&& end == read(src, c, src.len() - c.pos + 1)
            &&& scan(src, c) == (
                Lexed::Failure {
                    error: ErrorKind::UnexpectedEndOfInputInEscape,
                    line: end.line,
                    column: end.column,
                },
                end,
            )
        }),
{
    law_reading_to_the_end(src, c);
    let n = spelling(pieces).len() as int;
    let tail = seq!['\\'];
    lemma_string_reads_to_tail(src, c, delimiter, pieces, tail);
    let last = read(src, c, n + 1);
    lemma_stands_at_index(src, last.pos, tail);
    assert(src[last.pos + 0] == tail[0]);
    lemma_read_once(src, last);
    lemma_read_once(src, pop(src, last));
    lemma_read_split(src, c, n + 1, 1);
    lemma_read_split(src, c, n + 2, 1);
}

} // verus!
