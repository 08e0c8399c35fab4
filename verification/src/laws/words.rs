//! Identifiers, reserved words and numbers.

use vstd::prelude::*;
use crate::classify::{is_ascii_letter, is_digit, is_space};
use crate::grammar::{
    Cursor, identifier_run, in_buffer, is_identifier_char, keyword_kind, Lexed, number_run, pop,
    read, scan, skip_whitespace, word_kind,
};
use crate::laws::reading::{
    lemma_read_pos, lemma_skip_comments_yield, lemma_skip_whitespace_stays, lemma_stands_at_index,
    stands_at,
};
use crate::scan::TokenType;

verus! {

/// The rest of an identifier is read as far as identifier characters
/// follow: if `end` is the first index at or behind the cursor that holds
/// none, reading stops there.
pub proof fn lemma_identifier_run_reads(src: Seq<char>, c: Cursor, end: int)
    requires
        in_buffer(src, c),
        c.pos <= end <= src.len(),
        forall|i: int| c.pos <= i < end ==> is_identifier_char(#[trigger] src[i], false),
        end < src.len() ==> !is_identifier_char(src[end], false),
    ensures
        identifier_run(src, c) == read(src, c, end - c.pos),
    decreases end - c.pos,
{
    if c.pos < end {
        lemma_identifier_run_reads(src, pop(src, c), end);
    }
}

/// A run of identifier characters is one word. If the cursor stands on a
/// character that may start an identifier, and `end` is the first index
/// behind it that holds no identifier character, the pull yields the text
/// up to `end`, recorded at its first character: as the reserved word that
/// it spells, or else as an identifier.
pub proof fn law_identifier_run_is_one_word(src: Seq<char>, c: Cursor, end: int)
    requires
        in_buffer(src, c),
        c.pos < end <= src.len(),
        is_identifier_char(src[c.pos], true),
        !is_space(src[c.pos]),
        forall|i: int| c.pos < i < end ==> is_identifier_char(#[trigger] src[i], false),
        end < src.len() ==> !is_identifier_char(src[end], false),
    ensures
        ({
            let first = pop(src, c);
            let word = src.subrange(c.pos, end);
            scan(src, c) == (
                Lexed::Token {
                    kind: word_kind(word),
                    line: first.line,
                    column: first.column,
                    lexeme: word,
                },
                read(src, c, end - c.pos),
            )
        }),
{
    let first = pop(src, c);
    assert(skip_whitespace(src, c) == c);
    lemma_identifier_run_reads(src, first, end);
    lemma_read_pos(src, first, end - first.pos);
}

/// Reserved words and identifiers are told apart by the table alone: a
/// word that the table of reserved words holds gets the kind that the
/// table gives, which is never `Identifier`; any other word is an
/// `Identifier`.
pub proof fn law_reserved_words_are_no_identifiers(word: Seq<char>)
    ensures
        match keyword_kind(word) {
            Some(kind) => word_kind(word) == kind && kind != TokenType::Identifier,
            None => word_kind(word) == TokenType::Identifier,
        },
{
}

/// Every reserved word is spelled in ASCII letters.
pub proof fn lemma_reserved_words_are_letters(word: Seq<char>)
    requires
        keyword_kind(word) is Some,
    ensures
        word.len() > 0,
        forall|i: int| 0 <= i < word.len() ==> is_ascii_letter(#[trigger] word[i]),
{
    reveal_strlit("true");
    reveal_strlit("false");
    reveal_strlit("null");
    reveal_strlit("this");
    reveal_strlit("super");
    reveal_strlit("and");
    reveal_strlit("or");
    reveal_strlit("not");
    reveal_strlit("function");
    reveal_strlit("class");
    reveal_strlit("extends");
    reveal_strlit("if");
    reveal_strlit("else");
    reveal_strlit("while");
    reveal_strlit("do");
    reveal_strlit("for");
    reveal_strlit("in");
    reveal_strlit("break");
    reveal_strlit("continue");
    reveal_strlit("return");
}

/// A reserved word in the source yields its kind. If a reserved word
/// stands at the cursor, and no identifier character behind it, the pull
/// yields the word with the kind that is reserved for it, never as an
/// `Identifier`.
pub proof fn law_reserved_word_yields_its_kind(src: Seq<char>, c: Cursor, word: Seq<char>)
    requires
        in_buffer(src, c),
        keyword_kind(word) is Some,
        stands_at(src, c.pos, word),
        c.pos + word.len() < src.len() ==> !is_identifier_char(src[c.pos + word.len()], false),
    ensures
        ({
            let first = pop(src, c);
            scan(src, c) == (
                Lexed::Token {
                    kind: keyword_kind(word).unwrap(),
                    line: first.line,
                    column: first.column,
                    lexeme: word,
                },
                read(src, c, word.len() as int),
            )
        }),
        keyword_kind(word).unwrap() != TokenType::Identifier,
{
    lemma_reserved_words_are_letters(word);
    lemma_stands_at_index(src, c.pos, word);
    let end = c.pos + word.len();
    assert(src[c.pos + 0] == word[0]);
    assert forall|i: int| c.pos < i < end implies is_identifier_char(#[trigger] src[i], false) by {
        assert(src[c.pos + (i - c.pos)] == word[i - c.pos]);
    }
    law_identifier_run_is_one_word(src, c, end);
}

/// The kinds of the reserved words.
pub open spec fn is_reserved(kind: TokenType) -> bool {
    match kind {
        TokenType::TrueLiteral
        | TokenType::FalseLiteral
        | TokenType::NullLiteral
        | TokenType::ThisLiteral
        | TokenType::SuperLiteral
        | TokenType::And
        | TokenType::Or
        | TokenType::Not
        | TokenType::Function
        | TokenType::Class
        | TokenType::Extends
        | TokenType::If
        | TokenType::Else
        | TokenType::While
        | TokenType::Do
        | TokenType::For
        | TokenType::In
        | TokenType::Break
        | TokenType::Continue
        | TokenType::Return => true,
        _ => false,
    }
}

/// A token of a reserved kind holds the word that is reserved for it: the
/// text of every token that a pull yields with such a kind is the spelling
/// that the table of reserved words has for the kind, and no token of
/// another kind is taken from that table.
pub proof fn law_reserved_token_spells_its_word(src: Seq<char>, c: Cursor)
    requires
        in_buffer(src, c),
    ensures
        scan(src, c).0 matches Lexed::Token { kind, lexeme, .. } ==> (is_reserved(kind)
            <==> keyword_kind(lexeme) == Some(kind)),
{
    lemma_skip_whitespace_stays(src, c);
    lemma_skip_comments_yield(src, skip_whitespace(src, c));
}

/// Digits are read as far as digits follow: if `end` is the first index at
/// or behind the cursor that holds no ASCII digit, reading the rest of a
/// number that has its `.` already stops there.
pub proof fn lemma_fraction_reads(src: Seq<char>, c: Cursor, end: int)
    requires
        in_buffer(src, c),
        c.pos <= end <= src.len(),
        forall|i: int| c.pos <= i < end ==> is_digit(#[trigger] src[i]),
        end < src.len() ==> !is_digit(src[end]),
    ensures
        number_run(src, c, true) == read(src, c, end - c.pos),
    decreases end - c.pos,
{
    if c.pos < end {
        lemma_fraction_reads(src, pop(src, c), end);
    }
}

/// Where the digits in front of the `.` stop, at index `mid`, the number
/// stops too unless a `.` stands there; after a `.` it goes on with the
/// digits behind it.
pub proof fn lemma_number_reads(src: Seq<char>, c: Cursor, mid: int, end: int)
    requires
        in_buffer(src, c),
        c.pos <= mid <= end <= src.len(),
        forall|i: int| c.pos <= i < mid ==> is_digit(#[trigger] src[i]),
        mid < src.len() ==> !is_digit(src[mid]),
        if mid < src.len() && src[mid] == '.' {
            &&& mid < end
            &&& forall|i: int| mid < i < end ==> is_digit(#[trigger] src[i])
            &&& end < src.len() ==> !is_digit(src[end])
        } else {
            end == mid
        },
    ensures
        number_run(src, c, false) == read(src, c, end - c.pos),
    decreases mid - c.pos,
{
    if c.pos < mid {
        lemma_number_reads(src, pop(src, c), mid, end);
    } else if mid < src.len() && src[mid] == '.' {
        lemma_fraction_reads(src, pop(src, c), end);
    }
}

/// A number is read greedily. If the cursor stands on an ASCII digit, the
/// digits run up to index `mid`, and either no `.` stands there and `end`
/// is `mid`, or a `.` stands there and the digits behind it run up to
/// `end`, then the pull yields the text up to `end` as a number, recorded
/// at its first digit. A second `.` is never part of it.
pub proof fn law_number_is_read_greedily(src: Seq<char>, c: Cursor, mid: int, end: int)
    requires
        in_buffer(src, c),
        c.pos < mid <= end <= src.len(),
        forall|i: int| c.pos <= i < mid ==> is_digit(#[trigger] src[i]),
        mid < src.len() ==> !is_digit(src[mid]),
        if mid < src.len() && src[mid] == '.' {
            &&& mid < end
            &&& forall|i: int| mid < i < end ==> is_digit(#[trigger] src[i])
            &&& end < src.len() ==> !is_digit(src[end])
        } else {
            end == mid
        },
    ensures
        ({
            let first = pop(src, c);
            scan(src, c) == (
                Lexed::Token {
                    kind: TokenType::NumberLiteral,
                    line: first.line,
                    column: first.column,
                    lexeme: src.subrange(c.pos, end),
                },
                read(src, c, end - c.pos),
            )
        }),
{
    let first = pop(src, c);
    assert(is_digit(src[c.pos]));
    assert(skip_whitespace(src, c) == c);
    lemma_number_reads(src, first, mid, end);
    lemma_read_pos(src, first, end - first.pos);
}

} // verus!
