//! Operators: a line of them between spaces, and the `.` that may start a
//! number instead.

use vstd::prelude::*;
use crate::classify::is_digit;
use crate::grammar::{
    Cursor, identifier_run, in_buffer, lex, Lexed, operator_kind, peek, pop, read, scan,
    skip_whitespace, start, starts_fraction, word_kind,
};
use crate::laws::positions::{lemma_bump_wrapped, lemma_wrapped_fits, wrapped};
use crate::laws::pulls::{pulled, token_start};
use crate::laws::reading::{lemma_read_pos, lemma_skip_comments_yield, lemma_skip_whitespace_stays};
use crate::laws::words::lemma_fraction_reads;
use crate::scan::TokenType;

verus! {

/// The characters of `ops` with one space between each two of them.
pub open spec fn spaced(ops: Seq<char>) -> Seq<char> {
    if ops.len() == 0 {
        Seq::empty()
    } else {
        Seq::new(
            (2 * ops.len() - 1) as nat,
            |i: int|
                if i % 2 == 0 {
                    ops[i / 2]
                } else {
                    ' '
                },
        )
    }
}

/// Where the scanner stands in a line of spaced operators after `k` pulls:
/// behind the operator that it read last.
pub open spec fn behind_operator(k: int) -> Cursor {
    if k == 0 {
        start()
    } else {
        Cursor { pos: 2 * k - 1, line: 1, column: wrapped(2 * k - 1) }
    }
}

/// The pull that follows `k` pulls on a line of spaced operators.
proof fn lemma_pull_of_spaced_operator(ops: Seq<char>, k: int)
    requires
        forall|i: int| 0 <= i < ops.len() ==> operator_kind(#[trigger] ops[i]) is Some,
        ops.len() > 0 ==> ops.last() != '/',
        0 <= k <= ops.len(),
    ensures
        scan(spaced(ops), behind_operator(k)) == if k < ops.len() {
            (
                Lexed::Token {
                    kind: operator_kind(ops[k]).unwrap(),
                    line: 1,
                    column: wrapped(2 * k + 1),
                    lexeme: seq![ops[k]],
                },
                behind_operator(k + 1),
            )
        } else {
            (Lexed::End, pop(spaced(ops), behind_operator(k)))
        },
{
    let src = spaced(ops);
    let c = behind_operator(k);
    lemma_wrapped_fits(0);
    if k < ops.len() {
        let at = Cursor { pos: 2 * k, line: 1, column: wrapped(2 * k) };
        let ch = ops[k];
        assert(src[2 * k] == ch);
        assert(operator_kind(ch) is Some);
        assert(skip_whitespace(src, at) == at);
        if k > 0 {
            assert(src[2 * k - 1] == ' ');
            lemma_bump_wrapped(2 * k - 1);
            assert(pop(src, c) == at);
        }
        assert(skip_whitespace(src, c) == at);
        let first = pop(src, at);
        lemma_bump_wrapped(2 * k);
        assert(first == behind_operator(k + 1));
        if k + 1 < ops.len() {
            assert(src[2 * k + 1] == ' ');
        } else {
            assert(ch == ops.last());
        }
        assert(!starts_fraction(src, first));
    } else {
        assert(peek(src, c) is None);
        assert(skip_whitespace(src, c) == c);
    }
}

/// Operators between single spaces come out one by one. For a line that
/// holds the one-character operators `ops` with one space between each two
/// of them, pull number `k` yields operator number `k` with its kind, on
/// line 1 and at the column where it stands, which is `2 * k + 1`; no pull
/// fails, and the pull after the last operator yields the end of the
/// input. This holds of lines of any length: where a column is too large
/// for the 32-bit counter, the counter has wrapped.
///
/// A `/` at the very end of the input is left out, for the grammar reads it
/// as the end of the input.
pub proof fn law_spaced_operators(ops: Seq<char>, k: int)
    requires
        forall|i: int| 0 <= i < ops.len() ==> operator_kind(#[trigger] ops[i]) is Some,
        ops.len() > 0 ==> ops.last() != '/',
        0 <= k <= ops.len(),
    ensures
        pulled(spaced(ops), start(), k as nat) == behind_operator(k),
        scan(spaced(ops), pulled(spaced(ops), start(), k as nat)).0 == if k < ops.len() {
            Lexed::Token {
                kind: operator_kind(ops[k]).unwrap(),
                line: 1,
                column: wrapped(2 * k + 1),
                lexeme: seq![ops[k]],
            }
        } else {
            Lexed::End
        },
        2 * k + 1 <= u32::MAX ==> wrapped(2 * k + 1) == 2 * k + 1,
    decreases k,
{
    if k > 0 {
        law_spaced_operators(ops, k - 1);
        lemma_pull_of_spaced_operator(ops, k - 1);
    }
    lemma_pull_of_spaced_operator(ops, k);
    if 2 * k + 1 <= u32::MAX {
        lemma_wrapped_fits(2 * k + 1);
    }
}

/// A `.` in front of an ASCII digit starts a number. If a `.` stands at
/// the cursor and digits stand behind it up to index `end`, the pull yields
/// the `.` and the digits as one number, recorded at the `.`; a second `.`
/// is never part of it.
pub proof fn law_dot_before_digit_starts_number(src: Seq<char>, c: Cursor, end: int)
    requires
        in_buffer(src, c),
        peek(src, c) == Some('.'),
        c.pos + 1 < end <= src.len(),
        forall|i: int| c.pos < i < end ==> is_digit(#[trigger] src[i]),
        end < src.len() ==> !is_digit(src[end]),
    ensures
        ({
            let first = pop(src, c);
            scan(src, c) == (
                Lexed::Token {
                    kind: TokenType::NumberLiteral,
                    line: first.line,
                    column: first.column,
                    lexeme: src.subrange(c.pos, end),
                },
                read(src, c, end - c.pos),
            )
        }),
{
    let first = pop(src, c);
    assert(skip_whitespace(src, c) == c);
    assert(is_digit(src[c.pos + 1]));
    lemma_fraction_reads(src, first, end);
    lemma_read_pos(src, first, end - first.pos);
}

/// A `.` in front of anything else, or at the end of the input, is the
/// `.` operator.
pub proof fn law_dot_elsewhere_is_operator(src: Seq<char>, c: Cursor)
    requires
        peek(src, c) == Some('.'),
        !starts_fraction(src, pop(src, c)),
    ensures
        ({
            let first = pop(src, c);
            scan(src, c) == (
                Lexed::Token {
                    kind: TokenType::Dot,
                    line: first.line,
                    column: first.column,
                    lexeme: seq!['.'],
                },
                first,
            )
        }),
{
    assert(skip_whitespace(src, c) == c);
}

/// A word is a reserved word or an identifier, never anything else.
pub proof fn lemma_word_kind_is_no_operator(word: Seq<char>)
    ensures
        word_kind(word) != TokenType::Dot,
        word_kind(word) != TokenType::Slash,
        word_kind(word) != TokenType::NumberLiteral,
        word_kind(word) != TokenType::StringLiteral,
        word_kind(word) != TokenType::FormattedStringLiteral,
{
}

/// The `.` operator comes out of a pull only for a `.` that no ASCII digit
/// follows: the pull has just read the `.`, and no digit stands behind it.
pub proof fn law_dot_token_only_before_non_digit(src: Seq<char>, c: Cursor)
    requires
        in_buffer(src, c),
        scan(src, c).0 matches Lexed::Token { kind, .. } && kind == TokenType::Dot,
    ensures
        ({
            let behind = scan(src, c).1;
            &&& scan(src, c).0 matches Lexed::Token { lexeme, .. } && lexeme == seq!['.']
            &&& 0 < behind.pos <= src.len()
            &&& src[behind.pos - 1] == '.'
            &&& !starts_fraction(src, behind)
        }),
{
    lemma_skip_whitespace_stays(src, c);
    lemma_skip_comments_yield(src, skip_whitespace(src, c));
    let at = token_start(src, c);
    assert(scan(src, c) == lex(src, at));
    assert(peek(src, at) is Some);
    lemma_word_kind_is_no_operator(src.subrange(at.pos, identifier_run(src, pop(src, at)).pos));
}

} // verus!
