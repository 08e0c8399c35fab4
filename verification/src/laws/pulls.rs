//! What holds of every pull, whatever the input.

use vstd::prelude::*;
use crate::grammar::{Cursor, in_buffer, Lexed, peek, pop, scan, skip_comments, skip_whitespace};
use crate::laws::reading::{
    follows, lemma_identifier_run_stays, lemma_number_run_stays, lemma_skip_comments_yield,
    lemma_skip_whitespace_stays, lemma_string_body_stays, line_fits,
};

verus! {

/// The cursor from which a pull reads its token, once whitespace and
/// comments are skipped.
pub open spec fn token_start(src: Seq<char>, c: Cursor) -> Cursor {
    skip_comments(src, skip_whitespace(src, c)).1
}

/// A pull never moves the cursor back or out of the buffer, and one that
/// yields a token or an error has read at least one character. As long as
/// the line counter cannot wrap it never goes back either, and what the
/// pull yields is recorded on a line between the one on which the pull
/// started and the one on which it ended.
pub proof fn law_pull_advances(src: Seq<char>, c: Cursor)
    requires
        in_buffer(src, c),
    ensures
        follows(src, c, scan(src, c).1),
        !(scan(src, c).0 is End) ==> c.pos < scan(src, c).1.pos,
        line_fits(src, c) ==> match scan(src, c).0 {
            Lexed::Token { line, .. } => c.line <= line <= scan(src, c).1.line,
            Lexed::Failure { line, .. } => c.line <= line <= scan(src, c).1.line,
            Lexed::End => true,
        },
{
    lemma_skip_whitespace_stays(src, c);
    lemma_skip_comments_yield(src, skip_whitespace(src, c));
    let at = token_start(src, c);
    let c1 = pop(src, at);
    lemma_string_body_stays(src, c1, '\'', Seq::empty());
    lemma_string_body_stays(src, c1, '"', Seq::empty());
    lemma_number_run_stays(src, c1, true);
    lemma_number_run_stays(src, c1, false);
    lemma_identifier_run_stays(src, c1);
}

/// The cursor after `count` pulls that start at cursor `c`.
pub open spec fn pulled(src: Seq<char>, c: Cursor, count: nat) -> Cursor
    decreases count,
{
    if count == 0 {
        c
    } else {
        scan(src, pulled(src, c, (count - 1) as nat)).1
    }
}

/// The end of the input is final: once a pull has yielded it, every later
/// pull yields it again, whatever their number. Each of them makes one
/// more read at the end of the input and nothing else.
pub proof fn law_end_is_final(src: Seq<char>, c: Cursor, count: nat)
    requires
        in_buffer(src, c),
        scan(src, c).0 is End,
    ensures
        in_buffer(src, pulled(src, c, count)),
        scan(src, pulled(src, c, count)).0 is End,
        count > 0 ==> scan(src, pulled(src, c, count)).1 == pop(src, pulled(src, c, count)),
    decreases count,
{
    if count > 0 {
        let before = pulled(src, c, (count - 1) as nat);
        law_end_is_final(src, c, (count - 1) as nat);
        lemma_skip_whitespace_stays(src, before);
        lemma_skip_comments_yield(src, skip_whitespace(src, before));
        let at = token_start(src, before);
        assert(peek(src, at) is None);
        let end = pop(src, at);
        assert(skip_whitespace(src, end) == end);
        assert(skip_comments(src, end) == (None::<Lexed>, end));
    }
}

} // verus!
