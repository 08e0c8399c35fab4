use atom::error::{Error, ErrorKind};
use atom::scan::{Scanner, Token, TokenType};

/// Pulls everything that `source` holds.
fn pull_all(source: &str) -> Vec<Result<Token, Error>> {
    let mut scanner = Scanner::new("unit", source);
    let mut pulled = Vec::new();
    while let Some(next) = scanner.next() {
        pulled.push(next);
    }
    pulled
}

/// The tokens of an input that holds no error, as (kind, text, line, column).
fn tokens_of(source: &str) -> Vec<(TokenType, String, u32, u32)> {
    let mut tokens = Vec::new();
    for next in pull_all(source) {
        match next {
            Ok(t) => tokens.push((
                t.token_type(),
                t.token_data().to_string(),
                t.source_line(),
                t.source_column(),
            )),
            Err(e) => panic!("{}", e.message()),
        }
    }
    tokens
}

/// The error that the first pull on `source` yields, as (message, line, column).
fn first_error(source: &str) -> (String, u32, u32) {
    let mut scanner = Scanner::new("unit", source);
    match scanner.next() {
        Some(Err(e)) => {
            assert_eq!(e.file_name(), "unit");
            (e.message().to_string(), e.line(), e.column())
        }
        Some(Ok(t)) => panic!("a token came out: {}", t.token_data()),
        None => panic!("nothing came out"),
    }
}

fn tok(kind: TokenType, text: &str, line: u32, column: u32) -> (TokenType, String, u32, u32) {
    (kind, text.to_string(), line, column)
}

#[test]
fn empty_input_yields_nothing() {
    assert!(pull_all("").is_empty());
    assert!(pull_all(" \t\r\n ").is_empty());
}

#[test]
fn every_operator_has_its_kind() {
    assert_eq!(
        tokens_of(";+-*!|&^%~.()[]{}"),
        vec![
            tok(TokenType::Semicolon, ";", 1, 1),
            tok(TokenType::Plus, "+", 1, 2),
            tok(TokenType::Minus, "-", 1, 3),
            tok(TokenType::Star, "*", 1, 4),
            tok(TokenType::Bang, "!", 1, 5),
            tok(TokenType::Pipe, "|", 1, 6),
            tok(TokenType::Ampersand, "&", 1, 7),
            tok(TokenType::Caret, "^", 1, 8),
            tok(TokenType::Percent, "%", 1, 9),
            tok(TokenType::Tilde, "~", 1, 10),
            tok(TokenType::Dot, ".", 1, 11),
            tok(TokenType::LeftParen, "(", 1, 12),
            tok(TokenType::RightParen, ")", 1, 13),
            tok(TokenType::LeftBracket, "[", 1, 14),
            tok(TokenType::RightBracket, "]", 1, 15),
            tok(TokenType::LeftBrace, "{", 1, 16),
            tok(TokenType::RightBrace, "}", 1, 17),
        ]
    );
}

#[test]
fn slash_is_an_operator_in_front_of_anything_but_a_comment() {
    assert_eq!(
        tokens_of("1/2"),
        vec![
            tok(TokenType::NumberLiteral, "1", 1, 1),
            tok(TokenType::Slash, "/", 1, 2),
            tok(TokenType::NumberLiteral, "2", 1, 3),
        ]
    );
    assert_eq!(
        tokens_of("/ /x"),
        vec![
            tok(TokenType::Slash, "/", 1, 1),
            tok(TokenType::Slash, "/", 1, 3),
            tok(TokenType::Identifier, "x", 1, 4),
        ]
    );
}

#[test]
fn slash_at_the_end_of_the_input_yields_nothing() {
    assert!(pull_all("/").is_empty());
    assert_eq!(tokens_of("+ /"), vec![tok(TokenType::Plus, "+", 1, 1)]);
}

#[test]
fn spaced_operators_stand_at_odd_columns() {
    let tokens = tokens_of("( ) [ ] { } ; . / +");
    let kinds = vec![
        TokenType::LeftParen,
        TokenType::RightParen,
        TokenType::LeftBracket,
        TokenType::RightBracket,
        TokenType::LeftBrace,
        TokenType::RightBrace,
        TokenType::Semicolon,
        TokenType::Dot,
        TokenType::Slash,
        TokenType::Plus,
    ];
    assert_eq!(tokens.len(), kinds.len());
    for (k, token) in tokens.iter().enumerate() {
        assert_eq!(token.0, kinds[k]);
        assert_eq!(token.2, 1);
        assert_eq!(token.3, 2 * k as u32 + 1);
    }
}

#[test]
fn every_reserved_word_has_its_kind() {
    let words = vec![
        ("true", TokenType::TrueLiteral),
        ("false", TokenType::FalseLiteral),
        ("null", TokenType::NullLiteral),
        ("this", TokenType::ThisLiteral),
        ("super", TokenType::SuperLiteral),
        ("and", TokenType::And),
        ("or", TokenType::Or),
        ("not", TokenType::Not),
        ("function", TokenType::Function),
        ("class", TokenType::Class),
        ("extends", TokenType::Extends),
        ("if", TokenType::If),
        ("else", TokenType::Else),
        ("while", TokenType::While),
        ("do", TokenType::Do),
        ("for", TokenType::For),
        ("in", TokenType::In),
        ("break", TokenType::Break),
        ("continue", TokenType::Continue),
        ("return", TokenType::Return),
    ];
    for (word, kind) in words {
        assert_eq!(tokens_of(word), vec![tok(kind, word, 1, 1)]);
    }
}

#[test]
fn near_misses_of_reserved_words_are_identifiers() {
    for word in ["iff", "i", "whilee", "While", "TRUE", "fo", "do_", "_in", "return1", "nul"] {
        assert_eq!(tokens_of(word), vec![tok(TokenType::Identifier, word, 1, 1)]);
    }
}

#[test]
fn reserved_words_between_other_tokens() {
    assert_eq!(
        tokens_of("if(x)return y;"),
        vec![
            tok(TokenType::If, "if", 1, 1),
            tok(TokenType::LeftParen, "(", 1, 3),
            tok(TokenType::Identifier, "x", 1, 4),
            tok(TokenType::RightParen, ")", 1, 5),
            tok(TokenType::Return, "return", 1, 6),
            tok(TokenType::Identifier, "y", 1, 13),
            tok(TokenType::Semicolon, ";", 1, 14),
        ]
    );
}

#[test]
fn identifiers_may_hold_letters_of_any_script() {
    assert_eq!(
        tokens_of("h\u{e9}llo \u{4eac}2 _\u{3b1}"),
        vec![
            tok(TokenType::Identifier, "h\u{e9}llo", 1, 1),
            tok(TokenType::Identifier, "\u{4eac}2", 1, 7),
            tok(TokenType::Identifier, "_\u{3b1}", 1, 10),
        ]
    );
}

#[test]
fn identifier_goes_on_with_digits_of_any_script() {
    // U+0663 is a decimal digit outside ASCII: no number starts with it, but
    // an identifier may go on with it.
    assert_eq!(tokens_of("x\u{663}"), vec![tok(TokenType::Identifier, "x\u{663}", 1, 1)]);
    assert_eq!(
        first_error("\u{663}"),
        ("unexpected \u{663} token".to_string(), 1, 1)
    );
}

#[test]
fn whitespace_of_any_script_is_skipped() {
    assert_eq!(
        tokens_of("\u{a0}a\u{3000}b\u{2028}c\u{b}\u{c}d"),
        vec![
            tok(TokenType::Identifier, "a", 1, 2),
            tok(TokenType::Identifier, "b", 1, 4),
            tok(TokenType::Identifier, "c", 1, 6),
            tok(TokenType::Identifier, "d", 1, 9),
        ]
    );
}

#[test]
fn only_a_line_feed_starts_a_new_line() {
    assert_eq!(
        tokens_of("a\r\nb\rc\n\nd"),
        vec![
            tok(TokenType::Identifier, "a", 1, 1),
            tok(TokenType::Identifier, "b", 2, 1),
            tok(TokenType::Identifier, "c", 2, 3),
            tok(TokenType::Identifier, "d", 4, 1),
        ]
    );
}

#[test]
fn dot_in_front_of_a_digit_starts_a_number() {
    assert_eq!(tokens_of(".5"), vec![tok(TokenType::NumberLiteral, ".5", 1, 1)]);
    assert_eq!(
        tokens_of("a.5"),
        vec![tok(TokenType::Identifier, "a", 1, 1), tok(TokenType::NumberLiteral, ".5", 1, 2)]
    );
}

#[test]
fn dot_in_front_of_anything_else_is_an_operator() {
    assert_eq!(tokens_of("."), vec![tok(TokenType::Dot, ".", 1, 1)]);
    assert_eq!(
        tokens_of(". 5"),
        vec![tok(TokenType::Dot, ".", 1, 1), tok(TokenType::NumberLiteral, "5", 1, 3)]
    );
    assert_eq!(
        tokens_of("a.b"),
        vec![
            tok(TokenType::Identifier, "a", 1, 1),
            tok(TokenType::Dot, ".", 1, 2),
            tok(TokenType::Identifier, "b", 1, 3),
        ]
    );
    assert_eq!(
        tokens_of(".."),
        vec![tok(TokenType::Dot, ".", 1, 1), tok(TokenType::Dot, ".", 1, 2)]
    );
    // U+0663 is a digit, but no ASCII digit.
    let pulled = pull_all(".\u{663}");
    assert_eq!(pulled.len(), 2);
    assert_eq!(pulled[0].as_ref().ok().unwrap().token_type(), TokenType::Dot);
    assert!(pulled[1].is_err());
}

#[test]
fn number_takes_one_dot_and_no_more() {
    assert_eq!(
        tokens_of("1.2.3"),
        vec![tok(TokenType::NumberLiteral, "1.2", 1, 1), tok(TokenType::NumberLiteral, ".3", 1, 4)]
    );
    assert_eq!(tokens_of("5."), vec![tok(TokenType::NumberLiteral, "5.", 1, 1)]);
    assert_eq!(
        tokens_of("1..2"),
        vec![tok(TokenType::NumberLiteral, "1.", 1, 1), tok(TokenType::NumberLiteral, ".2", 1, 3)]
    );
    assert_eq!(
        tokens_of("5.."),
        vec![tok(TokenType::NumberLiteral, "5.", 1, 1), tok(TokenType::Dot, ".", 1, 3)]
    );
    assert_eq!(
        tokens_of(".5.x"),
        vec![
            tok(TokenType::NumberLiteral, ".5", 1, 1),
            tok(TokenType::Dot, ".", 1, 3),
            tok(TokenType::Identifier, "x", 1, 4),
        ]
    );
}

#[test]
fn number_ends_in_front_of_a_letter() {
    assert_eq!(
        tokens_of("12ab 0x1F 1e5"),
        vec![
            tok(TokenType::NumberLiteral, "12", 1, 1),
            tok(TokenType::Identifier, "ab", 1, 3),
            tok(TokenType::NumberLiteral, "0", 1, 6),
            tok(TokenType::Identifier, "x1F", 1, 7),
            tok(TokenType::NumberLiteral, "1", 1, 11),
            tok(TokenType::Identifier, "e5", 1, 12),
        ]
    );
}

#[test]
fn string_is_recorded_behind_its_opening_quote() {
    assert_eq!(
        tokens_of("'hello world'"),
        vec![tok(TokenType::StringLiteral, "hello world", 1, 2)]
    );
    assert_eq!(
        tokens_of("'' \"\""),
        vec![
            tok(TokenType::StringLiteral, "", 1, 2),
            tok(TokenType::FormattedStringLiteral, "", 1, 5),
        ]
    );
    // A string that starts with a line feed is still recorded on the line
    // of its opening quote.
    assert_eq!(
        tokens_of("  \"\nx\" y"),
        vec![
            tok(TokenType::FormattedStringLiteral, "\nx", 1, 4),
            tok(TokenType::Identifier, "y", 2, 4),
        ]
    );
}

#[test]
fn strings_of_both_kinds() {
    assert_eq!(
        tokens_of("'it is \"x\"' \"it's\""),
        vec![
            tok(TokenType::StringLiteral, "it is \"x\"", 1, 2),
            tok(TokenType::FormattedStringLiteral, "it's", 1, 14),
        ]
    );
}

#[test]
fn every_escape_has_its_meaning() {
    assert_eq!(
        tokens_of("'\\'\\\"\\t\\r\\n\\\\'"),
        vec![tok(TokenType::StringLiteral, "'\"\t\r\n\\", 1, 2)]
    );
    assert_eq!(
        tokens_of("\"a\\\"b\\'c\""),
        vec![tok(TokenType::FormattedStringLiteral, "a\"b'c", 1, 2)]
    );
    assert_eq!(
        tokens_of("'x\\ty\\\\n'"),
        vec![tok(TokenType::StringLiteral, "x\ty\\n", 1, 2)]
    );
}

#[test]
fn string_keeps_what_is_no_escape() {
    assert_eq!(
        tokens_of("'// no comment /* here */ \u{4eac}'"),
        vec![tok(TokenType::StringLiteral, "// no comment /* here */ \u{4eac}", 1, 2)]
    );
}

#[test]
fn string_over_several_lines_is_recorded_where_its_content_starts() {
    assert_eq!(
        tokens_of("\n 'a\nbc\n' x"),
        vec![
            tok(TokenType::StringLiteral, "a\nbc\n", 2, 3),
            tok(TokenType::Identifier, "x", 4, 3),
        ]
    );
}

#[test]
fn unknown_escape_is_reported_at_its_character() {
    assert_eq!(
        first_error("'\\a'"),
        ("unknown escape character a found".to_string(), 1, 3)
    );
    assert_eq!(
        first_error("  \"ab\\0\""),
        ("unknown escape character 0 found".to_string(), 1, 7)
    );
    // A line feed behind the backslash is no escape either: reading it has
    // started the next line.
    assert_eq!(
        first_error("'\\\n'"),
        ("unknown escape character \n found".to_string(), 2, 0)
    );
}

#[test]
fn backslash_at_the_end_of_the_input() {
    assert_eq!(
        first_error("'\\"),
        ("expected escape character, found EOF".to_string(), 1, 3)
    );
    assert_eq!(
        first_error("\"ab\\"),
        ("expected escape character, found EOF".to_string(), 1, 5)
    );
}

#[test]
fn unterminated_string_is_reported_at_the_end() {
    assert_eq!(first_error("'"), ("expected ' token".to_string(), 1, 2));
    assert_eq!(first_error("\""), ("expected \" token".to_string(), 1, 2));
    assert_eq!(first_error("'\""), ("expected ' token".to_string(), 1, 3));
    assert_eq!(first_error("\"abc\n de"), ("expected \" token".to_string(), 2, 4));
    assert_eq!(first_error("'a\\'"), ("expected ' token".to_string(), 1, 5));
}

#[test]
fn unterminated_comment_is_reported_at_the_end() {
    assert_eq!(first_error("/*"), ("expected '*/' but found eof".to_string(), 1, 3));
    assert_eq!(first_error("/* a\n b *"), ("expected '*/' but found eof".to_string(), 2, 5));
    assert_eq!(first_error("/* / * /"), ("expected '*/' but found eof".to_string(), 1, 9));
}

#[test]
fn unexpected_character_is_reported_where_it_stands() {
    assert_eq!(first_error("@"), ("unexpected @ token".to_string(), 1, 1));
    assert_eq!(first_error("\n  #"), ("unexpected # token".to_string(), 2, 3));
    assert_eq!(first_error("\\"), ("unexpected \\ token".to_string(), 1, 1));
    assert_eq!(first_error("\u{b2}"), ("unexpected \u{b2} token".to_string(), 1, 1));
}

#[test]
fn error_kinds_describe_what_the_scanner_reports() {
    assert_eq!(first_error("$").0, ErrorKind::UnexpectedCharacter('$').describe());
    assert_eq!(first_error("/* ").0, ErrorKind::UnterminatedComment.describe());
    assert_eq!(first_error("'x").0, ErrorKind::UnterminatedString('\'').describe());
    assert_eq!(first_error("\"x").0, ErrorKind::UnterminatedString('"').describe());
    assert_eq!(first_error("'\\q").0, ErrorKind::UnknownEscapeCharacter('q').describe());
    assert_eq!(first_error("'\\").0, ErrorKind::UnexpectedEndOfInputInEscape.describe());
}

#[test]
fn scanning_goes_on_behind_an_error() {
    let pulled = pull_all("@ 5 # x");
    assert_eq!(pulled.len(), 4);
    assert!(pulled[0].is_err());
    assert_eq!(pulled[1].as_ref().ok().unwrap().token_data(), "5");
    assert_eq!(pulled[1].as_ref().ok().unwrap().source_column(), 3);
    assert!(pulled[2].is_err());
    assert_eq!(pulled[2].as_ref().err().unwrap().column(), 5);
    assert_eq!(pulled[3].as_ref().ok().unwrap().token_data(), "x");

    // Behind an unknown escape the rest of the string is scanned as code.
    let pulled = pull_all("'\\a' b");
    assert_eq!(pulled.len(), 2);
    assert_eq!(pulled[0].as_ref().err().unwrap().column(), 3);
    assert_eq!(pulled[1].as_ref().err().unwrap().message(), "expected ' token");
    assert_eq!(pulled[1].as_ref().err().unwrap().column(), 7);
}

#[test]
fn line_comments_are_skipped() {
    assert_eq!(
        tokens_of("a // b\n// c\n   // d\n e // f"),
        vec![tok(TokenType::Identifier, "a", 1, 1), tok(TokenType::Identifier, "e", 4, 2)]
    );
    assert!(pull_all("// only a comment").is_empty());
    assert!(pull_all("//").is_empty());
}

#[test]
fn block_comments_are_skipped() {
    assert_eq!(
        tokens_of("a/* b */c /**/ d /***/ e /* // */ f"),
        vec![
            tok(TokenType::Identifier, "a", 1, 1),
            tok(TokenType::Identifier, "c", 1, 9),
            tok(TokenType::Identifier, "d", 1, 16),
            tok(TokenType::Identifier, "e", 1, 24),
            tok(TokenType::Identifier, "f", 1, 35),
        ]
    );
    assert!(pull_all("/* only a comment */").is_empty());
}

#[test]
fn block_comment_ends_at_the_first_star_slash() {
    // The `*` of the opening counts: `/*/` is a whole comment.
    assert_eq!(tokens_of("/*/ 3"), vec![tok(TokenType::NumberLiteral, "3", 1, 5)]);
    assert_eq!(
        tokens_of("/* a */ b */"),
        vec![
            tok(TokenType::Identifier, "b", 1, 9),
            tok(TokenType::Star, "*", 1, 11),
        ]
    );
}

#[test]
fn comments_in_a_row_are_skipped_together() {
    assert_eq!(
        tokens_of("/* a */ // b\n\t/* c\n */\n// d\n/**/x"),
        vec![tok(TokenType::Identifier, "x", 5, 5)]
    );
}

#[test]
fn line_comment_inside_a_block_comment_does_not_count() {
    assert_eq!(
        tokens_of("/* // */ a\n// /* \n b"),
        vec![tok(TokenType::Identifier, "a", 1, 10), tok(TokenType::Identifier, "b", 3, 2)]
    );
}

#[test]
fn end_of_input_is_final() {
    let mut scanner = Scanner::new("unit", "a");
    assert!(scanner.next().is_some());
    for _ in 0..5 {
        assert!(scanner.next().is_none());
    }
    assert_eq!(scanner.current_line(), 1);
}

#[test]
fn counters_follow_the_reads() {
    let mut scanner = Scanner::new("unit", "ab\n cd");
    assert_eq!((scanner.current_line(), scanner.current_column()), (1, 0));
    scanner.next();
    assert_eq!((scanner.current_line(), scanner.current_column()), (1, 2));
    scanner.next();
    assert_eq!((scanner.current_line(), scanner.current_column()), (2, 3));
    // A read at the end of the input moves the column on.
    assert!(scanner.next().is_none());
    assert_eq!((scanner.current_line(), scanner.current_column()), (2, 4));
    assert!(scanner.next().is_none());
    assert_eq!((scanner.current_line(), scanner.current_column()), (2, 5));
}

#[test]
fn provide_starts_again() {
    let mut scanner = Scanner::new("first", "a\nb c");
    scanner.next();
    scanner.next();
    scanner.provide("second", "x");
    assert_eq!(scanner.source_name(), "second");
    assert_eq!(scanner.current_line(), 1);
    assert_eq!(scanner.current_column(), 0);
    let token = scanner.next().unwrap().ok().unwrap();
    assert_eq!(token.source_name(), "second");
    assert_eq!(token.token_data(), "x");
    assert_eq!(token.source_line(), 1);
    assert_eq!(token.source_column(), 1);
    assert!(scanner.next().is_none());
}

#[test]
fn provide_in_the_middle_of_a_buffer_drops_the_rest() {
    let mut scanner = Scanner::new("first", "a b c d e f");
    scanner.next();
    scanner.provide("second", "");
    assert!(scanner.next().is_none());
}

#[test]
fn tokens_carry_the_name_of_their_buffer() {
    let mut scanner = Scanner::new("some file.at", "1 'x' y +");
    while let Some(next) = scanner.next() {
        assert_eq!(next.ok().unwrap().source_name(), "some file.at");
    }
    scanner.provide("other", "@");
    assert_eq!(scanner.next().unwrap().err().unwrap().file_name(), "other");
}

#[test]
fn scenario_block_comment_over_lines() {
    assert_eq!(
        tokens_of("5 /* this \nshould \treally not \nmatter\n***/3"),
        vec![
            tok(TokenType::NumberLiteral, "5", 1, 1),
            tok(TokenType::NumberLiteral, "3", 4, 5),
        ]
    );
}

#[test]
fn scenario_escaped_line_feed() {
    assert_eq!(
        tokens_of("'hello\\nworld'"),
        vec![tok(TokenType::StringLiteral, "hello\nworld", 1, 2)]
    );
}
