use atom::classify::{char_is_digit, char_is_letter, char_is_letter_or_digit, char_is_space};
use atom::scan::{Scanner, TokenType};

/// Every character from U+0000 to U+30FF.
fn sample() -> Vec<char> {
    (0u32..0x3100).filter_map(char::from_u32).collect()
}

#[test]
fn classes_agree_with_the_standard_library() {
    for c in sample() {
        assert_eq!(char_is_space(c), c.is_whitespace());
        assert_eq!(char_is_letter(c), c.is_alphabetic());
        assert_eq!(char_is_letter_or_digit(c), c.is_alphanumeric());
        assert_eq!(char_is_digit(c), c.is_ascii_digit());
    }
}

#[test]
fn ascii_classes_are_what_they_are() {
    let spaces: Vec<char> = (0u8..128).map(char::from).filter(|c| char_is_space(*c)).collect();
    assert_eq!(spaces, vec!['\t', '\n', '\u{b}', '\u{c}', '\r', ' ']);
    let letters: String = (0u8..128).map(char::from).filter(|c| char_is_letter(*c)).collect();
    assert_eq!(letters, "ABCDEFGHIJKLMNOPQRSTUVWXYZabcdefghijklmnopqrstuvwxyz");
    let word: String =
        (0u8..128).map(char::from).filter(|c| char_is_letter_or_digit(*c)).collect();
    assert_eq!(word, "0123456789ABCDEFGHIJKLMNOPQRSTUVWXYZabcdefghijklmnopqrstuvwxyz");
    let digits: String = (0u8..128).map(char::from).filter(|c| char_is_digit(*c)).collect();
    assert_eq!(digits, "0123456789");
}

#[test]
fn scanner_skips_what_the_standard_library_calls_whitespace() {
    for c in sample() {
        let source = format!("{}x", c);
        let mut scanner = Scanner::new("unit", &source);
        let skipped = match scanner.next() {
            Some(Ok(token)) => token.token_data() == "x",
            _ => false,
        };
        assert_eq!(skipped, c.is_whitespace());
    }
}

#[test]
fn scanner_starts_identifiers_with_what_the_standard_library_calls_a_letter() {
    for c in sample() {
        let source = format!("{}", c);
        let mut scanner = Scanner::new("unit", &source);
        let started = match scanner.next() {
            Some(Ok(token)) => {
                token.token_type() == TokenType::Identifier && token.token_data() == source
            }
            _ => false,
        };
        assert_eq!(started, c.is_alphabetic() || c == '_');
    }
}

#[test]
fn scanner_goes_on_with_what_the_standard_library_calls_a_letter_or_digit() {
    for c in sample() {
        let source = format!("a{}", c);
        let mut scanner = Scanner::new("unit", &source);
        let went_on = match scanner.next() {
            Some(Ok(token)) => token.token_data() == source,
            _ => false,
        };
        assert_eq!(went_on, c.is_alphanumeric() || c == '_');
    }
}
