use atom::text::{chars_of, same_text};

#[test]
fn chars_of_keeps_every_character_in_order() {
    assert_eq!(chars_of(""), Vec::<char>::new());
    assert_eq!(chars_of("a/*"), vec!['a', '/', '*']);
    assert_eq!(
        chars_of("h\u{e9}\u{4eac}\u{1f49d}!"),
        vec!['h', '\u{e9}', '\u{4eac}', '\u{1f49d}', '!']
    );
    assert_eq!(chars_of("\r\n\t"), vec!['\r', '\n', '\t']);
}

#[test]
fn same_text_compares_character_by_character() {
    assert!(same_text("", ""));
    assert!(same_text("while", "while"));
    assert!(same_text("\u{4eac}x", "\u{4eac}x"));
    assert!(!same_text("while", "whilf"));
    assert!(!same_text("while", "whil"));
    assert!(!same_text("whil", "while"));
    assert!(!same_text("", "a"));
    assert!(!same_text("xhile", "while"));
    // The same number of bytes, but not of characters.
    assert!(!same_text("\u{e9}", "ab"));
}
