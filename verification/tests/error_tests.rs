use atom::error::{Error, ErrorKind};

#[test]
fn test_error() {
    let err = Error::new("test error", "test file.at", 5, 7);
    assert_eq!(err.message(), "test error");
    assert_eq!(err.file_name(), "test file.at");
    assert_eq!(err.line(), 5);
    assert_eq!(err.column(), 7);
}

#[test]
fn test_error_kind_messages() {
    assert_eq!(ErrorKind::UnexpectedCharacter('@').describe(), "unexpected @ token");
    assert_eq!(ErrorKind::UnterminatedComment.describe(), "expected '*/' but found eof");
    assert_eq!(ErrorKind::UnterminatedString('"').describe(), "expected \" token");
    assert_eq!(ErrorKind::UnterminatedString('\'').describe(), "expected ' token");
    assert_eq!(
        ErrorKind::UnknownEscapeCharacter('a').describe(),
        "unknown escape character a found"
    );
    assert_eq!(
        ErrorKind::UnexpectedEndOfInputInEscape.describe(),
        "expected escape character, found EOF"
    );
}
