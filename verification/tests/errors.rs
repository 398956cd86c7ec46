use construct_classic::{from_bytes, ErrorKind, ErrorWithOffset};

#[test]
fn says_each_kind_in_words() {
    assert_eq!(ErrorKind::Message("no such field".to_string()).to_string(), "no such field");
    assert_eq!(ErrorKind::MissingStringTerminator.to_string(), "MissingStringTerminator");
    assert_eq!(
        ErrorKind::StringLengthError(12, 3).to_string(),
        "String length 12 too long, only 3 bytes left in document"
    );
    assert_eq!(ErrorKind::UnknownTypeId(7).to_string(), "UnknownTypeId(7)");
    assert_eq!(ErrorKind::UnknownTypeId(4294967295).to_string(), "UnknownTypeId(4294967295)");
    assert_eq!(ErrorKind::NumericOverflow.to_string(), "NumericOverflow");
    assert_eq!(ErrorKind::TypeMismatch.to_string(), "TypeMismatch");
    assert_eq!(ErrorKind::TrailingCharacters.to_string(), "TrailingCharacters");
    assert_eq!(ErrorKind::LengthNotGiven.to_string(), "LengthNotGiven");
    assert_eq!(ErrorKind::InvalidKeyType.to_string(), "InvalidKeyType");
    assert_eq!(ErrorKind::TextEncodingError.to_string(), "TextEncodingError");
    assert_eq!(ErrorKind::InvalidHeader.to_string(), "The file header is invalid");
    assert_eq!(ErrorKind::UnsupportedValue.to_string(), "Unsupported value in input");
}

#[test]
fn says_the_offset_first_where_there_is_one() {
    let error = ErrorWithOffset::new(0, ErrorKind::InvalidHeader);
    assert_eq!(error.to_string(), "At offset 0: The file header is invalid");
    let error = ErrorWithOffset::new(1234567890, ErrorKind::UnknownTypeId(10));
    assert_eq!(error.to_string(), "At offset 1234567890: UnknownTypeId(10)");
    let error = ErrorWithOffset { offset: None, kind: ErrorKind::Message("custom".to_string()) };
    assert_eq!(error.to_string(), "custom");
    let error = ErrorWithOffset { offset: None, kind: ErrorKind::LengthNotGiven };
    assert_eq!(error.to_string(), "LengthNotGiven");
}

#[test]
fn writes_numbers_in_decimal() {
    let cases = [(0usize, "0"), (9, "9"), (10, "10"), (99, "99"), (100, "100"), (4096, "4096")];
    for (n, text) in cases {
        assert_eq!(
            ErrorKind::StringLengthError(n, n).to_string(),
            format!("String length {} too long, only {} bytes left in document", text, text)
        );
    }
    assert_eq!(
        ErrorWithOffset::new(usize::MAX, ErrorKind::TypeMismatch).to_string(),
        format!("At offset {}: TypeMismatch", usize::MAX)
    );
}

#[test]
fn says_where_decoding_failed() {
    let error = from_bytes(b"MAP1.0\x01\x00\x00\x00\x09\x00\x00\x00ab\x00").unwrap_err();
    assert_eq!(
        error.to_string(),
        "At offset 10: String length 9 too long, only 3 bytes left in document"
    );
}
