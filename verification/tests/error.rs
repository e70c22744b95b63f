use connection_handler::error::FailureCause;

#[test]
fn causes_are_told_in_words() {
    assert_eq!(FailureCause::InvalidSymmetricKey.text(), "invalid symmetric key");
    assert_eq!(FailureCause::ConnectionClose.text(), "connection close");
    assert_eq!(FailureCause::MaxAttemptsReached.text(), "max connection attempts reached");
    assert_eq!(FailureCause::FailedToEstablish.text(), "Failed to establish connection");
    assert_eq!(FailureCause::Remote("busy".to_string()).text(), "busy");
}

#[test]
fn another_version_is_quoted() {
    assert_eq!(
        FailureCause::DifferentProtocolVersion { protoc: *b"ab" }.text(),
        "remote is using a different protocol version: \"ab\""
    );
    assert_eq!(
        FailureCause::DifferentProtocolVersion { protoc: [2, 0] }.text(),
        "remote is using a different protocol version: \"\\u{2}\\0\""
    );
}

#[test]
fn a_version_that_is_no_text_is_replaced() {
    assert_eq!(
        FailureCause::DifferentProtocolVersion { protoc: [0xff, b'a'] }.text(),
        "remote is using a different protocol version: \"\u{fffd}a\""
    );
}
