use process_ownership::token::ProcessOwnershipToken;

#[test]
fn tokens_are_unique_and_debug_is_redacted() {
    let first = ProcessOwnershipToken::new();
    let second = ProcessOwnershipToken::new();

    assert!(first != second);
    assert_eq!(first.debug_text(), "ProcessOwnershipToken([REDACTED])");
    assert!(uuid::Uuid::parse_str(first.as_str()).is_ok());
}

#[test]
fn new_token_is_a_hyphenated_v4_uuid() {
    let token = ProcessOwnershipToken::new();
    let text = token.as_str();
    assert_eq!(text.len(), 36);
    assert_eq!(text.as_bytes()[14], b'4');
    assert!(matches!(text.as_bytes()[19], b'8' | b'9' | b'a' | b'b'));
    assert_eq!(
        uuid::Uuid::parse_str(text).unwrap().get_version_num(),
        4
    );
}

#[test]
fn opaque_token_round_trips_and_compares_by_text() {
    let token = ProcessOwnershipToken::from_opaque("opaque".to_string());
    assert_eq!(token.as_str(), "opaque");
    assert!(token == ProcessOwnershipToken::from_opaque("opaque".to_string()));
    assert!(token.clone() == token);
    assert_eq!(token.debug_text(), "ProcessOwnershipToken([REDACTED])");
}
