use pollus::error::AuthError;

#[test]
fn status_codes_match_the_variants() {
    assert_eq!(AuthError::Forbidden.status_code(), 403);
    assert_eq!(AuthError::InvalidData.status_code(), 400);
    assert_eq!(AuthError::NotFound.status_code(), 404);
    assert_eq!(AuthError::DatabaseError("boom".to_string()).status_code(), 500);
}

#[test]
fn messages_match_the_variants() {
    assert_eq!(AuthError::Forbidden.message(), "Forbidden");
    assert_eq!(AuthError::InvalidData.message(), "Invalid Data");
    assert_eq!(AuthError::NotFound.message(), "Not Found");
    assert_eq!(
        AuthError::DatabaseError("connection refused".to_string()).message(),
        "connection refused"
    );
}
