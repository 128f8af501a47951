use pollus::auth::{AuthData, AuthStatus};
use pollus::error::AuthError;
use pollus::submission::{admit_submission, require_config, require_owner, values_valid};

fn user(sub: i64) -> AuthStatus {
    AuthStatus::Authenticated(AuthData { sub, iat: 0, nbf: 0, exp: 100 })
}

#[test]
fn only_zero_one_two_are_valid() {
    assert!(values_valid(&vec![]));
    assert!(values_valid(&vec![0, 1, 2, 2, 0]));
    assert!(!values_valid(&vec![0, 3]));
    assert!(!values_valid(&vec![-1]));
}

#[test]
fn admission_checks_auth_before_values() {
    assert_eq!(admit_submission(user(4), &vec![0, 1, 2]), Ok(4));
    assert_eq!(admit_submission(user(4), &vec![0, 5]), Err(AuthError::InvalidData));
    assert_eq!(admit_submission(AuthStatus::Unauthenticated, &vec![0, 5]), Err(AuthError::Forbidden));
    assert_eq!(admit_submission(AuthStatus::Unknown, &vec![1]), Err(AuthError::Forbidden));
}

#[test]
fn submission_needs_an_existing_config() {
    assert_eq!(require_config(Some(12)), Ok(()));
    assert_eq!(require_config(None), Err(AuthError::InvalidData));
}

#[test]
fn only_the_owner_changes_a_submission() {
    assert_eq!(require_owner(3, Some(3)), Ok(()));
    assert_eq!(require_owner(3, Some(4)), Err(AuthError::Forbidden));
    assert_eq!(require_owner(3, None), Err(AuthError::NotFound));
}
