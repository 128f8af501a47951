use pollus::auth::{
    authenticated_user, login, login_at, login_with_clock, session_claims, session_cookie, AuthData, AuthFailure,
    AuthStatus, SESSION_COOKIE, TOKEN_EXP,
};
use pollus::error::AuthError;

fn claims(sub: i64) -> AuthData {
    AuthData { sub, iat: 10, nbf: 10, exp: 20 }
}

#[test]
fn token_lasts_thirty_days() {
    assert_eq!(TOKEN_EXP, 2_592_000);
}

#[test]
fn session_claims_are_valid_at_once_for_thirty_days() {
    let data = session_claims(42, 1_600_000_000);
    assert_eq!(
        data,
        AuthData { sub: 42, iat: 1_600_000_000, nbf: 1_600_000_000, exp: 1_602_592_000 }
    );
}

#[test]
fn login_with_unknown_token_is_forbidden() {
    assert_eq!(login_at(None, 1_000), Err(AuthError::Forbidden));
    assert_eq!(login(None), Some(Err(AuthError::Forbidden)));
}

#[test]
fn login_with_known_token_issues_claims() {
    assert_eq!(
        login_at(Some(7), 1_000),
        Ok(AuthData { sub: 7, iat: 1_000, nbf: 1_000, exp: 1_000 + 2_592_000 })
    );
}

#[test]
fn login_now_issues_claims_for_the_user() {
    match login(Some(9)) {
        Some(Ok(data)) => {
            assert_eq!(data.sub, 9);
            assert_eq!(data.nbf, data.iat);
            assert_eq!(data.exp - data.iat, TOKEN_EXP);
            assert!(data.iat > 1_600_000_000);
        }
        other => panic!("unexpected outcome {:?}", other),
    }
}

#[test]
fn session_cookie_carries_the_token() {
    assert_eq!(SESSION_COOKIE, "pollus_session");
    assert_eq!(
        session_cookie("abc.def.ghi"),
        "pollus_session=abc.def.ghi; HttpOnly; Secure; Path=/; Max-Age=2592000"
    );
}

#[test]
fn status_ok_yields_claims_or_reason() {
    assert_eq!(AuthStatus::Authenticated(claims(3)).ok(), Ok(claims(3)));
    assert_eq!(
        AuthStatus::Unknown.ok(),
        Err(AuthFailure { message: "The authentication could not be determined".to_string() })
    );
    assert_eq!(
        AuthStatus::Unauthenticated.ok(),
        Err(AuthFailure { message: "Missing token".to_string() })
    );
    assert_eq!(
        AuthStatus::Invalid("ExpiredSignature".to_string()).ok(),
        Err(AuthFailure { message: "Invalid token: ExpiredSignature".to_string() })
    );
}

#[test]
fn auth_failure_becomes_forbidden() {
    let err: AuthError = AuthError::from(AuthFailure { message: "Missing token".to_string() });
    assert_eq!(err, AuthError::Forbidden);
}

#[test]
fn only_authenticated_requests_have_a_user() {
    assert_eq!(authenticated_user(AuthStatus::Authenticated(claims(5))), Ok(5));
    assert_eq!(authenticated_user(AuthStatus::Unknown), Err(AuthError::Forbidden));
    assert_eq!(authenticated_user(AuthStatus::Unauthenticated), Err(AuthError::Forbidden));
    assert_eq!(
        authenticated_user(AuthStatus::Invalid("bad".to_string())),
        Err(AuthError::Forbidden)
    );
}

#[test]
fn login_with_clock_issues_or_refuses() {
    assert_eq!(login_with_clock(None, Some(5)), Some(Err(AuthError::Forbidden)));
    assert_eq!(login_with_clock(None, None), Some(Err(AuthError::Forbidden)));
    assert_eq!(login_with_clock(Some(3), None), None);
    assert_eq!(
        login_with_clock(Some(3), Some(1_700_000_000)),
        Some(Ok(AuthData { sub: 3, iat: 1_700_000_000, nbf: 1_700_000_000, exp: 1_702_592_000 }))
    );
    let last = (i64::MAX - TOKEN_EXP) as u64;
    assert_eq!(
        login_with_clock(Some(3), Some(last)),
        Some(Ok(AuthData { sub: 3, iat: last as i64, nbf: last as i64, exp: i64::MAX }))
    );
    assert_eq!(login_with_clock(Some(3), Some(last + 1)), None);
    assert_eq!(login_with_clock(Some(3), Some(u64::MAX)), None);
}
