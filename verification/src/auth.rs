//! Sessions: the claims that a login issues, the cookie that carries them,
//! and what an authentication status allows.

use vstd::prelude::*;
use crate::error::AuthError;

verus! {

/// How long a session token is valid, in seconds (thirty days).
pub const TOKEN_EXP: i64 = 60 * 60 * 24 * 30;

/// The name of the cookie that carries the session token.
pub const SESSION_COOKIE: &'static str = "pollus_session";

/// The claims of a session token: the user it belongs to and the times (in
/// seconds since the Unix epoch) at which it was issued, from which it is
/// valid, and at which it expires.
#[derive(Clone, Copy, Debug, PartialEq, Eq, Structural)]
pub struct AuthData {
    pub sub: i64,
    pub iat: i64,
    pub nbf: i64,
    pub exp: i64,
}

/// The claims issued to user `sub` at time `now`: valid at once, for
/// `TOKEN_EXP` seconds.
pub open spec fn claims_at(sub: i64, now: i64) -> AuthData {
    AuthData { sub, iat: now, nbf: now, exp: (now + TOKEN_EXP) as i64 }
}

/// Builds the claims issued to user `sub` at time `now`.
pub fn session_claims(sub: i64, now: i64) -> (data: AuthData)
    requires
        now + TOKEN_EXP <= i64::MAX,
    ensures
        data == claims_at(sub, now),
{
    AuthData { sub, iat: now, nbf: now, exp: now + TOKEN_EXP }
}

/// What a login with a user token leads to, given the user the token names
/// (if any) and the current time: the claims of a new session, or a refusal.
pub fn login_at(user: Option<i64>, now: i64) -> (res: Result<AuthData, AuthError>)
    requires
        user is Some ==> now + TOKEN_EXP <= i64::MAX,
    ensures
        match user {
            None => res == Err::<AuthData, AuthError>(AuthError::Forbidden),
            Some(id) => res == Ok::<AuthData, AuthError>(claims_at(id, now)),
        },
{
    match user {
        None => Err(AuthError::Forbidden),
        Some(id) => Ok(session_claims(id, now)),
    }
}

/// Reads the system clock: the whole seconds elapsed since the Unix epoch
/// (`std::time::SystemTime::now().duration_since(UNIX_EPOCH)`, taken by
/// `Duration::as_secs`), or `None` where the clock reads a time before the
/// epoch. Nothing is claimed of the value, which depends on the time of the
/// call.
#[verifier::external_body]
fn seconds_since_epoch() -> (secs: Option<u64>) {
    std::time::SystemTime::now().duration_since(std::time::UNIX_EPOCH).ok().map(|d| d.as_secs())
}

/// What a login leads to, given the user the token names (if any) and the
/// reading of the clock in seconds since the Unix epoch (`None` for a
/// clock before the epoch): an unknown token is refused; a known user gets
/// a session that starts at the reading, unless the clock cannot give it
/// (`None`): it reads before the epoch, or so late that the session's
/// expiry would not fit in an `i64`.
pub open spec fn login_outcome(user: Option<i64>, clock: Option<u64>) -> Option<
    Result<AuthData, AuthError>,
> {
    match user {
        None => Some(Err(AuthError::Forbidden)),
        Some(id) => match clock {
            None => None,
            Some(s) => if s > i64::MAX - TOKEN_EXP {
                None
            } else {
                Some(Ok(claims_at(id, s as i64)))
            },
        },
    }
}

/// What a login leads to for the user the token names and this reading of
/// the clock.
pub fn login_with_clock(user: Option<i64>, clock: Option<u64>) -> (res: Option<
    Result<AuthData, AuthError>,
>)
    ensures
        res == login_outcome(user, clock),
        user is None ==> res == Some(Err::<AuthData, AuthError>(AuthError::Forbidden)),
        user is Some && clock is None ==> res is None,
        user matches Some(id) ==> (clock matches Some(s) ==> (s + 2592000 > i64::MAX ==> res is None)),
        user matches Some(id) ==> (clock matches Some(s) ==> (s + 2592000 <= i64::MAX ==> res
            == Some(
            Ok::<AuthData, AuthError>(
                AuthData { sub: id, iat: s as i64, nbf: s as i64, exp: (s + 2592000) as i64 },
            ),
        ))),
{
    proof {
        lemma_login_starts_at_reading(user, clock);
    }
    match user {
        None => Some(Err(AuthError::Forbidden)),
        Some(_) => match clock {
            None => None,
            Some(secs) => {
                if secs > (i64::MAX - TOKEN_EXP) as u64 {
                    None
                } else {
                    Some(login_at(user, secs as i64))
                }
            },
        },
    }
}

/// A login for a known user issues, for a clock reading `s` whose expiry
/// fits in an `i64`, the claims of that user valid from `s` for thirty days
/// (2592000 seconds); for any other reading nothing; an unknown token is
/// refused whatever the clock reads.
pub proof fn lemma_login_starts_at_reading(user: Option<i64>, clock: Option<u64>)
    ensures
        user is None ==> login_outcome(user, clock) == Some(Err::<AuthData, AuthError>(AuthError::Forbidden)),
        user is Some && clock is None ==> login_outcome(user, clock) is None,
        user matches Some(id) ==> (clock matches Some(s) ==> (s + 2592000 > i64::MAX
            ==> login_outcome(user, clock) is None)),
        user matches Some(id) ==> (clock matches Some(s) ==> (s + 2592000 <= i64::MAX
            ==> login_outcome(user, clock) == Some(
            Ok::<AuthData, AuthError>(
                AuthData { sub: id, iat: s as i64, nbf: s as i64, exp: (s + 2592000) as i64 },
            ),
        ))),
{
}

/// What a login leads to now: `login_with_clock` at the current reading of
/// the clock. An unknown token is refused; a session is only ever issued to
/// the user the token names, valid for exactly `TOKEN_EXP` seconds from its
/// start.
pub fn login(user: Option<i64>) -> (res: Option<Result<AuthData, AuthError>>)
    ensures
        exists|clock: Option<u64>| res == login_outcome(user, clock),
        user is None ==> res == Some(Err::<AuthData, AuthError>(AuthError::Forbidden)),
        user matches Some(id) ==> (res is None || (res matches Some(Ok(d)) && d == claims_at(
            id,
            d.iat,
        ))),
        res matches Some(Ok(d)) ==> 0 <= d.iat <= i64::MAX - TOKEN_EXP && d.nbf == d.iat && d.exp
            == d.iat + TOKEN_EXP,
{
    let clock = seconds_since_epoch();
    let res = login_with_clock(user, clock);
    assert(res == login_outcome(user, clock));
    res
}

/// The decimal digits of `n`, most significant first.
pub open spec fn digits(n: nat) -> Seq<char>
    decreases n,
{
    if n < 10 {
        seq![(48 + n) as char]
    } else {
        digits(n / 10).push((48 + n % 10) as char)
    }
}

/// `n` written in decimal, with a leading `-` where it is negative.
pub open spec fn decimal(n: int) -> Seq<char> {
    if n < 0 {
        seq!['-'] + digits((-n) as nat)
    } else {
        digits(n as nat)
    }
}

/// The `Set-Cookie` header value of a cookie with these attributes:
/// `name=value`, then `; HttpOnly` and `; Secure` where they are set, the
/// path and the maximum age in seconds.
pub open spec fn set_cookie_text(
    name: Seq<char>,
    value: Seq<char>,
    max_age: i64,
    path: Seq<char>,
    http_only: bool,
    secure: bool,
) -> Seq<char> {
    name + seq!['='] + value + (if http_only {
        "; HttpOnly"@
    } else {
        Seq::empty()
    }) + (if secure {
        "; Secure"@
    } else {
        Seq::empty()
    }) + "; Path="@ + path + "; Max-Age="@ + decimal(max_age as int)
}

/// Renders a cookie with `cookie::Cookie::build`, `max_age` (from
/// `cookie::time::Duration::seconds`), `path`, `http_only`, `secure` and its
/// `Display` impl. Claimed, as the crate's source shows: the name and value
/// joined by `=`, then `; HttpOnly` where `http_only`, `; Secure` where
/// `secure`, `; Path=` and the path, `; Max-Age=` and the seconds in
/// decimal; no other attribute is set, so none is written.
#[verifier::external_body]
fn render_cookie(
    name: &str,
    value: &str,
    max_age: i64,
    path: &str,
    http_only: bool,
    secure: bool,
) -> (text: String)
    ensures
        text@ == set_cookie_text(name@, value@, max_age, path@, http_only, secure),
{
    cookie::Cookie::build((name.to_owned(), value.to_owned()))
        .max_age(cookie::time::Duration::seconds(max_age))
        .path(path.to_owned())
        .http_only(http_only)
        .secure(secure)
        .build()
        .to_string()
}

/// The `Set-Cookie` header value that hands a session token to the client:
/// the session cookie, valid for `TOKEN_EXP` seconds on every path, hidden
/// from scripts and sent over secure connections only.
pub fn session_cookie(token: &str) -> (text: String)
    ensures
        text@ == set_cookie_text(SESSION_COOKIE@, token@, TOKEN_EXP, "/"@, true, true),
{
    render_cookie(SESSION_COOKIE, token, TOKEN_EXP, "/", true, true)
}

/// Why an authentication status did not yield claims; the message that
/// `gotham_restful` gives for it.
#[derive(Debug, PartialEq, Eq)]
pub struct AuthFailure {
    pub message: String,
}

/// The authentication status of a request, as the session middleware
/// determines it from the session cookie.
#[derive(Debug, PartialEq, Eq)]
pub enum AuthStatus {
    /// No secret was available to check the token.
    Unknown,
    /// The request carries no token.
    Unauthenticated,
    /// The token is invalid (expired, among others); the reason is attached.
    Invalid(String),
    /// The token is valid; its claims are attached.
    Authenticated(AuthData),
}

/// The message with which a status that carries no claims is refused.
pub open spec fn failure_message(status: AuthStatus) -> Seq<char> {
    match status {
        AuthStatus::Unknown => "The authentication could not be determined"@,
        AuthStatus::Unauthenticated => "Missing token"@,
        AuthStatus::Invalid(reason) => "Invalid token: "@ + reason@,
        AuthStatus::Authenticated(_) => Seq::empty(),
    }
}

impl AuthStatus {
    /// The claims of an authenticated request, or why there are none.
    pub fn ok(self) -> (res: Result<AuthData, AuthFailure>)
        ensures
            match self {
                AuthStatus::Authenticated(data) => res matches Ok(d) && d == data,
                _ => res matches Err(f) && f.message@ == failure_message(self),
            },
    {
        match self {
            AuthStatus::Unknown => Err(
                AuthFailure { message: String::from_str("The authentication could not be determined") },
            ),
            AuthStatus::Unauthenticated => Err(AuthFailure { message: String::from_str("Missing token") }),
            AuthStatus::Invalid(reason) => {
                let message = String::from_str("Invalid token: ").concat(reason.as_str());
                Err(AuthFailure { message })
            },
            AuthStatus::Authenticated(data) => Ok(data),
        }
    }
}

impl From<AuthFailure> for AuthError {
    fn from(failure: AuthFailure) -> (err: AuthError) {
        AuthError::Forbidden
    }
}

impl vstd::std_specs::convert::FromSpecImpl<AuthFailure> for AuthError {
    open spec fn obeys_from_spec() -> bool {
        true
    }

    open spec fn from_spec(failure: AuthFailure) -> AuthError {
        AuthError::Forbidden
    }
}

/// The user on whose behalf a request acts: the subject of its claims, or
/// `Forbidden` where it is not authenticated.
pub fn authenticated_user(status: AuthStatus) -> (res: Result<i64, AuthError>)
    ensures
        match status {
            AuthStatus::Authenticated(data) => res == Ok::<i64, AuthError>(data.sub),
            _ => res == Err::<i64, AuthError>(AuthError::Forbidden),
        },
{
    match status.ok() {
        Ok(data) => Ok(data.sub),
        Err(failure) => Err(AuthError::from(failure)),
    }
}

} // verus!
