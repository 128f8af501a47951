//! The checks that guard creating and changing a submission to a poll.

use vstd::prelude::*;
use crate::auth::AuthStatus;
use crate::error::AuthError;

verus! {

/// The lowest answer a submission may give for a time.
pub const MIN_VALUE: i16 = 0;

/// The highest answer a submission may give for a time.
pub const MAX_VALUE: i16 = 2;

/// An answer is one of 0, 1 and 2.
pub open spec fn valid_value(v: i16) -> bool {
    MIN_VALUE <= v <= MAX_VALUE
}

/// Every answer of a submission is valid.
pub open spec fn all_valid(values: Seq<i16>) -> bool {
    forall|i: int| 0 <= i < values.len() ==> valid_value(#[trigger] values[i])
}

/// Whether every answer of a submission is one of 0, 1 and 2.
pub fn values_valid(values: &Vec<i16>) -> (ok: bool)
    ensures
        ok == all_valid(values@),
{
    let mut i: usize = 0;
    while i < values.len()
        invariant
            0 <= i <= values.len(),
            forall|j: int| 0 <= j < i ==> valid_value(#[trigger] values@[j]),
        decreases values.len() - i,
    {
        if values[i] > MAX_VALUE || values[i] < MIN_VALUE {
            return false;
        }
        i = i + 1;
    }
    true
}

/// The outcome of the checks that precede any database work on a
/// submission: the caller must be authenticated (else `Forbidden`), and
/// every answer must be valid (else `InvalidData`).
pub open spec fn admit_spec(status: AuthStatus, values: Seq<i16>) -> Result<i64, AuthError> {
    match status {
        AuthStatus::Authenticated(data) => if all_valid(values) {
            Ok(data.sub)
        } else {
            Err(AuthError::InvalidData)
        },
        _ => Err(AuthError::Forbidden),
    }
}

/// Checks the caller and the answers of a submission that is created or
/// changed; yields the user on whose behalf it is made.
pub fn admit_submission(status: AuthStatus, values: &Vec<i16>) -> (res: Result<i64, AuthError>)
    ensures
        res == admit_spec(status, values@),
        status matches AuthStatus::Authenticated(d) ==> ((forall|i: int|
            0 <= i < values.len() ==> 0 <= #[trigger] values@[i] <= 2) ==> res == Ok::<
            i64,
            AuthError,
        >(d.sub)),
        status matches AuthStatus::Authenticated(_) && (exists|i: int|
            0 <= i < values.len() && !(0 <= #[trigger] values@[i] <= 2)) ==> res == Err::<
            i64,
            AuthError,
        >(AuthError::InvalidData),
        !(status is Authenticated) ==> res == Err::<i64, AuthError>(AuthError::Forbidden),
{
    proof {
        lemma_admission_exact(status, values@);
    }
    let user_id = match crate::auth::authenticated_user(status) {
        Ok(id) => id,
        Err(e) => return Err(e),
    };
    if !values_valid(values) {
        return Err(AuthError::InvalidData);
    }
    Ok(user_id)
}

/// A new submission must name a poll configuration that exists: the
/// lookup of the configuration found `config` (its id, if any).
pub fn require_config(config: Option<i64>) -> (res: Result<(), AuthError>)
    ensures
        config is Some ==> res is Ok,
        config is None ==> res == Err::<(), AuthError>(AuthError::InvalidData),
{
    match config {
        Some(_) => Ok(()),
        None => Err(AuthError::InvalidData),
    }
}

/// A submission may only be changed by the user who made it: the lookup of
/// the submission found `owner` (the user who made it, if it exists).
pub fn require_owner(user_id: i64, owner: Option<i64>) -> (res: Result<(), AuthError>)
    ensures
        match owner {
            None => res == Err::<(), AuthError>(AuthError::NotFound),
            Some(o) => if o == user_id {
                res is Ok
            } else {
                res == Err::<(), AuthError>(AuthError::Forbidden)
            },
        },
{
    match owner {
        None => Err(AuthError::NotFound),
        Some(o) => if user_id != o {
            Err(AuthError::Forbidden)
        } else {
            Ok(())
        },
    }
}

/// An authenticated caller whose answers are all 0, 1 or 2 is admitted on
/// their own behalf; one with any other answer is refused as invalid data;
/// anyone else is refused as forbidden, whatever the answers.
pub proof fn lemma_admission_exact(status: AuthStatus, values: Seq<i16>)
    ensures
        status matches AuthStatus::Authenticated(d) ==> ((forall|i: int|
            0 <= i < values.len() ==> 0 <= #[trigger] values[i] <= 2) ==> admit_spec(status, values)
            == Ok::<i64, AuthError>(d.sub)),
        status matches AuthStatus::Authenticated(_) && (exists|i: int|
            0 <= i < values.len() && !(0 <= #[trigger] values[i] <= 2)) ==> admit_spec(status, values)
            == Err::<i64, AuthError>(AuthError::InvalidData),
        !(status is Authenticated) ==> admit_spec(status, values) == Err::<i64, AuthError>(
            AuthError::Forbidden,
        ),
{
}

/// A submission with an answer out of range is never admitted, whoever
/// makes it.
pub proof fn lemma_invalid_answer_never_admitted(status: AuthStatus, values: Seq<i16>, i: int)
    requires
        0 <= i < values.len(),
        !valid_value(values[i]),
    ensures
        admit_spec(status, values) is Err,
{
}

/// Only an authenticated caller is ever admitted, and only on their own
/// behalf.
pub proof fn lemma_admitted_only_as_self(status: AuthStatus, values: Seq<i16>)
    requires
        admit_spec(status, values) is Ok,
    ensures
        status matches AuthStatus::Authenticated(data) && admit_spec(status, values) == Ok::<
            i64,
            AuthError,
        >(data.sub),
{
}

} // verus!
