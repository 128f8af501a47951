//! The errors with which a request to the poll service is refused.

use vstd::prelude::*;

verus! {

/// Why a request was refused. Each variant is answered with its own HTTP
/// status code and message.
#[derive(Debug, PartialEq, Eq)]
pub enum AuthError {
    /// The caller is not authenticated, or not allowed to touch the object.
    Forbidden,
    /// The submitted data is out of range or names an unknown object.
    InvalidData,
    /// The requested object does not exist.
    NotFound,
    /// The database failed; the message is the database's own.
    DatabaseError(String),
}

/// The HTTP status code that answers an error.
pub open spec fn status_of(err: AuthError) -> u16 {
    match err {
        AuthError::Forbidden => 403,
        AuthError::InvalidData => 400,
        AuthError::NotFound => 404,
        AuthError::DatabaseError(_) => 500,
    }
}

/// The text of the response body that answers an error.
pub open spec fn message_of(err: AuthError) -> Seq<char> {
    match err {
        AuthError::Forbidden => "Forbidden"@,
        AuthError::InvalidData => "Invalid Data"@,
        AuthError::NotFound => "Not Found"@,
        AuthError::DatabaseError(msg) => msg@,
    }
}

impl AuthError {
    /// The HTTP status code of this error.
    pub fn status_code(&self) -> (code: u16)
        ensures
            code == status_of(*self),
    {
        match self {
            AuthError::Forbidden => 403,
            AuthError::InvalidData => 400,
            AuthError::NotFound => 404,
            AuthError::DatabaseError(_) => 500,
        }
    }

    /// The message sent back with this error.
    pub fn message(&self) -> (msg: String)
        ensures
            msg@ == message_of(*self),
    {
        match self {
            AuthError::Forbidden => String::from_str("Forbidden"),
            AuthError::InvalidData => String::from_str("Invalid Data"),
            AuthError::NotFound => String::from_str("Not Found"),
            AuthError::DatabaseError(msg) => msg.clone(),
        }
    }
}

} // verus!
