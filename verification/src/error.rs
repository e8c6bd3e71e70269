//! The errors that the operations of this library end in, as a caller of
//! the service sees them.

use vstd::prelude::*;
use vstd::std_specs::convert::FromSpecImpl;

use crate::lesson::ValidationError;
use crate::permission::AuthzError;
use crate::store::ServiceError;

verus! {

/// The error type of sqlx. Nothing is known of a value of it: it is
/// carried from where a database call failed to the caller.
#[verifier::external_type_specification]
#[verifier::external_body]
pub struct ExDatabaseError(sqlx::Error);

/// The error type of bcrypt. Nothing is known of a value of it: it is
/// carried from where hashing failed to the caller.
#[verifier::external_type_specification]
#[verifier::external_body]
pub struct ExHashError(bcrypt::BcryptError);

/// What a request ends in when it fails.
#[derive(Debug)]
pub enum APIError {
    /// An account with that login exists already.
    LoginAlreadyPresent,
    /// There is no lesson of that identity. Only a caller that passed the
    /// access check for the lesson is told so.
    LessonDosNotExist,
    /// A lesson of that identity exists already.
    LessonAlreadyPresent,
    /// The account may not do this. A caller that the access check refuses
    /// is told this and nothing else, whether the lesson exists or not.
    AccessDenied,
    /// The request was rejected for what it holds.
    Validation(ValidationError),
    /// The database failed.
    Database(sqlx::Error),
    /// Hashing a password failed.
    Hashing(bcrypt::BcryptError),
}

/// What a caller is told whom the access check refuses: that access is
/// denied, whatever the reason.
pub open spec fn refusal(error: AuthzError) -> APIError {
    APIError::AccessDenied
}

/// What a caller is told when an operation fails after the check: the
/// reason as it is.
pub open spec fn failure(error: ServiceError) -> APIError {
    match error {
        ServiceError::NotFound => APIError::LessonDosNotExist,
        ServiceError::Forbidden => APIError::AccessDenied,
        ServiceError::AlreadyExists => APIError::LessonAlreadyPresent,
        ServiceError::Validation(fault) => APIError::Validation(fault),
    }
}

impl From<AuthzError> for APIError {
    fn from(error: AuthzError) -> (res: APIError) {
        APIError::AccessDenied
    }
}

impl FromSpecImpl<AuthzError> for APIError {
    open spec fn obeys_from_spec() -> bool {
        true
    }

    open spec fn from_spec(error: AuthzError) -> APIError {
        refusal(error)
    }
}

impl From<ServiceError> for APIError {
    fn from(error: ServiceError) -> (res: APIError) {
        match error {
            ServiceError::NotFound => APIError::LessonDosNotExist,
            ServiceError::Forbidden => APIError::AccessDenied,
            ServiceError::AlreadyExists => APIError::LessonAlreadyPresent,
            ServiceError::Validation(fault) => APIError::Validation(fault),
        }
    }
}

impl FromSpecImpl<ServiceError> for APIError {
    open spec fn obeys_from_spec() -> bool {
        true
    }

    open spec fn from_spec(error: ServiceError) -> APIError {
        failure(error)
    }
}

impl From<sqlx::Error> for APIError {
    fn from(error: sqlx::Error) -> (res: APIError) {
        APIError::Database(error)
    }
}

impl FromSpecImpl<sqlx::Error> for APIError {
    open spec fn obeys_from_spec() -> bool {
        true
    }

    open spec fn from_spec(error: sqlx::Error) -> APIError {
        APIError::Database(error)
    }
}

impl From<bcrypt::BcryptError> for APIError {
    fn from(error: bcrypt::BcryptError) -> (res: APIError) {
        APIError::Hashing(error)
    }
}

impl FromSpecImpl<bcrypt::BcryptError> for APIError {
    open spec fn obeys_from_spec() -> bool {
        true
    }

    open spec fn from_spec(error: bcrypt::BcryptError) -> APIError {
        APIError::Hashing(error)
    }
}


/// A caller whom the access check refuses cannot tell why: a lesson that does
/// not exist and a level that does not suffice give the same error.
pub proof fn lemma_refusals_alike(a: AuthzError, b: AuthzError)
    ensures
        refusal(a) == refusal(b),
        refusal(a) == APIError::AccessDenied,
{
}

/// After the access check the reasons stay apart: a lesson that is gone, a token
/// that does not cover the operation, a lesson that exists already and a
/// rejected list each give an error of their own.
pub proof fn lemma_failures_apart(a: ServiceError, b: ServiceError)
    ensures
        a != b ==> failure(a) != failure(b),
{
}

} // verus!
