//! How failed database work is answered.
use vstd::prelude::*;

use crate::models::ErrorResponse;
use crate::session::is_error;
use crate::status::{ApiError, Status};

verus! {

/// A failed database call. `code` is the SQLSTATE code that the database
/// server reported, when the failure came from the server.
#[derive(Clone, Debug, PartialEq, Eq)]
pub struct DbError {
    pub code: Option<String>,
}

/// The SQLSTATE code of a unique-constraint violation.
pub open spec fn unique_violation_code() -> Seq<char> {
    "23505"@
}

/// `r` carries on the value of `result`, and answers a failed call with
/// 500 `DB error`.
pub open spec fn db_outcome_spec<T>(result: Result<T, DbError>, r: Result<T, ApiError>) -> bool {
    match result {
        Ok(v) => r == Ok::<T, ApiError>(v),
        Err(_) => r matches Err(e) && is_error(e, Status::InternalServerError, "DB error"@),
    }
}

/// The outcome of a database call as the handlers answer it.
pub fn db_outcome<T>(result: Result<T, DbError>) -> (r: Result<T, ApiError>)
    ensures
        db_outcome_spec(result, r),
{
    match result {
        Ok(v) => Ok(v),
        Err(_) => Err(ApiError::new(Status::InternalServerError, "DB error")),
    }
}

/// The JSON error answer to a failed database call: 409 `Email already
/// exists` for a unique-constraint violation, 500 `Database error` for any
/// other failure.
pub fn db_error_response(error: &DbError) -> (r: (Status, ErrorResponse))
    ensures
        !r.1.success,
        r.1.details is None,
        (error.code matches Some(c) && c@ == unique_violation_code()) ==> r.0 == Status::Conflict
            && r.1.error@ == "Email already exists"@,
        !(error.code matches Some(c) && c@ == unique_violation_code()) ==> r.0
            == Status::InternalServerError && r.1.error@ == "Database error"@,
{
    let unique = "23505".to_owned();
    match &error.code {
        Some(c) => {
            if *c == unique {
                return (Status::Conflict, ErrorResponse::new("Email already exists"));
            }
        },
        None => {},
    }
    (Status::InternalServerError, ErrorResponse::new("Database error"))
}


/// A successful database call carries its value on; a failed one is
/// answered with 500 `DB error`. The code of a unique violation is `23505`.
pub proof fn lemma_db_answers<T>(result: Result<T, DbError>, r: Result<T, ApiError>)
    requires
        db_outcome_spec(result, r),
    ensures
        result matches Ok(v) ==> r == Ok::<T, ApiError>(v),
        result is Err ==> (r matches Err(e) && e.status.spec_code() == 500 && e.message@
            == "DB error"@),
        unique_violation_code() == "23505"@,
{
}

} // verus!
