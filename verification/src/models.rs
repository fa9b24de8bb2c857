//! The request and response bodies of the service.
use vstd::prelude::*;

verus! {

/// The form or JSON body of a sign-up request.
#[derive(Clone, Debug, PartialEq, Eq)]
pub struct SignUpInput {
    pub name: String,
    pub email: String,
    pub password: String,
}

/// The form or JSON body of a sign-in request.
#[derive(Clone, Debug, PartialEq, Eq)]
pub struct SignInInput {
    pub email: String,
    pub password: String,
}

/// The JSON envelope of a successful API answer.
#[derive(Clone, Debug, PartialEq, Eq)]
pub struct ApiResponse<T> {
    pub status: String,
    pub message: String,
    pub data: T,
}

/// What a successful sign-in hands back: the session token and the user.
#[derive(Clone, Debug, PartialEq, Eq)]
pub struct AuthResult {
    pub token: String,
    pub user: UserData,
}

/// The public fields of a user; `id` is the text form of the user's UUID.
#[derive(Clone, Debug, PartialEq, Eq)]
pub struct UserData {
    pub id: String,
    pub name: String,
    pub email: String,
}

/// The JSON body of an error answer.
#[derive(Clone, Debug, PartialEq, Eq)]
pub struct ErrorResponse {
    pub success: bool,
    pub error: String,
    pub details: Option<String>,
}

impl ErrorResponse {
    /// An error answer with the given message and no details.
    pub fn new(error: &str) -> (r: ErrorResponse)
        ensures
            !r.success,
            r.error@ == error@,
            r.details is None,
    {
        ErrorResponse { success: false, error: error.to_owned(), details: None }
    }
}

/// The user on whose behalf an authenticated request runs.
#[derive(Clone, Copy, Debug, PartialEq, Eq)]
pub struct AuthUser {
    pub user_id: u128,
}

} // verus!
