//! The body of an error answer: a number and a sentence.

use crate::routes::auth::LoginError;
use vstd::prelude::*;
use vstd::string::StringExecFns;

verus! {

/// An error that no route is to blame for.
#[derive(Debug, Clone, Copy, PartialEq, Eq, Structural)]
pub enum AppError {
    InvalidRequestPayload,
}

impl AppError {
    /// The number by which clients know the error.
    pub open spec fn code_of(self) -> u16 {
        match self {
            AppError::InvalidRequestPayload => 10001,
        }
    }

    /// Computes `code_of`.
    pub fn code(self) -> (code: u16)
        ensures
            code == self.code_of(),
    {
        match self {
            AppError::InvalidRequestPayload => 10001,
        }
    }
}

/// What a client is sent when a request fails.
#[derive(Debug, PartialEq, Eq)]
pub struct AppErrorResponse {
    pub error_code: u16,
    pub error_message: String,
}

impl AppErrorResponse {
    /// The sentence that goes with an application error.
    pub open spec fn app_error_message(value: AppError) -> Seq<char> {
        match value {
            AppError::InvalidRequestPayload => "Invalid request payload"@,
        }
    }

    /// The sentence that goes with a login error.
    pub open spec fn login_error_message(value: LoginError) -> Seq<char> {
        match value {
            LoginError::GenericError => "Generic login error"@,
            LoginError::InvalidEmailOrPassword => "Invalid email or password"@,
        }
    }

    /// The answer for an application error.
    pub fn from_app_error(value: AppError) -> (response: AppErrorResponse)
        ensures
            response.error_code == value.code_of(),
            response.error_message@ == Self::app_error_message(value),
    {
        match value {
            AppError::InvalidRequestPayload => AppErrorResponse {
                error_code: value.code(),
                error_message: String::from_str("Invalid request payload"),
            },
        }
    }

    /// The answer for a login error.
    pub fn from_login_error(value: LoginError) -> (response: AppErrorResponse)
        ensures
            response.error_code == value.code_of(),
            response.error_message@ == Self::login_error_message(value),
    {
        match value {
            LoginError::GenericError => AppErrorResponse {
                error_code: value.code(),
                error_message: String::from_str("Generic login error"),
            },
            LoginError::InvalidEmailOrPassword => AppErrorResponse {
                error_code: value.code(),
                error_message: String::from_str("Invalid email or password"),
            },
        }
    }
}

} // verus!
