//! The application error taxonomy: configuration errors are fatal to
//! starting a loop, everything else resolves to a failed run or an HTTP
//! error response.

use vstd::prelude::*;
use vstd::string::StringExecFns;

verus! {

/// An application-level error. Database faults live with the callers that
/// talk to a database; the library's own operations never produce them.
#[derive(Debug)]
pub enum AppError {
    NotFound(String),
    BadRequest(String),
    Unauthorized,
    Internal(String),
}

/// The full message of an error, prefix and detail.
pub open spec fn spec_app_message(e: AppError) -> Seq<char> {
    match e {
        AppError::NotFound(m) => "Not found: "@ + m@,
        AppError::BadRequest(m) => "Bad request: "@ + m@,
        AppError::Unauthorized => "Unauthorized"@,
        AppError::Internal(m) => "Internal error: "@ + m@,
    }
}

/// The HTTP status an error maps to.
pub open spec fn spec_app_status(e: AppError) -> u16 {
    match e {
        AppError::NotFound(_) => 404u16,
        AppError::BadRequest(_) => 400u16,
        AppError::Unauthorized => 401u16,
        AppError::Internal(_) => 500u16,
    }
}

/// The message an API response may carry: detail for client errors, a
/// fixed phrase for server faults.
pub open spec fn spec_app_public_message(e: AppError) -> Seq<char> {
    match e {
        AppError::NotFound(m) => m@,
        AppError::BadRequest(m) => m@,
        AppError::Unauthorized => "Unauthorized"@,
        AppError::Internal(_) => "Internal server error"@,
    }
}

impl AppError {
    /// The full message, prefix and detail.
    pub fn message(&self) -> (r: String)
        ensures
            r@ == spec_app_message(*self),
    {
        match self {
            AppError::NotFound(m) => {
                let mut s = "Not found: ".to_owned();
                s.append(m.as_str());
                s
            },
            AppError::BadRequest(m) => {
                let mut s = "Bad request: ".to_owned();
                s.append(m.as_str());
                s
            },
            AppError::Unauthorized => "Unauthorized".to_owned(),
            AppError::Internal(m) => {
                let mut s = "Internal error: ".to_owned();
                s.append(m.as_str());
                s
            },
        }
    }

    /// The HTTP status this error maps to.
    pub fn http_status(&self) -> (r: u16)
        ensures
            r == spec_app_status(*self),
    {
        match self {
            AppError::NotFound(_) => 404,
            AppError::BadRequest(_) => 400,
            AppError::Unauthorized => 401,
            AppError::Internal(_) => 500,
        }
    }

    /// The message an API response carries for this error.
    pub fn public_message(&self) -> (r: String)
        ensures
            r@ == spec_app_public_message(*self),
    {
        match self {
            AppError::NotFound(m) => m.clone(),
            AppError::BadRequest(m) => m.clone(),
            AppError::Unauthorized => "Unauthorized".to_owned(),
            AppError::Internal(_) => "Internal server error".to_owned(),
        }
    }
}

} // verus!
