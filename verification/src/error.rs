//! Request errors and how they are answered.

use vstd::prelude::*;

verus! {

/// Why a request was refused.
#[derive(Debug)]
pub enum AppError {
    /// The request was malformed; the reason is sent back.
    BadRequest(String),
    /// The requested truck is unknown.
    NotFound,
}

impl AppError {
    /// The HTTP status the error is answered with.
    pub fn status_code(&self) -> (c: u16)
        ensures
            c == (match self {
                AppError::BadRequest(_) => 400u16,
                AppError::NotFound => 404u16,
            }),
    {
        match self {
            AppError::BadRequest(_) => 400,
            AppError::NotFound => 404,
        }
    }

    /// The body the error is answered with.
    pub fn response_body(&self) -> (b: String)
        ensures
            b@ == (match self {
                AppError::BadRequest(m) => m@,
                AppError::NotFound => "not found"@,
            }),
    {
        match self {
            AppError::BadRequest(m) => m.clone(),
            AppError::NotFound => String::from_str("not found"),
        }
    }

    /// The error as one line of text, for logs.
    pub fn message(&self) -> (t: String)
        ensures
            t@ == (match self {
                AppError::BadRequest(m) => "bad request: "@ + m@,
                AppError::NotFound => "not found"@,
            }),
    {
        match self {
            AppError::BadRequest(m) => {
                let mut t = String::from_str("bad request: ");
                t.append(m.as_str());
                t
            },
            AppError::NotFound => String::from_str("not found"),
        }
    }
}

} // verus!
