//! Mapping from the error taxonomy to transport-level responses: each
//! error kind gets its status code, and the body keeps the uniform
//! two-field shape.

use vstd::prelude::*;

use crate::error::AppError;

verus! {

/// The uniform error body: the HTTP status line text and a
/// human-readable message.
#[derive(Debug)]
pub struct ErrorResponseBody {
    pub code: String,
    pub message: String,
}

/// A transport-level error: the status code with its structured body.
#[derive(Debug)]
pub struct ErrorResponse {
    pub code: u16,
    pub body: ErrorResponseBody,
}

/// Classify an error for the transport: invalid argument becomes 400,
/// not found 404, internal 500. The message is carried unchanged and
/// the body's code field holds the status line text.
pub fn handle_error(err: AppError) -> (r: ErrorResponse)
    ensures
        r.body.message@ == err.message_spec(),
        match err {
            AppError::InvalidArgument(_) => r.code == 400 && r.body.code@ == "400 Bad Request"@,
            AppError::NotFound(_) => r.code == 404 && r.body.code@ == "404 Not Found"@,
            AppError::Internal(_) => r.code == 500 && r.body.code@
                == "500 Internal Server Error"@,
        },
{
    match err {
        AppError::InvalidArgument(message) => ErrorResponse {
            code: 400,
            body: ErrorResponseBody { code: String::from_str("400 Bad Request"), message },
        },
        AppError::NotFound(message) => ErrorResponse {
            code: 404,
            body: ErrorResponseBody { code: String::from_str("404 Not Found"), message },
        },
        AppError::Internal(message) => ErrorResponse {
            code: 500,
            body: ErrorResponseBody {
                code: String::from_str("500 Internal Server Error"),
                message,
            },
        },
    }
}

} // verus!
