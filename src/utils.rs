//! Errors that map onto HTTP status codes.
use vstd::prelude::*;

verus! {

/// A failure that becomes a 422 or a 500 response.
pub enum HttpError<T> {
    UnprocessableEntity(T),
    InternalServerError(T),
}

/// The error as a 422 Unprocessable Entity.
pub fn e422<T>(error: T) -> (r: HttpError<T>)
    ensures
        r == HttpError::UnprocessableEntity(error),
{
    HttpError::UnprocessableEntity(error)
}

/// The error as a 500 Internal Server Error.
pub fn e500<T>(error: T) -> (r: HttpError<T>)
    ensures
        r == HttpError::InternalServerError(error),
{
    HttpError::InternalServerError(error)
}

impl<T> HttpError<T> {
    /// The HTTP status of the failure.
    pub fn status_code(&self) -> (r: u16)
        ensures
            r == match self {
                HttpError::UnprocessableEntity(_) => 422u16,
                HttpError::InternalServerError(_) => 500u16,
            },
    {
        match self {
            HttpError::UnprocessableEntity(_) => 422,
            HttpError::InternalServerError(_) => 500,
        }
    }
}

} // verus!
