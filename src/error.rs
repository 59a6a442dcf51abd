use vstd::prelude::*;

verus! {

/// The four outcomes that a handler can report to a client besides success.
#[allow(non_camel_case_types)]
#[derive(Debug, Clone, Copy, PartialEq, Eq, Structural)]
pub enum Error {
    BAD_REQUEST,
    INTERNAL_SERVER_ERROR,
    NOT_FOUND,
    UNAUTHORIZED,
}

#[allow(non_snake_case)]
impl Error {
    /// Maps any cause to a client error.
    pub fn BadRequest<T>(_cause: T) -> (r: Error)
        ensures
            r == Error::BAD_REQUEST,
    {
        Error::BAD_REQUEST
    }

    /// Maps any cause to an internal error.
    pub fn InternalServerError<T>(_cause: T) -> (r: Error)
        ensures
            r == Error::INTERNAL_SERVER_ERROR,
    {
        Error::INTERNAL_SERVER_ERROR
    }

    /// Maps any cause to an authorization failure.
    pub fn Unauthorized<T>(_cause: T) -> (r: Error)
        ensures
            r == Error::UNAUTHORIZED,
    {
        Error::UNAUTHORIZED
    }

    /// The HTTP status code that reports this error.
    pub fn status_code(&self) -> (r: u16)
        ensures
            r == status_of(*self),
    {
        match *self {
            Error::BAD_REQUEST => 400,
            Error::INTERNAL_SERVER_ERROR => 500,
            Error::NOT_FOUND => 404,
            Error::UNAUTHORIZED => 401,
        }
    }
}

/// The HTTP status code of each error.
pub open spec fn status_of(e: Error) -> u16 {
    match e {
        Error::BAD_REQUEST => 400,
        Error::INTERNAL_SERVER_ERROR => 500,
        Error::NOT_FOUND => 404,
        Error::UNAUTHORIZED => 401,
    }
}

} // verus!
