use vstd::prelude::*;

verus! {

/// Failures reported by the backend's operations.
#[derive(Debug, PartialEq, Eq)]
pub enum APIError {
    /// The bearer token is missing or resolves to no account.
    Unauthenticated,
    /// The token to revoke, or the record to look up, is unknown.
    NotFound,
    /// The channel or a store could not accept the request; the caller may retry.
    Unavailable,
    /// The request failed validation; the text says why.
    BadRequest(String),
    /// Any other failure of the backend itself.
    InternalServerError,
}

/// The HTTP status that answers each kind of failure.
pub open spec fn status_of(e: APIError) -> u16 {
    match e {
        APIError::Unauthenticated => 401,
        APIError::NotFound => 404,
        APIError::Unavailable => 503,
        APIError::BadRequest(_) => 400,
        APIError::InternalServerError => 500,
    }
}

impl APIError {
    /// The HTTP status code with which a request that failed this way is answered.
    pub fn status_code(&self) -> (r: u16)
        ensures
            r == status_of(*self),
    {
        match self {
            APIError::Unauthenticated => 401,
            APIError::NotFound => 404,
            APIError::Unavailable => 503,
            APIError::BadRequest(_) => 400,
            APIError::InternalServerError => 500,
        }
    }
}

} // verus!
