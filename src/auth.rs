use crate::errors::APIError;
use crate::user::UserID;
use vstd::prelude::*;

verus! {

/// Who made a request to a route that an account holder uses.
#[derive(Debug)]
pub enum Authentication {
    Authenticated(UserID),
    Anonymous,
}

impl Authentication {
    /// The account of an authenticated request; `Unauthenticated` otherwise.
    pub fn account(self) -> (r: Result<UserID, APIError>)
        ensures
            match self {
                Authentication::Authenticated(u) => r == Ok::<UserID, APIError>(u),
                Authentication::Anonymous => r == Err::<UserID, APIError>(
                    APIError::Unauthenticated,
                ),
            },
    {
        match self {
            Authentication::Authenticated(u) => Ok(u),
            Authentication::Anonymous => Err(APIError::Unauthenticated),
        }
    }

    /// The greeting of the index page: the account's identifier, or "anonymous".
    pub fn greeting(&self) -> (r: String)
        ensures
            match self {
                Authentication::Authenticated(u) => r@ == "Hello "@ + u@,
                Authentication::Anonymous => r@ == "Hello anonymous"@,
            },
    {
        match self {
            Authentication::Authenticated(u) => String::from_str("Hello ").concat(u.as_str()),
            Authentication::Anonymous => String::from_str("Hello anonymous"),
        }
    }
}

} // verus!
