use crate::errors::APIError;
use vstd::prelude::*;

verus! {

/// Fewest characters of an acceptable password.
pub const PASSWORD_MIN_LENGTH: u64 = 8;

/// Most characters of an acceptable password.
pub const PASSWORD_MAX_LENGTH: u64 = 64;

/// Whether validator accepts `s` as an e-mail address.
pub uninterp spec fn is_valid_email(s: Seq<char>) -> bool;

/// Relies on validator 0.16's `validate_email`: the answer depends on the text alone,
/// and an empty text, or one without '@', is refused.
#[verifier::external_body]
fn email_is_valid(s: &str) -> (r: bool)
    ensures
        r == is_valid_email(s@),
        s@.len() == 0 ==> !r,
        !s@.contains('@') ==> !r,
{
    validator::validate_email(s)
}

/// Whether `s` has between `min` and `max` characters, both inclusive; the length
/// is counted in chars, as validator's `validate_length` counts it.
fn length_within(s: &String, min: u64, max: u64) -> (r: bool)
    ensures
        r == (min <= s@.len() && s@.len() <= max),
{
    let n = s.as_str().unicode_len() as u64;
    min <= n && n <= max
}

/// A request to open an account.
#[derive(Debug)]
pub struct RegistrationRequest {
    pub email: String,
    pub password: String,
}

/// The verdict on a registration whose address `email_valid` judged: refused with
/// `BadRequest` when the address is invalid or the password is not between
/// [`PASSWORD_MIN_LENGTH`] and [`PASSWORD_MAX_LENGTH`] characters long.
pub fn check_registration(email_valid: bool, password: &String) -> (r: Result<(), APIError>)
    ensures
        r is Ok <==> email_valid && PASSWORD_MIN_LENGTH <= password@.len() <= PASSWORD_MAX_LENGTH,
        r is Err ==> r->Err_0 is BadRequest,
{
    if !email_valid {
        return Err(APIError::BadRequest(String::from_str("email: not a valid address")));
    }
    if !length_within(password, PASSWORD_MIN_LENGTH, PASSWORD_MAX_LENGTH) {
        return Err(
            APIError::BadRequest(String::from_str("password: must have 8 to 64 characters")),
        );
    }
    Ok(())
}

impl RegistrationRequest {
    /// Accepts a request with a valid address and a password of 8 to 64 characters.
    pub fn validate(&self) -> (r: Result<(), APIError>)
        ensures
            r is Ok <==> is_valid_email(self.email@) && PASSWORD_MIN_LENGTH <= self.password@.len()
                <= PASSWORD_MAX_LENGTH,
            r is Err ==> r->Err_0 is BadRequest,
    {
        let email_valid = email_is_valid(self.email.as_str());
        check_registration(email_valid, &self.password)
    }
}

} // verus!
