use snitch::errors::APIError;
use snitch::registration::{check_registration, RegistrationRequest};

#[test]
fn test_validation() {
    let invalid_registrations = [
        RegistrationRequest {
            email: "".to_string(),
            password: "".to_string(),
        },
        RegistrationRequest {
            email: "md".to_string(),
            password: "".to_string(),
        },
        RegistrationRequest {
            email: "m.x@d.d".to_string(),
            password: "".to_string(),
        },
    ];

    for reg in invalid_registrations.iter() {
        assert!(reg.validate().is_err());
    }

    let valid = RegistrationRequest {
        email: "m.x@d.d".to_string(),
        password: "kdifjwelijsdf".to_string(),
    };
    assert!(valid.validate().is_ok());
}

#[test]
fn password_length_bounds() {
    let at = |n: usize| RegistrationRequest {
        email: "m.x@d.d".to_string(),
        password: "p".repeat(n),
    };
    assert!(at(7).validate().is_err());
    assert!(at(8).validate().is_ok());
    assert!(at(64).validate().is_ok());
    assert!(at(65).validate().is_err());
}

#[test]
fn password_length_counts_chars() {
    let request = RegistrationRequest {
        email: "m.x@d.d".to_string(),
        password: "ääääääää".to_string(),
    };
    assert!(request.validate().is_ok());
}

#[test]
fn invalid_email_is_bad_request() {
    let request = RegistrationRequest {
        email: "no-at-sign".to_string(),
        password: "long enough".to_string(),
    };
    assert!(matches!(request.validate(), Err(APIError::BadRequest(_))));
}

#[test]
fn check_registration_decides_on_given_verdict() {
    assert_eq!(check_registration(true, &"12345678".to_string()), Ok(()));
    assert!(matches!(
        check_registration(false, &"12345678".to_string()),
        Err(APIError::BadRequest(_))
    ));
    assert!(matches!(
        check_registration(true, &"1234567".to_string()),
        Err(APIError::BadRequest(_))
    ));
}

#[test]
fn api_error_status_codes() {
    assert_eq!(APIError::Unauthenticated.status_code(), 401);
    assert_eq!(APIError::NotFound.status_code(), 404);
    assert_eq!(APIError::Unavailable.status_code(), 503);
    assert_eq!(APIError::BadRequest("x".to_string()).status_code(), 400);
    assert_eq!(APIError::InternalServerError.status_code(), 500);
}
